//! The lowering table: what each SSA instruction becomes.

use crate::arithmetic::{lower_binary, lower_cast};
use crate::calls::{spec_try_process_call, spec_unsafe_call};
use crate::errors::{CompileError, Construct, Violation};
use crate::opcode::{Opcode, OpcodeView, RegisterIndex, RegisterMemIndex};
use crate::resolver::{array_address, array_address_of, resolve};
use crate::ssa::{ArrayId, Instruction, NodeId, Operation, SsaContext};
use crate::state::{steps, BrilligGen, LowerState};
use vstd::prelude::*;

verus! {

/// The address that a failed assertion jumps to: the trap of the prologue.
pub open spec fn trap_address() -> usize {
    1
}

/// The state after each returned value, from the `k`-th on, is moved into the
/// register with the number of its position.
pub open spec fn return_moves(ctx: &SsaContext, st: LowerState, values: Seq<NodeId>, k: int) -> Result<
    LowerState,
    CompileError,
>
    decreases values.len() - k,
{
    if k < 0 || k >= values.len() || k > usize::MAX {
        Ok(st)
    } else {
        match resolve(ctx, st, values[k]) {
            Err(e) => Err(e),
            Ok((st1, source)) => return_moves(
                ctx,
                st1.emit(
                    OpcodeView::Mov {
                        destination: RegisterMemIndex::Register(RegisterIndex(k as usize)),
                        source,
                    },
                ),
                values,
                k + 1,
            ),
        }
    }
}

/// The lowering of a return. Nothing is returned, or one value in register 0
/// (unless it stands for "no node"), or several in the registers from 0 on.
pub open spec fn lower_return(ctx: &SsaContext, st: LowerState, values: Seq<NodeId>) -> Result<
    LowerState,
    CompileError,
> {
    if values.len() == 0 {
        Ok(st)
    } else if values.len() == 1 {
        if values[0].spec_is_dummy() {
            Ok(st)
        } else {
            return_moves(ctx, st, values, 0)
        }
    } else {
        return_moves(ctx, st, values, 0)
    }
}

/// The lowering of a load from `array` at `index` into the node `id`.
pub open spec fn lower_load(
    ctx: &SsaContext,
    st: LowerState,
    array: ArrayId,
    index: NodeId,
    id: NodeId,
) -> Result<LowerState, CompileError> {
    match resolve(ctx, st, index) {
        Err(e) => Err(e),
        Ok((st1, index_operand)) => match resolve(ctx, st1, id) {
            Err(e) => Err(e),
            Ok((st2, destination)) => Ok(
                st2.emit(
                    OpcodeView::Load {
                        destination,
                        array_id_reg: array_address(array),
                        index: index_operand,
                    },
                ),
            ),
        },
    }
}

/// The lowering of a store of `value` to `array` at `index`.
pub open spec fn lower_store(
    ctx: &SsaContext,
    st: LowerState,
    array: ArrayId,
    index: NodeId,
    value: NodeId,
) -> Result<LowerState, CompileError> {
    match resolve(ctx, st, index) {
        Err(e) => Err(e),
        Ok((st1, index_operand)) => match resolve(ctx, st1, value) {
            Err(e) => Err(e),
            Ok((st2, source)) => Ok(
                st2.emit(
                    OpcodeView::Store {
                        source,
                        array_id_reg: array_address(array),
                        index: index_operand,
                    },
                ),
            ),
        },
    }
}

/// The lowering of an assertion: a jump to the trap if the condition is false.
pub open spec fn lower_constrain(ctx: &SsaContext, st: LowerState, condition: NodeId) -> Result<
    LowerState,
    CompileError,
> {
    match resolve(ctx, st, condition) {
        Err(e) => Err(e),
        Ok((st1, operand)) => Ok(
            st1.emit(OpcodeView::JumpIfNot { condition: operand, destination: trap_address() }),
        ),
    }
}

/// The state after an instruction is lowered that is not the last of its
/// block.
///
/// Arithmetic, casts, assertions, loads, stores and returns become opcodes. A
/// phi becomes nothing here: the moves that stand for it are emitted where its
/// predecessors end. A call opens the call buffer, which must be empty, and a
/// result joins the call at the head of the buffer; the call is emitted when
/// the buffer is complete. Jumps belong at the end of a block, and the
/// bitwise complement and built-in functions are not taken. Truncations and
/// conditional values exist only on the way to an arithmetic circuit.
pub open spec fn lower_instruction(ctx: &SsaContext, st: LowerState, ins: Instruction) -> Result<
    LowerState,
    CompileError,
> {
    match ins.operation {
        Operation::Binary(binary) => lower_binary(ctx, st, binary, ins.id, ins.res_type),
        Operation::Cast(value) => lower_cast(ctx, st, value, ins.id, ins.res_type),
        Operation::Truncate { .. } => Err(CompileError::Internal(Violation::CircuitOnlyOperation)),
        Operation::Not(_) => Err(CompileError::Unsupported(Construct::Bitwise)),
        Operation::Constrain(condition) => lower_constrain(ctx, st, condition),
        Operation::Jne(_, _) | Operation::Jeq(_, _) | Operation::Jmp(_) => Err(
            CompileError::Unsupported(Construct::MisplacedJump),
        ),
        Operation::Phi { .. } => Ok(st),
        Operation::Call { .. } => if st.noir_call.len() != 0 {
            Err(CompileError::Internal(Violation::OverlappingCall))
        } else {
            spec_try_process_call(ctx, st.with_call(seq![ins.id]))
        },
        Operation::Return(values) => lower_return(ctx, st, values@),
        Operation::Result { call_instruction, .. } => if st.noir_call.len() == 0
            || st.noir_call[0] != call_instruction {
            Err(CompileError::Internal(Violation::OrphanResult))
        } else {
            spec_try_process_call(ctx, st.with_call(st.noir_call.push(ins.id)))
        },
        Operation::Cond { .. } => Err(CompileError::Internal(Violation::CircuitOnlyOperation)),
        Operation::Load { array_id, index } => lower_load(ctx, st, array_id, index, ins.id),
        Operation::Store { array_id, index, value } => if ins.operation.spec_is_dummy_store() {
            Ok(st)
        } else {
            lower_store(ctx, st, array_id, index, value)
        },
        Operation::Intrinsic(_) => Err(CompileError::Unsupported(Construct::Intrinsic)),
        Operation::UnsafeCall { func, arguments, returned_values } => spec_unsafe_call(
            ctx,
            st,
            func,
            arguments@,
            returned_values@,
            Seq::empty(),
        ),
        Operation::Nop => Ok(st),
    }
}

impl BrilligGen {
    /// Moves each returned value into the register of its position.
    fn return_moves(&mut self, ctx: &SsaContext, values: &Vec<NodeId>) -> (r: Result<
        (),
        CompileError,
    >)
        ensures
            steps(return_moves(ctx, old(self).state(), values@, 0), r, final(self).state()),
            final(self).table() == old(self).table(),
    {
        let mut k: usize = 0;
        while k < values.len()
            invariant
                k <= values@.len(),
                return_moves(ctx, self.state(), values@, k as int) == return_moves(
                    ctx,
                    old(self).state(),
                    values@,
                    0,
                ),
                self.table() == old(self).table(),
            decreases values@.len() - k,
        {
            let source = self.node_2_register(ctx, values[k])?;
            self.push_code(
                Opcode::Mov { destination: RegisterMemIndex::Register(RegisterIndex(k)), source },
            );
            k += 1;
        }
        Ok(())
    }

    /// Converts an SSA instruction that is not the last of its block.
    pub fn instruction_to_bc(&mut self, ctx: &SsaContext, ins: &Instruction) -> (r: Result<
        (),
        CompileError,
    >)
        ensures
            steps(lower_instruction(ctx, old(self).state(), *ins), r, final(self).state()),
            final(self).table() == old(self).table(),
    {
        match &ins.operation {
            Operation::Binary(binary) => self.binary(ctx, binary, ins.id, ins.res_type),
            Operation::Cast(value) => self.cast(ctx, *value, ins.id, ins.res_type),
            Operation::Truncate { .. } => Err(
                CompileError::Internal(Violation::CircuitOnlyOperation),
            ),
            Operation::Not(_) => Err(CompileError::Unsupported(Construct::Bitwise)),
            Operation::Constrain(condition) => {
                let operand = self.node_2_register(ctx, *condition)?;
                self.push_code(Opcode::JumpIfNot { condition: operand, destination: 1 });
                Ok(())
            },
            Operation::Jne(_, _) | Operation::Jeq(_, _) | Operation::Jmp(_) => Err(
                CompileError::Unsupported(Construct::MisplacedJump),
            ),
            Operation::Phi { .. } => Ok(()),
            Operation::Call { .. } => {
                if self.noir_call.len() != 0 {
                    return Err(CompileError::Internal(Violation::OverlappingCall));
                }
                self.noir_call.push(ins.id);
                assert(self.noir_call@ =~= seq![ins.id]);
                self.try_process_call(ctx)
            },
            Operation::Return(values) => {
                if values.len() == 0 {
                    Ok(())
                } else if values.len() == 1 && values[0].is_dummy() {
                    Ok(())
                } else {
                    self.return_moves(ctx, values)
                }
            },
            Operation::Result { call_instruction, .. } => {
                if self.noir_call.len() == 0 || self.noir_call[0] != *call_instruction {
                    return Err(CompileError::Internal(Violation::OrphanResult));
                }
                self.noir_call.push(ins.id);
                self.try_process_call(ctx)
            },
            Operation::Cond { .. } => Err(CompileError::Internal(Violation::CircuitOnlyOperation)),
            Operation::Load { array_id, index } => {
                let index_operand = self.node_2_register(ctx, *index)?;
                let array_id_reg = array_address_of(*array_id);
                let destination = self.node_2_register(ctx, ins.id)?;
                self.push_code(Opcode::Load { destination, array_id_reg, index: index_operand });
                Ok(())
            },
            Operation::Store { array_id, index, value } => {
                if ins.operation.is_dummy_store() {
                    Ok(())
                } else {
                    let index_operand = self.node_2_register(ctx, *index)?;
                    let array_id_reg = array_address_of(*array_id);
                    let source = self.node_2_register(ctx, *value)?;
                    self.push_code(Opcode::Store { source, array_id_reg, index: index_operand });
                    Ok(())
                }
            },
            Operation::Intrinsic(_) => Err(CompileError::Unsupported(Construct::Intrinsic)),
            Operation::UnsafeCall { func, arguments, returned_values } => {
                let no_arrays: Vec<(ArrayId, u32)> = Vec::new();
                self.unsafe_call(ctx, *func, arguments, returned_values, &no_arrays)
            },
            Operation::Nop => Ok(()),
        }
    }
}

} // verus!
