//! Every step of the lowering makes the state grow.

use crate::arithmetic::{
    binary_table,
    lower_binary,
    lower_cast,
};
use crate::artefact::return_marker;
use crate::calls::{
    call_in_progress,
    collect_results,
    copy_array,
    inline_call,
    move_arguments,
    oracle_call,
    oracle_inputs,
    oracle_outputs,
    resolve_registers,
    spec_try_process_call,
    spec_unsafe_call,
};
use crate::growth::{
    follows,
    group_growth,
    lemma_call_grows,
    lemma_grows_refl,
    lemma_jump_grows,
    lemma_take_tmp_grows,
};
use crate::lowering::{
    lower_instruction,
    return_moves,
};
use crate::opcode::{
    OpcodeView,
    OracleInput,
    OracleOutput,
    RegisterIndex,
    RegisterMemIndex,
    Typ,
};
use crate::phi::{
    phi_arguments,
    phi_moves,
    spec_handle_phi_instructions,
};
use crate::resolver::{
    resolve,
    resolve_register,
    spec_object_type_2_typ,
};
use crate::scheduler::{
    emit_jump,
    lower_all,
    lower_last,
};
use crate::ssa::{
    ArrayId,
    BasicBlock,
    Binary,
    BinaryOp,
    BlockId,
    Instruction,
    NodeId,
    ObjectType,
    Operation,
    RuntimeType,
    SsaContext,
    SsaFunction,
};
use crate::state::LowerState;
use vstd::prelude::*;

verus! {

broadcast use group_growth;

pub proof fn lemma_resolve_grows(ctx: &SsaContext, st: LowerState, a: NodeId)
    ensures
        resolve(ctx, st, a) matches Ok((st1, _)) ==> follows(st, st1),
        resolve_register(ctx, st, a) matches Ok((st1, _)) ==> follows(st, st1),
{
    lemma_grows_refl(st);
}

pub proof fn lemma_binary_table_grows(
    st: LowerState,
    operator: BinaryOp,
    result_type: Typ,
    lhs: RegisterMemIndex,
    rhs: RegisterMemIndex,
    result: RegisterIndex,
)
    ensures
        binary_table(st, operator, result_type, lhs, rhs, result) matches Ok(st1) ==> follows(
            st,
            st1,
        ),
{
    lemma_take_tmp_grows(st);
}

pub proof fn lemma_binary_grows(
    ctx: &SsaContext,
    st: LowerState,
    binary: Binary,
    id: NodeId,
    object_type: ObjectType,
)
    ensures
        lower_binary(ctx, st, binary, id, object_type) matches Ok(st1) ==> follows(st, st1),
{
    lemma_resolve_grows(ctx, st, binary.lhs);
    if let Ok((st1, lhs)) = resolve(ctx, st, binary.lhs) {
        lemma_resolve_grows(ctx, st1, binary.rhs);
        if let Ok((st2, rhs)) = resolve(ctx, st1, binary.rhs) {
            if let Ok(result_type) = spec_object_type_2_typ(object_type) {
                lemma_resolve_grows(ctx, st2, id);
                if let Ok((st3, result)) = resolve_register(ctx, st2, id) {
                    lemma_binary_table_grows(st3, binary.operator, result_type, lhs, rhs, result);
                }
            }
        }
    }
}

pub proof fn lemma_cast_grows(
    ctx: &SsaContext,
    st: LowerState,
    value: NodeId,
    id: NodeId,
    to: ObjectType,
)
    ensures
        lower_cast(ctx, st, value, id, to) matches Ok(st1) ==> follows(st, st1),
{
    lemma_resolve_grows(ctx, st, id);
    if let Ok((st1, _)) = resolve(ctx, st, id) {
        lemma_resolve_grows(ctx, st1, value);
    }
}

pub proof fn lemma_move_arguments_grows(
    ctx: &SsaContext,
    st: LowerState,
    params: Seq<NodeId>,
    args: Seq<NodeId>,
    k: int,
)
    ensures
        move_arguments(ctx, st, params, args, k) matches Ok(st1) ==> follows(st, st1),
    decreases params.len() - k,
{
    lemma_grows_refl(st);
    if !(k < 0 || k >= params.len() || k >= args.len()) {
        lemma_resolve_grows(ctx, st, args[k]);
        if let Ok((st1, source)) = resolve(ctx, st, args[k]) {
            lemma_resolve_grows(ctx, st1, params[k]);
            if let Ok((st2, destination)) = resolve(ctx, st1, params[k]) {
                lemma_move_arguments_grows(
                    ctx,
                    st2.emit(OpcodeView::Mov { destination, source }),
                    params,
                    args,
                    k + 1,
                );
            }
        }
    }
}

pub proof fn lemma_copy_array_grows(st: LowerState, array: ArrayId, position: usize, len: u32, k: int)
    ensures
        copy_array(st, array, position, len, k) matches Ok(st1) ==> follows(st, st1),
    decreases len - k,
{
    lemma_grows_refl(st);
    if !(k < 0 || k >= len) {
        lemma_take_tmp_grows(st);
        if let Ok((st1, tmp)) = st.take_tmp() {
            let index = RegisterMemIndex::Constant(crate::field::FieldValue::small(k as nat));
            let st2 = st1.emit(
                OpcodeView::Load {
                    destination: RegisterMemIndex::Register(tmp),
                    array_id_reg: RegisterMemIndex::Register(RegisterIndex(position)),
                    index,
                },
            );
            let st3 = st2.emit(
                OpcodeView::Store {
                    source: RegisterMemIndex::Register(tmp),
                    array_id_reg: crate::resolver::array_address(array),
                    index,
                },
            );
            assert(follows(st1, st2));
            assert(follows(st2, st3));
            lemma_copy_array_grows(st3, array, position, len, k + 1);
        }
    }
}

pub proof fn lemma_collect_results_grows(
    ctx: &SsaContext,
    st: LowerState,
    values: Seq<NodeId>,
    arrays: Seq<(ArrayId, u32)>,
    i: int,
    j: int,
)
    ensures
        collect_results(ctx, st, values, arrays, i, j) matches Ok(st1) ==> follows(st, st1),
    decreases (values.len() - i) + (arrays.len() - j),
{
    lemma_grows_refl(st);
    if i < 0 || j < 0 || i > values.len() || j > arrays.len() || i + j > usize::MAX || (i
        == values.len() && j == arrays.len()) {
    } else if j < arrays.len() && arrays[j].1 == i + j {
        lemma_collect_results_grows(ctx, st, values, arrays, i, j + 1);
    } else if i >= values.len() {
    } else {
        match ctx.spec_object_type(values[i]) {
            None => {},
            Some(ObjectType::ArrayPointer(array)) => match ctx.spec_array_len(array) {
                None => {},
                Some(len) => {
                    lemma_copy_array_grows(st, array, (i + j) as usize, len, 0);
                    if let Ok(st1) = copy_array(st, array, (i + j) as usize, len, 0) {
                        lemma_collect_results_grows(ctx, st1, values, arrays, i + 1, j);
                    }
                },
            },
            Some(_) => {
                lemma_resolve_grows(ctx, st, values[i]);
                if let Ok((st1, destination)) = resolve(ctx, st, values[i]) {
                    lemma_collect_results_grows(
                        ctx,
                        st1.emit(
                            OpcodeView::Mov {
                                destination,
                                source: RegisterMemIndex::Register(
                                    RegisterIndex((i + j) as usize),
                                ),
                            },
                        ),
                        values,
                        arrays,
                        i + 1,
                        j,
                    );
                }
            },
        }
    }
}

pub proof fn lemma_inline_call_grows(
    ctx: &SsaContext,
    st: LowerState,
    func: NodeId,
    callee: SsaFunction,
    arguments: Seq<NodeId>,
    values: Seq<NodeId>,
    arrays: Seq<(ArrayId, u32)>,
)
    ensures
        inline_call(ctx, st, func, callee, arguments, values, arrays) matches Ok(st1) ==> follows(
            st,
            st1,
        ),
{
    lemma_move_arguments_grows(ctx, st, callee.arguments@, arguments, 0);
    if let Ok(st1) = move_arguments(ctx, st, callee.arguments@, arguments, 0) {
        lemma_call_grows(st1, callee.entry_block, func);
        let st3 = st1.fix_next(BlockId(usize::MAX)).emit(
            OpcodeView::PushStack { source: return_marker() },
        ).fix_next(callee.entry_block).mark_callee(func).emit(OpcodeView::Jump { destination: 0 });
        lemma_collect_results_grows(ctx, st3, values, arrays, 0, 0);
    }
}

pub proof fn lemma_resolve_registers_grows(
    ctx: &SsaContext,
    st: LowerState,
    values: Seq<NodeId>,
    k: int,
)
    ensures
        resolve_registers(ctx, st, values, k) matches Ok(st1) ==> follows(st, st1),
    decreases values.len() - k,
{
    lemma_grows_refl(st);
    if !(k < 0 || k >= values.len()) {
        lemma_resolve_grows(ctx, st, values[k]);
        if let Ok((st1, _)) = resolve_register(ctx, st, values[k]) {
            lemma_resolve_registers_grows(ctx, st1, values, k + 1);
        }
    }
}

pub proof fn lemma_oracle_inputs_grows(
    ctx: &SsaContext,
    st: LowerState,
    params: Seq<NodeId>,
    args: Seq<NodeId>,
    k: int,
    inputs: Seq<OracleInput>,
)
    ensures
        oracle_inputs(ctx, st, params, args, k, inputs) matches Ok((st1, _)) ==> follows(st, st1),
    decreases params.len() - k,
{
    lemma_grows_refl(st);
    if !(k < 0 || k >= params.len() || k >= args.len()) {
        match ctx.spec_deref(args[k]) {
            Some(array) => match ctx.spec_array_len(array) {
                None => {},
                Some(len) => {
                    lemma_oracle_inputs_grows(
                        ctx,
                        st,
                        params,
                        args,
                        k + 1,
                        inputs.push(
                            OracleInput::Array {
                                start: crate::resolver::array_address(array),
                                length: len as usize,
                            },
                        ),
                    );
                },
            },
            None => {
                lemma_resolve_grows(ctx, st, args[k]);
                if let Ok((st1, operand)) = resolve(ctx, st, args[k]) {
                    lemma_oracle_inputs_grows(
                        ctx,
                        st1,
                        params,
                        args,
                        k + 1,
                        inputs.push(OracleInput::RegisterMemIndex(operand)),
                    );
                }
            },
        }
    }
}

pub proof fn lemma_oracle_outputs_grows(
    ctx: &SsaContext,
    st: LowerState,
    result_types: Seq<ObjectType>,
    values: Seq<NodeId>,
    k: int,
    outputs: Seq<OracleOutput>,
)
    ensures
        oracle_outputs(ctx, st, result_types, values, k, outputs) matches Ok((st1, _)) ==> follows(
            st,
            st1,
        ),
    decreases result_types.len() - k,
{
    lemma_grows_refl(st);
    if !(k < 0 || k >= result_types.len() || k >= values.len()) {
        match result_types[k] {
            ObjectType::ArrayPointer(array) => match ctx.spec_array_len(array) {
                None => {},
                Some(len) => {
                    lemma_oracle_outputs_grows(
                        ctx,
                        st,
                        result_types,
                        values,
                        k + 1,
                        outputs.push(
                            OracleOutput::Array {
                                start: crate::resolver::array_address(array),
                                length: len as usize,
                            },
                        ),
                    );
                },
            },
            _ => {
                lemma_resolve_grows(ctx, st, values[k]);
                if let Ok((st1, index)) = resolve_register(ctx, st, values[k]) {
                    lemma_oracle_outputs_grows(
                        ctx,
                        st1,
                        result_types,
                        values,
                        k + 1,
                        outputs.push(OracleOutput::RegisterIndex(index)),
                    );
                }
            },
        }
    }
}

pub proof fn lemma_oracle_call_grows(
    ctx: &SsaContext,
    st: LowerState,
    callee: SsaFunction,
    name: Seq<char>,
    arguments: Seq<NodeId>,
    values: Seq<NodeId>,
)
    ensures
        oracle_call(ctx, st, callee, name, arguments, values) matches Ok(st1) ==> follows(st, st1),
{
    lemma_resolve_registers_grows(ctx, st, values, 0);
    if let Ok(st1) = resolve_registers(ctx, st, values, 0) {
        lemma_oracle_inputs_grows(ctx, st1, callee.arguments@, arguments, 0, Seq::empty());
        if let Ok((st2, inputs)) = oracle_inputs(
            ctx,
            st1,
            callee.arguments@,
            arguments,
            0,
            Seq::empty(),
        ) {
            lemma_oracle_outputs_grows(ctx, st2, callee.result_types@, values, 0, Seq::empty());
        }
    }
}

pub proof fn lemma_unsafe_call_grows(
    ctx: &SsaContext,
    st: LowerState,
    func: NodeId,
    arguments: Seq<NodeId>,
    values: Seq<NodeId>,
    arrays: Seq<(ArrayId, u32)>,
)
    ensures
        spec_unsafe_call(ctx, st, func, arguments, values, arrays) matches Ok(st1) ==> follows(
            st,
            st1,
        ),
{
    lemma_grows_refl(st);
    match ctx.spec_try_get_func_id(func) {
        None => {},
        Some(index) => match ctx.spec_ssa_func(index) {
            None => {},
            Some(callee) => match callee.kind {
                RuntimeType::Oracle(name) => {
                    lemma_oracle_call_grows(ctx, st, callee, name@, arguments, values);
                },
                _ => {
                    lemma_inline_call_grows(ctx, st, func, callee, arguments, values, arrays);
                },
            },
        },
    }
}

pub proof fn lemma_try_process_call_grows(ctx: &SsaContext, st: LowerState)
    ensures
        spec_try_process_call(ctx, st) matches Ok(st1) ==> follows(st, st1),
{
    lemma_grows_refl(st);
    if st.noir_call.len() != 0 {
        match call_in_progress(ctx, st.noir_call[0]) {
            Some(Ok((callee, func, arguments, arrays))) => {
                lemma_unsafe_call_grows(
                    ctx,
                    st,
                    func,
                    arguments,
                    st.noir_call.subrange(1, st.noir_call.len() as int),
                    arrays,
                );
            },
            _ => {},
        }
    }
}

pub proof fn lemma_return_moves_grows(ctx: &SsaContext, st: LowerState, values: Seq<NodeId>, k: int)
    ensures
        return_moves(ctx, st, values, k) matches Ok(st1) ==> follows(st, st1),
    decreases values.len() - k,
{
    lemma_grows_refl(st);
    if !(k < 0 || k >= values.len() || k > usize::MAX) {
        lemma_resolve_grows(ctx, st, values[k]);
        if let Ok((st1, source)) = resolve(ctx, st, values[k]) {
            lemma_return_moves_grows(
                ctx,
                st1.emit(
                    OpcodeView::Mov {
                        destination: RegisterMemIndex::Register(RegisterIndex(k as usize)),
                        source,
                    },
                ),
                values,
                k + 1,
            );
        }
    }
}

pub proof fn lemma_instruction_grows(ctx: &SsaContext, st: LowerState, ins: Instruction)
    ensures
        lower_instruction(ctx, st, ins) matches Ok(st1) ==> follows(st, st1),
{
    lemma_grows_refl(st);
    match ins.operation {
        Operation::Binary(binary) => {
            lemma_binary_grows(ctx, st, binary, ins.id, ins.res_type);
        },
        Operation::Cast(value) => {
            lemma_cast_grows(ctx, st, value, ins.id, ins.res_type);
        },
        Operation::Constrain(condition) => {
            lemma_resolve_grows(ctx, st, condition);
        },
        Operation::Call { .. } => {
            lemma_try_process_call_grows(ctx, st.with_call(seq![ins.id]));
        },
        Operation::Return(values) => {
            lemma_return_moves_grows(ctx, st, values@, 0);
        },
        Operation::Result { .. } => {
            lemma_try_process_call_grows(ctx, st.with_call(st.noir_call.push(ins.id)));
        },
        Operation::Load { array_id, index } => {
            lemma_resolve_grows(ctx, st, index);
            if let Ok((st1, _)) = resolve(ctx, st, index) {
                lemma_resolve_grows(ctx, st1, ins.id);
            }
        },
        Operation::Store { array_id, index, value } => {
            lemma_resolve_grows(ctx, st, index);
            if let Ok((st1, _)) = resolve(ctx, st, index) {
                lemma_resolve_grows(ctx, st1, value);
            }
        },
        Operation::UnsafeCall { func, arguments, returned_values } => {
            lemma_unsafe_call_grows(ctx, st, func, arguments@, returned_values@, Seq::empty());
        },
        _ => {},
    }
}

pub proof fn lemma_phi_arguments_grows(
    ctx: &SsaContext,
    st: LowerState,
    current: BlockId,
    phi: NodeId,
    block_args: Seq<(NodeId, BlockId)>,
    m: int,
)
    ensures
        phi_arguments(ctx, st, current, phi, block_args, m) matches Ok(st1) ==> follows(st, st1),
    decreases block_args.len() - m,
{
    lemma_grows_refl(st);
    if m < 0 || m >= block_args.len() {
    } else if block_args[m].1 == current {
        lemma_resolve_grows(ctx, st, phi);
        if let Ok((st1, destination)) = resolve(ctx, st, phi) {
            lemma_resolve_grows(ctx, st1, block_args[m].0);
            if let Ok((st2, source)) = resolve(ctx, st1, block_args[m].0) {
                lemma_phi_arguments_grows(
                    ctx,
                    st2.emit(OpcodeView::Mov { destination, source }),
                    current,
                    phi,
                    block_args,
                    m + 1,
                );
            }
        }
    } else {
        lemma_phi_arguments_grows(ctx, st, current, phi, block_args, m + 1);
    }
}

pub proof fn lemma_phi_moves_grows(
    ctx: &SsaContext,
    st: LowerState,
    current: BlockId,
    instructions: Seq<NodeId>,
    k: int,
)
    ensures
        phi_moves(ctx, st, current, instructions, k) matches Ok(st1) ==> follows(st, st1),
    decreases instructions.len() - k,
{
    lemma_grows_refl(st);
    if !(k < 0 || k >= instructions.len()) {
        match ctx.spec_try_get_instruction(instructions[k]) {
            None => {
                lemma_phi_moves_grows(ctx, st, current, instructions, k + 1);
            },
            Some(ins) => match ins.operation {
                Operation::Nop => {
                    lemma_phi_moves_grows(ctx, st, current, instructions, k + 1);
                },
                Operation::Phi { block_args, .. } => {
                    lemma_phi_arguments_grows(ctx, st, current, ins.id, block_args@, 0);
                    if let Ok(st1) = phi_arguments(ctx, st, current, ins.id, block_args@, 0) {
                        lemma_phi_moves_grows(ctx, st1, current, instructions, k + 1);
                    }
                },
                _ => {},
            },
        }
    }
}

pub proof fn lemma_handle_phi_grows(ctx: &SsaContext, st: LowerState, current: BlockId, left: BlockId)
    ensures
        spec_handle_phi_instructions(ctx, st, current, left) matches Ok(st1) ==> follows(st, st1),
{
    lemma_grows_refl(st);
    if let Some(block) = ctx.spec_block(left) {
        lemma_phi_moves_grows(ctx, st, current, block.instructions@, 0);
    }
}

pub proof fn lemma_lower_all_grows(
    ctx: &SsaContext,
    st: LowerState,
    instructions: Seq<NodeId>,
    k: int,
    end: int,
)
    ensures
        lower_all(ctx, st, instructions, k, end) matches Ok(st1) ==> follows(st, st1),
    decreases end - k,
{
    lemma_grows_refl(st);
    if !(k < 0 || k >= end || k >= instructions.len()) {
        if let Some(ins) = ctx.spec_try_get_instruction(instructions[k]) {
            lemma_instruction_grows(ctx, st, ins);
            if let Ok(st1) = lower_instruction(ctx, st, ins) {
                lemma_lower_all_grows(ctx, st1, instructions, k + 1, end);
            }
        }
    }
}

/// The last instruction makes the state grow, and the jump that ends the
/// block holds a placeholder.
pub proof fn lemma_lower_last_grows(ctx: &SsaContext, st: LowerState, block: BasicBlock)
    ensures
        lower_last(ctx, st, block) matches Ok((st1, jump)) ==> follows(st, st1) && (jump matches Some(
            (op, _),
        ) ==> crate::growth::placeholder(op) && !(op is PushStack)) && (jump is None
            <==> block.left is None && !crate::scheduler::ends_in_jump(ctx, block)),
{
    lemma_grows_refl(st);
    if block.instructions@.len() != 0 {
        if let Some(ins) = ctx.spec_try_get_instruction(block.instructions@.last()) {
            match ins.operation {
                Operation::Jne(cond, _) => {
                    lemma_resolve_grows(ctx, st, cond);
                },
                Operation::Jeq(cond, _) => {
                    lemma_resolve_grows(ctx, st, cond);
                },
                Operation::Jmp(_) => {},
                _ => {
                    lemma_instruction_grows(ctx, st, ins);
                },
            }
        }
    }
}

pub proof fn lemma_emit_jump_grows(st: LowerState, jump: Option<(OpcodeView, BlockId)>)
    requires
        jump matches Some((op, _)) ==> crate::growth::placeholder(op) && !(op is PushStack),
    ensures
        follows(st, emit_jump(st, jump)),
{
    lemma_grows_refl(st);
    if let Some((op, target)) = jump {
        lemma_jump_grows(st, target, op);
    }
}

} // verus!
