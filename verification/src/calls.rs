//! The call protocol: calls of functions that are linked in, and call-outs
//! to functions that the host provides.

use crate::errors::{CompileError, Violation};
use crate::field::{field_from_i128, field_zero, FieldValue};
use crate::opcode::{
    Opcode,
    OpcodeView,
    OracleData,
    OracleDataView,
    OracleInput,
    OracleOutput,
    RegisterIndex,
    RegisterMemIndex,
};
use crate::resolver::{array_address, array_address_of, resolve, resolve_register};
use crate::ssa::{
    ArrayId,
    BlockId,
    Instruction,
    NodeId,
    ObjectType,
    Operation,
    RuntimeType,
    SsaContext,
    SsaFunction,
};
use crate::state::{steps, BrilligGen, LowerState};
use vstd::prelude::*;

verus! {

/// The state after each argument, from the `k`-th on, is moved into the
/// register of its parameter. Arguments without a parameter, and parameters
/// without an argument, are passed over.
pub open spec fn move_arguments(
    ctx: &SsaContext,
    st: LowerState,
    params: Seq<NodeId>,
    args: Seq<NodeId>,
    k: int,
) -> Result<LowerState, CompileError>
    decreases params.len() - k,
{
    if k < 0 || k >= params.len() || k >= args.len() {
        Ok(st)
    } else {
        match resolve(ctx, st, args[k]) {
            Err(e) => Err(e),
            Ok((st1, source)) => match resolve(ctx, st1, params[k]) {
                Err(e) => Err(e),
                Ok((st2, destination)) => move_arguments(
                    ctx,
                    st2.emit(OpcodeView::Mov { destination, source }),
                    params,
                    args,
                    k + 1,
                ),
            },
        }
    }
}

/// The state after the elements of a returned array, from the `k`-th on, are
/// copied: each is loaded through the pointer in register `position` into a
/// fresh register, and stored from there into `array`.
pub open spec fn copy_array(st: LowerState, array: ArrayId, position: usize, len: u32, k: int) -> Result<
    LowerState,
    CompileError,
>
    decreases len - k,
{
    if k < 0 || k >= len {
        Ok(st)
    } else {
        match st.take_tmp() {
            Err(e) => Err(e),
            Ok((st1, tmp)) => {
                let index = RegisterMemIndex::Constant(FieldValue::small(k as nat));
                copy_array(
                    st1.emit(
                        OpcodeView::Load {
                            destination: RegisterMemIndex::Register(tmp),
                            array_id_reg: RegisterMemIndex::Register(RegisterIndex(position)),
                            index,
                        },
                    ).emit(
                        OpcodeView::Store {
                            source: RegisterMemIndex::Register(tmp),
                            array_id_reg: array_address(array),
                            index,
                        },
                    ),
                    array,
                    position,
                    len,
                    k + 1,
                )
            },
        }
    }
}

/// The state after the results of a call are taken from the registers in
/// which the callee leaves them. Register `i + j` holds the next result:
/// either the `j`-th returned array, which the callee filled in place, or the
/// `i`-th value. A value of array type is copied element by element, any
/// other is moved to its register.
pub open spec fn collect_results(
    ctx: &SsaContext,
    st: LowerState,
    values: Seq<NodeId>,
    arrays: Seq<(ArrayId, u32)>,
    i: int,
    j: int,
) -> Result<LowerState, CompileError>
    decreases (values.len() - i) + (arrays.len() - j),
{
    if i < 0 || j < 0 || i > values.len() || j > arrays.len() || i + j > usize::MAX || (i
        == values.len() && j == arrays.len()) {
        Ok(st)
    } else if j < arrays.len() && arrays[j].1 == i + j {
        collect_results(ctx, st, values, arrays, i, j + 1)
    } else if i >= values.len() {
        Err(CompileError::Internal(Violation::ResultMismatch))
    } else {
        match ctx.spec_object_type(values[i]) {
            None => Err(CompileError::Internal(Violation::UnknownNode)),
            Some(ObjectType::ArrayPointer(array)) => match ctx.spec_array_len(array) {
                None => Err(CompileError::Internal(Violation::UnknownArray)),
                Some(len) => match copy_array(st, array, (i + j) as usize, len, 0) {
                    Err(e) => Err(e),
                    Ok(st1) => collect_results(ctx, st1, values, arrays, i + 1, j),
                },
            },
            Some(_) => match resolve(ctx, st, values[i]) {
                Err(e) => Err(e),
                Ok((st1, destination)) => collect_results(
                    ctx,
                    st1.emit(
                        OpcodeView::Mov {
                            destination,
                            source: RegisterMemIndex::Register(RegisterIndex((i + j) as usize)),
                        },
                    ),
                    values,
                    arrays,
                    i + 1,
                    j,
                ),
            },
        }
    }
}

/// The code of a call of the function `func`, defined by `callee`, that is
/// linked in: the arguments are moved to the parameters, the return address
/// is pushed, the jump to the callee follows, and then the results are
/// collected. The push and the jump hold placeholders: the first for the
/// address behind the jump, the second for the entry of the callee, which is
/// noted for the linker.
pub open spec fn inline_call(
    ctx: &SsaContext,
    st: LowerState,
    func: NodeId,
    callee: SsaFunction,
    arguments: Seq<NodeId>,
    values: Seq<NodeId>,
    arrays: Seq<(ArrayId, u32)>,
) -> Result<LowerState, CompileError> {
    match move_arguments(ctx, st, callee.arguments@, arguments, 0) {
        Err(e) => Err(e),
        Ok(st1) => {
            let st2 = st1.fix_next(BlockId(usize::MAX)).emit(
                OpcodeView::PushStack { source: RegisterMemIndex::Constant(FieldValue::small(0)) },
            );
            let st3 = st2.fix_next(callee.entry_block).mark_callee(func).emit(
                OpcodeView::Jump { destination: 0 },
            );
            if values.len() + arrays.len() > usize::MAX {
                Err(CompileError::Internal(Violation::RegisterOverflow))
            } else {
                collect_results(ctx, st3, values, arrays, 0, 0)
            }
        },
    }
}

/// The state after each of the values, from the `k`-th on, is resolved to a
/// register.
pub open spec fn resolve_registers(ctx: &SsaContext, st: LowerState, values: Seq<NodeId>, k: int) -> Result<
    LowerState,
    CompileError,
>
    decreases values.len() - k,
{
    if k < 0 || k >= values.len() {
        Ok(st)
    } else {
        match resolve_register(ctx, st, values[k]) {
            Err(e) => Err(e),
            Ok((st1, _)) => resolve_registers(ctx, st1, values, k + 1),
        }
    }
}

/// What the host is handed for each argument, from the `k`-th on, after
/// `inputs`: the region of memory, where the argument is an array, and the
/// operand of the argument otherwise. There are as many as the function has
/// parameters.
pub open spec fn oracle_inputs(
    ctx: &SsaContext,
    st: LowerState,
    params: Seq<NodeId>,
    args: Seq<NodeId>,
    k: int,
    inputs: Seq<OracleInput>,
) -> Result<(LowerState, Seq<OracleInput>), CompileError>
    decreases params.len() - k,
{
    if k < 0 || k >= params.len() || k >= args.len() {
        Ok((st, inputs))
    } else {
        match ctx.spec_deref(args[k]) {
            Some(array) => match ctx.spec_array_len(array) {
                None => Err(CompileError::Internal(Violation::UnknownArray)),
                Some(len) => oracle_inputs(
                    ctx,
                    st,
                    params,
                    args,
                    k + 1,
                    inputs.push(
                        OracleInput::Array { start: array_address(array), length: len as usize },
                    ),
                ),
            },
            None => match resolve(ctx, st, args[k]) {
                Err(e) => Err(e),
                Ok((st1, operand)) => oracle_inputs(
                    ctx,
                    st1,
                    params,
                    args,
                    k + 1,
                    inputs.push(OracleInput::RegisterMemIndex(operand)),
                ),
            },
        }
    }
}

/// Where the host leaves each result, from the `k`-th on, after `outputs`:
/// the region of memory, where the declared type is an array, and the
/// register of the value that takes the result otherwise.
pub open spec fn oracle_outputs(
    ctx: &SsaContext,
    st: LowerState,
    result_types: Seq<ObjectType>,
    values: Seq<NodeId>,
    k: int,
    outputs: Seq<OracleOutput>,
) -> Result<(LowerState, Seq<OracleOutput>), CompileError>
    decreases result_types.len() - k,
{
    if k < 0 || k >= result_types.len() || k >= values.len() {
        Ok((st, outputs))
    } else {
        match result_types[k] {
            ObjectType::ArrayPointer(array) => match ctx.spec_array_len(array) {
                None => Err(CompileError::Internal(Violation::UnknownArray)),
                Some(len) => oracle_outputs(
                    ctx,
                    st,
                    result_types,
                    values,
                    k + 1,
                    outputs.push(
                        OracleOutput::Array { start: array_address(array), length: len as usize },
                    ),
                ),
            },
            _ => match resolve_register(ctx, st, values[k]) {
                Err(e) => Err(e),
                Ok((st1, index)) => oracle_outputs(
                    ctx,
                    st1,
                    result_types,
                    values,
                    k + 1,
                    outputs.push(OracleOutput::RegisterIndex(index)),
                ),
            },
        }
    }
}

/// The inputs and outputs of a call-out to `callee`.
pub open spec fn oracle_abi(
    ctx: &SsaContext,
    st: LowerState,
    callee: SsaFunction,
    arguments: Seq<NodeId>,
    values: Seq<NodeId>,
) -> Result<(LowerState, (Seq<OracleInput>, Seq<OracleOutput>)), CompileError> {
    match oracle_inputs(ctx, st, callee.arguments@, arguments, 0, Seq::empty()) {
        Err(e) => Err(e),
        Ok((st1, inputs)) => match oracle_outputs(
            ctx,
            st1,
            callee.result_types@,
            values,
            0,
            Seq::empty(),
        ) {
            Err(e) => Err(e),
            Ok((st2, outputs)) => Ok((st2, (inputs, outputs))),
        },
    }
}

/// The code of a call-out to the function that the host provides as `name`:
/// one opcode, which carries the name and what is handed over and taken back.
pub open spec fn oracle_call(
    ctx: &SsaContext,
    st: LowerState,
    callee: SsaFunction,
    name: Seq<char>,
    arguments: Seq<NodeId>,
    values: Seq<NodeId>,
) -> Result<LowerState, CompileError> {
    match resolve_registers(ctx, st, values, 0) {
        Err(e) => Err(e),
        Ok(st1) => match oracle_abi(ctx, st1, callee, arguments, values) {
            Err(e) => Err(e),
            Ok((st2, (inputs, outputs))) => Ok(
                st2.emit(
                    OpcodeView::Oracle(
                        OracleDataView {
                            name,
                            inputs,
                            input_values: Seq::empty(),
                            outputs,
                            output_values: Seq::empty(),
                        },
                    ),
                ),
            ),
        },
    }
}

/// The code of a call of `func` with the given arguments, whose results go to
/// `values`, except those that are arrays filled in place, which `arrays`
/// lists with their positions. A node that stands for no function of the
/// program is passed over.
pub open spec fn spec_unsafe_call(
    ctx: &SsaContext,
    st: LowerState,
    func: NodeId,
    arguments: Seq<NodeId>,
    values: Seq<NodeId>,
    arrays: Seq<(ArrayId, u32)>,
) -> Result<LowerState, CompileError> {
    match ctx.spec_try_get_func_id(func) {
        None => Ok(st),
        Some(index) => match ctx.spec_ssa_func(index) {
            None => Err(CompileError::Internal(Violation::UnknownFunction)),
            Some(callee) => match callee.kind {
                RuntimeType::Oracle(name) => oracle_call(
                    ctx,
                    st,
                    callee,
                    name@,
                    arguments,
                    values,
                ),
                _ => inline_call(ctx, st, func, callee, arguments, values, arrays),
            },
        },
    }
}

/// The call that `call` starts, if it is a call of a function of the program:
/// the definition of the callee and the call's own parts.
pub open spec fn call_in_progress(ctx: &SsaContext, call: NodeId) -> Option<
    Result<(SsaFunction, NodeId, Seq<NodeId>, Seq<(ArrayId, u32)>), CompileError>,
> {
    match ctx.spec_try_get_instruction(call) {
        Some(
            Instruction { operation: Operation::Call { func, arguments, returned_arrays }, .. },
        ) => match ctx.spec_try_get_func_id(func) {
            None => None,
            Some(index) => match ctx.spec_ssa_func(index) {
                None => Some(Err(CompileError::Internal(Violation::UnknownFunction))),
                Some(callee) => Some(Ok((callee, func, arguments@, returned_arrays@))),
            },
        },
        _ => None,
    }
}

/// The state after the buffered call is emitted, if it is complete: that is, if
/// the call and the results collected so far, together with the arrays that
/// the call returns in place, are one more than the results that the callee
/// declares. The buffer is then empty. Until then nothing changes.
pub open spec fn spec_try_process_call(ctx: &SsaContext, st: LowerState) -> Result<
    LowerState,
    CompileError,
> {
    if st.noir_call.len() == 0 {
        Ok(st)
    } else {
        match call_in_progress(ctx, st.noir_call[0]) {
            None => Ok(st),
            Some(Err(e)) => Err(e),
            Some(Ok((callee, func, arguments, arrays))) => if st.noir_call.len() + arrays.len()
                == callee.result_types@.len() + 1 {
                match spec_unsafe_call(
                    ctx,
                    st,
                    func,
                    arguments,
                    st.noir_call.subrange(1, st.noir_call.len() as int),
                    arrays,
                ) {
                    Err(e) => Err(e),
                    Ok(st1) => Ok(st1.with_call(Seq::empty())),
                }
            } else {
                Ok(st)
            },
        }
    }
}

/// The nodes of a list after the first.
fn tail_of(nodes: &Vec<NodeId>) -> (r: Vec<NodeId>)
    requires
        nodes@.len() > 0,
    ensures
        r@ == nodes@.subrange(1, nodes@.len() as int),
{
    let mut r: Vec<NodeId> = Vec::new();
    let mut i: usize = 1;
    while i < nodes.len()
        invariant
            1 <= i <= nodes@.len(),
            r@ == nodes@.subrange(1, i as int),
        decreases nodes@.len() - i,
    {
        r.push(nodes[i]);
        i += 1;
        assert(r@ =~= nodes@.subrange(1, i as int));
    }
    r
}

impl BrilligGen {
    /// Moves each argument into the register of its parameter.
    fn move_arguments(&mut self, ctx: &SsaContext, params: &Vec<NodeId>, args: &Vec<NodeId>) -> (r:
        Result<(), CompileError>)
        ensures
            steps(
                move_arguments(ctx, old(self).state(), params@, args@, 0),
                r,
                final(self).state(),
            ),
            final(self).table() == old(self).table(),
    {
        let mut k: usize = 0;
        while k < params.len() && k < args.len()
            invariant
                k <= params@.len(),
                move_arguments(ctx, self.state(), params@, args@, k as int) == move_arguments(
                    ctx,
                    old(self).state(),
                    params@,
                    args@,
                    0,
                ),
                self.table() == old(self).table(),
            decreases params@.len() - k,
        {
            let source = self.node_2_register(ctx, args[k])?;
            let destination = self.node_2_register(ctx, params[k])?;
            self.push_code(Opcode::Mov { destination, source });
            k += 1;
        }
        Ok(())
    }

    /// Copies a returned array, element by element, from where the callee
    /// left it to its place.
    fn copy_array(&mut self, array: ArrayId, position: usize, len: u32) -> (r: Result<
        (),
        CompileError,
    >)
        ensures
            steps(copy_array(old(self).state(), array, position, len, 0), r, final(self).state()),
            final(self).table() == old(self).table(),
    {
        let a_reg = array_address_of(array);
        let mut k: u32 = 0;
        while k < len
            invariant
                k <= len,
                a_reg == array_address(array),
                copy_array(self.state(), array, position, len, k as int) == copy_array(
                    old(self).state(),
                    array,
                    position,
                    len,
                    0,
                ),
                self.table() == old(self).table(),
            decreases len - k,
        {
            let tmp = self.get_tmp_register()?;
            let index = RegisterMemIndex::Constant(field_from_i128(k as i128));
            self.push_code(
                Opcode::Load {
                    destination: RegisterMemIndex::Register(tmp),
                    array_id_reg: RegisterMemIndex::Register(RegisterIndex(position)),
                    index,
                },
            );
            self.push_code(
                Opcode::Store { source: RegisterMemIndex::Register(tmp), array_id_reg: a_reg, index },
            );
            k += 1;
        }
        Ok(())
    }

    /// Takes the results of a call from the registers in which the callee
    /// leaves them.
    fn collect_results(
        &mut self,
        ctx: &SsaContext,
        values: &Vec<NodeId>,
        arrays: &Vec<(ArrayId, u32)>,
    ) -> (r: Result<(), CompileError>)
        requires
            values@.len() + arrays@.len() <= usize::MAX,
        ensures
            steps(
                collect_results(ctx, old(self).state(), values@, arrays@, 0, 0),
                r,
                final(self).state(),
            ),
            final(self).table() == old(self).table(),
    {
        let mut i: usize = 0;
        let mut j: usize = 0;
        while i < values.len() || j < arrays.len()
            invariant
                i <= values@.len(),
                j <= arrays@.len(),
                values@.len() + arrays@.len() <= usize::MAX,
                collect_results(ctx, self.state(), values@, arrays@, i as int, j as int)
                    == collect_results(ctx, old(self).state(), values@, arrays@, 0, 0),
                self.table() == old(self).table(),
            decreases (values@.len() - i) + (arrays@.len() - j),
        {
            let position = i + j;
            if j < arrays.len() && arrays[j].1 as usize == position {
                j += 1;
                continue ;
            }
            if i >= values.len() {
                return Err(CompileError::Internal(Violation::ResultMismatch));
            }
            match ctx.object_type(values[i]) {
                None => {
                    return Err(CompileError::Internal(Violation::UnknownNode));
                },
                Some(ObjectType::ArrayPointer(array)) => match ctx.array_len(array) {
                    None => {
                        return Err(CompileError::Internal(Violation::UnknownArray));
                    },
                    Some(len) => {
                        self.copy_array(array, position, len)?;
                    },
                },
                Some(_) => {
                    let destination = self.node_2_register(ctx, values[i])?;
                    self.push_code(
                        Opcode::Mov {
                            destination,
                            source: RegisterMemIndex::Register(RegisterIndex(position)),
                        },
                    );
                },
            }
            i += 1;
        }
        Ok(())
    }

    /// Emits a call of a function that is linked in.
    fn inline_call(
        &mut self,
        ctx: &SsaContext,
        func: NodeId,
        callee: &SsaFunction,
        arguments: &Vec<NodeId>,
        returned_values: &Vec<NodeId>,
        returned_arrays: &Vec<(ArrayId, u32)>,
    ) -> (r: Result<(), CompileError>)
        ensures
            steps(
                inline_call(
                    ctx,
                    old(self).state(),
                    func,
                    *callee,
                    arguments@,
                    returned_values@,
                    returned_arrays@,
                ),
                r,
                final(self).state(),
            ),
            final(self).table() == old(self).table(),
    {
        self.move_arguments(ctx, &callee.arguments, arguments)?;
        self.fix_next(BlockId::dummy());
        self.push_code(Opcode::PushStack { source: RegisterMemIndex::Constant(field_zero()) });
        self.fix_next(callee.entry_block);
        self.mark_callee(func);
        self.push_code(Opcode::Jump { destination: 0 });
        if returned_values.len() > usize::MAX - returned_arrays.len() {
            return Err(CompileError::Internal(Violation::RegisterOverflow));
        }
        self.collect_results(ctx, returned_values, returned_arrays)
    }

    /// Resolves each value to a register.
    fn resolve_registers(&mut self, ctx: &SsaContext, values: &Vec<NodeId>) -> (r: Result<
        (),
        CompileError,
    >)
        ensures
            steps(resolve_registers(ctx, old(self).state(), values@, 0), r, final(self).state()),
            final(self).table() == old(self).table(),
    {
        let mut k: usize = 0;
        while k < values.len()
            invariant
                k <= values@.len(),
                resolve_registers(ctx, self.state(), values@, k as int) == resolve_registers(
                    ctx,
                    old(self).state(),
                    values@,
                    0,
                ),
                self.table() == old(self).table(),
            decreases values@.len() - k,
        {
            let _ = self.node_2_result_register(ctx, values[k])?;
            k += 1;
        }
        Ok(())
    }

    /// What a call-out to `funct` hands to the host and where it takes the
    /// results back.
    pub fn get_oracle_abi(
        &mut self,
        ctx: &SsaContext,
        funct: &SsaFunction,
        arguments: &Vec<NodeId>,
        returned_values: &Vec<NodeId>,
    ) -> (r: Result<(Vec<OracleInput>, Vec<OracleOutput>), CompileError>)
        ensures
            match r {
                Ok((inputs, outputs)) => oracle_abi(
                    ctx,
                    old(self).state(),
                    *funct,
                    arguments@,
                    returned_values@,
                ) == Ok::<(LowerState, (Seq<OracleInput>, Seq<OracleOutput>)), CompileError>(
                    (final(self).state(), (inputs@, outputs@)),
                ),
                Err(e) => oracle_abi(
                    ctx,
                    old(self).state(),
                    *funct,
                    arguments@,
                    returned_values@,
                ) == Err::<(LowerState, (Seq<OracleInput>, Seq<OracleOutput>)), CompileError>(e),
            },
            final(self).table() == old(self).table(),
    {
        let mut inputs: Vec<OracleInput> = Vec::new();
        let mut k: usize = 0;
        while k < funct.arguments.len() && k < arguments.len()
            invariant
                k <= funct.arguments@.len(),
                oracle_inputs(ctx, self.state(), funct.arguments@, arguments@, k as int, inputs@)
                    == oracle_inputs(
                    ctx,
                    old(self).state(),
                    funct.arguments@,
                    arguments@,
                    0,
                    Seq::empty(),
                ),
                self.table() == old(self).table(),
            decreases funct.arguments@.len() - k,
        {
            let input = match ctx.deref(arguments[k]) {
                Some(array) => match ctx.array_len(array) {
                    None => {
                        return Err(CompileError::Internal(Violation::UnknownArray));
                    },
                    Some(len) => OracleInput::Array {
                        start: array_address_of(array),
                        length: len as usize,
                    },
                },
                None => OracleInput::RegisterMemIndex(self.node_2_register(ctx, arguments[k])?),
            };
            inputs.push(input);
            k += 1;
        }
        let ghost middle = self.state();
        let mut outputs: Vec<OracleOutput> = Vec::new();
        let mut k: usize = 0;
        while k < funct.result_types.len() && k < returned_values.len()
            invariant
                k <= funct.result_types@.len(),
                oracle_inputs(
                    ctx,
                    old(self).state(),
                    funct.arguments@,
                    arguments@,
                    0,
                    Seq::empty(),
                ) == Ok::<(LowerState, Seq<OracleInput>), CompileError>((middle, inputs@)),
                oracle_outputs(
                    ctx,
                    self.state(),
                    funct.result_types@,
                    returned_values@,
                    k as int,
                    outputs@,
                ) == oracle_outputs(
                    ctx,
                    middle,
                    funct.result_types@,
                    returned_values@,
                    0,
                    Seq::empty(),
                ),
                self.table() == old(self).table(),
            decreases funct.result_types@.len() - k,
        {
            let output = match funct.result_types[k] {
                ObjectType::ArrayPointer(array) => match ctx.array_len(array) {
                    None => {
                        return Err(CompileError::Internal(Violation::UnknownArray));
                    },
                    Some(len) => OracleOutput::Array {
                        start: array_address_of(array),
                        length: len as usize,
                    },
                },
                _ => OracleOutput::RegisterIndex(
                    self.node_2_result_register(ctx, returned_values[k])?,
                ),
            };
            outputs.push(output);
            k += 1;
        }
        Ok((inputs, outputs))
    }

    /// Emits a call-out to a function that the host provides.
    fn oracle_call(
        &mut self,
        ctx: &SsaContext,
        callee: &SsaFunction,
        name: &String,
        arguments: &Vec<NodeId>,
        returned_values: &Vec<NodeId>,
    ) -> (r: Result<(), CompileError>)
        ensures
            steps(
                oracle_call(
                    ctx,
                    old(self).state(),
                    *callee,
                    name@,
                    arguments@,
                    returned_values@,
                ),
                r,
                final(self).state(),
            ),
            final(self).table() == old(self).table(),
    {
        self.resolve_registers(ctx, returned_values)?;
        let (inputs, outputs) = self.get_oracle_abi(ctx, callee, arguments, returned_values)?;
        self.push_code(
            Opcode::Oracle(
                OracleData {
                    name: name.clone(),
                    inputs,
                    input_values: Vec::new(),
                    outputs,
                    output_values: Vec::new(),
                },
            ),
        );
        Ok(())
    }

    /// Emits a call of `func`.
    pub fn unsafe_call(
        &mut self,
        ctx: &SsaContext,
        func: NodeId,
        arguments: &Vec<NodeId>,
        returned_values: &Vec<NodeId>,
        returned_arrays: &Vec<(ArrayId, u32)>,
    ) -> (r: Result<(), CompileError>)
        ensures
            steps(
                spec_unsafe_call(
                    ctx,
                    old(self).state(),
                    func,
                    arguments@,
                    returned_values@,
                    returned_arrays@,
                ),
                r,
                final(self).state(),
            ),
            final(self).table() == old(self).table(),
    {
        match ctx.try_get_func_id(func) {
            None => Ok(()),
            Some(index) => match ctx.ssa_func(index) {
                None => Err(CompileError::Internal(Violation::UnknownFunction)),
                Some(callee) => match &callee.kind {
                    RuntimeType::Oracle(name) => self.oracle_call(
                        ctx,
                        callee,
                        name,
                        arguments,
                        returned_values,
                    ),
                    _ => self.inline_call(
                        ctx,
                        func,
                        callee,
                        arguments,
                        returned_values,
                        returned_arrays,
                    ),
                },
            },
        }
    }

    /// Emits the buffered call once all its results are collected.
    pub fn try_process_call(&mut self, ctx: &SsaContext) -> (r: Result<(), CompileError>)
        ensures
            steps(spec_try_process_call(ctx, old(self).state()), r, final(self).state()),
            final(self).table() == old(self).table(),
    {
        if self.noir_call.len() == 0 {
            return Ok(());
        }
        let call_id = self.noir_call[0];
        match ctx.try_get_instruction(call_id) {
            Some(call) => match &call.operation {
                Operation::Call { func, arguments, returned_arrays } => {
                    match ctx.try_get_func_id(*func) {
                        None => Ok(()),
                        Some(index) => match ctx.ssa_func(index) {
                            None => Err(CompileError::Internal(Violation::UnknownFunction)),
                            Some(callee) => {
                                let collected = self.noir_call.len() as u128
                                    + returned_arrays.len() as u128;
                                if collected == callee.result_types.len() as u128 + 1 {
                                    let returned_values = tail_of(&self.noir_call);
                                    self.unsafe_call(
                                        ctx,
                                        *func,
                                        arguments,
                                        &returned_values,
                                        returned_arrays,
                                    )?;
                                    self.noir_call.clear();
                                }
                                Ok(())
                            },
                        },
                    }
                },
                _ => Ok(()),
            },
            None => Ok(()),
        }
    }
}

} // verus!
