use brillig_gen::artefact::BrilligArtefact;
use brillig_gen::errors::{CompileError, Violation};
use brillig_gen::field::FieldValue;
use brillig_gen::opcode::{
    Opcode, OracleData, OracleInput, OracleOutput, RegisterIndex, RegisterMemIndex,
};
use brillig_gen::ssa::{
    ArrayId, BlockId, Constant, FunctionKind, Instruction, MemArray, NodeId, NodeObject,
    NumericType, ObjectType, Operation, RuntimeType, SsaContext, SsaFunction,
};
use brillig_gen::state::BrilligGen;

const FIELD: ObjectType = ObjectType::Numeric(NumericType::NativeField);
const NOTHING: ObjectType = ObjectType::NotAnObject;

fn r(index: usize) -> RegisterMemIndex {
    RegisterMemIndex::Register(RegisterIndex(index))
}

fn c(value: u128) -> RegisterMemIndex {
    RegisterMemIndex::Constant(FieldValue { high: 0, low: value })
}

fn mov(destination: RegisterMemIndex, source: RegisterMemIndex) -> Opcode {
    Opcode::Mov { destination, source }
}

fn push(ctx: &mut SsaContext, node: NodeObject) -> NodeId {
    ctx.nodes.push(node);
    NodeId(ctx.nodes.len() - 1)
}

fn ins(ctx: &mut SsaContext, operation: Operation, res_type: ObjectType) -> NodeId {
    let id = NodeId(ctx.nodes.len());
    push(ctx, NodeObject::Instr(Instruction { id, operation, res_type }))
}

fn get(ctx: &SsaContext, id: NodeId) -> Instruction {
    match &ctx.nodes[id.0] {
        NodeObject::Instr(ins) => ins.clone(),
        _ => panic!("not an instruction"),
    }
}

/// Nodes 0 and 1 are the parameters of function 0, node 2 is the function,
/// nodes 3 and 4 are the caller's arguments.
fn caller_and_callee(result_types: Vec<ObjectType>, kind: RuntimeType) -> SsaContext {
    let mut ctx = SsaContext {
        nodes: Vec::new(),
        blocks: Vec::new(),
        mem: vec![MemArray { len: 2 }, MemArray { len: 3 }],
        functions: Vec::new(),
    };
    let first_param = push(&mut ctx, NodeObject::Variable(FIELD));
    let second_param = push(&mut ctx, NodeObject::Variable(FIELD));
    push(&mut ctx, NodeObject::Function(FunctionKind::Normal(0)));
    push(&mut ctx, NodeObject::Variable(FIELD));
    push(&mut ctx, NodeObject::Variable(FIELD));
    ctx.functions.push(SsaFunction {
        entry_block: BlockId(5),
        arguments: vec![first_param, second_param],
        result_types,
        kind,
        obj: BrilligArtefact::new(),
    });
    ctx
}

fn call(ctx: &mut SsaContext, returned_arrays: Vec<(ArrayId, u32)>) -> NodeId {
    ins(
        ctx,
        Operation::Call { func: NodeId(2), arguments: vec![NodeId(3), NodeId(4)], returned_arrays },
        NOTHING,
    )
}

fn result(ctx: &mut SsaContext, call_instruction: NodeId, index: u32, typ: ObjectType) -> NodeId {
    ins(ctx, Operation::Result { call_instruction, index }, typ)
}

#[test]
fn call_waits_for_its_results() {
    let mut ctx = caller_and_callee(vec![FIELD, FIELD], RuntimeType::Unsafe);
    let call = call(&mut ctx, vec![]);
    let first = result(&mut ctx, call, 0, FIELD);
    let second = result(&mut ctx, call, 1, FIELD);
    let mut gen = BrilligGen::new();
    assert_eq!(gen.instruction_to_bc(&ctx, &get(&ctx, call)), Ok(()));
    assert!(gen.obj.byte_code.is_empty());
    assert_eq!(gen.noir_call, vec![call]);
    assert_eq!(gen.instruction_to_bc(&ctx, &get(&ctx, first)), Ok(()));
    assert!(gen.obj.byte_code.is_empty());
    assert_eq!(gen.noir_call, vec![call, first]);
    assert_eq!(gen.instruction_to_bc(&ctx, &get(&ctx, second)), Ok(()));
    assert!(gen.noir_call.is_empty());
    assert_eq!(
        gen.obj.byte_code,
        vec![
            mov(r(0), r(3)),
            mov(r(1), r(4)),
            Opcode::PushStack { source: c(0) },
            Opcode::Jump { destination: 0 },
            mov(r(first.0), r(0)),
            mov(r(second.0), r(1)),
        ]
    );
    assert_eq!(gen.obj.to_fix, vec![(2, BlockId::dummy()), (3, BlockId(5))]);
    assert_eq!(gen.obj.functions_to_process, vec![NodeId(2)]);
}

#[test]
fn call_without_results_is_emitted_at_once() {
    let mut ctx = caller_and_callee(vec![], RuntimeType::Acvm);
    let call = call(&mut ctx, vec![]);
    let mut gen = BrilligGen::new();
    assert_eq!(gen.instruction_to_bc(&ctx, &get(&ctx, call)), Ok(()));
    assert!(gen.noir_call.is_empty());
    assert_eq!(gen.obj.byte_code.len(), 4);
    assert_eq!(gen.obj.byte_code[3], Opcode::Jump { destination: 0 });
}

#[test]
fn overlapping_calls_are_rejected() {
    let mut ctx = caller_and_callee(vec![FIELD], RuntimeType::Unsafe);
    let first = call(&mut ctx, vec![]);
    let second = call(&mut ctx, vec![]);
    let mut gen = BrilligGen::new();
    assert_eq!(gen.instruction_to_bc(&ctx, &get(&ctx, first)), Ok(()));
    assert_eq!(
        gen.instruction_to_bc(&ctx, &get(&ctx, second)),
        Err(CompileError::Internal(Violation::OverlappingCall))
    );
}

#[test]
fn result_without_its_call_is_rejected() {
    let mut ctx = caller_and_callee(vec![FIELD, FIELD], RuntimeType::Unsafe);
    let first = call(&mut ctx, vec![]);
    let other = call(&mut ctx, vec![]);
    let stray = result(&mut ctx, other, 0, FIELD);
    let mut gen = BrilligGen::new();
    assert_eq!(
        gen.instruction_to_bc(&ctx, &get(&ctx, stray)),
        Err(CompileError::Internal(Violation::OrphanResult))
    );
    let mut gen = BrilligGen::new();
    assert_eq!(gen.instruction_to_bc(&ctx, &get(&ctx, first)), Ok(()));
    assert_eq!(
        gen.instruction_to_bc(&ctx, &get(&ctx, stray)),
        Err(CompileError::Internal(Violation::OrphanResult))
    );
}

#[test]
fn callee_is_noted_once() {
    let mut ctx = caller_and_callee(vec![], RuntimeType::Unsafe);
    let first = call(&mut ctx, vec![]);
    let second = call(&mut ctx, vec![]);
    let mut gen = BrilligGen::new();
    assert_eq!(gen.instruction_to_bc(&ctx, &get(&ctx, first)), Ok(()));
    assert_eq!(gen.instruction_to_bc(&ctx, &get(&ctx, second)), Ok(()));
    assert_eq!(gen.obj.functions_to_process, vec![NodeId(2)]);
    assert_eq!(gen.obj.to_fix.len(), 4);
    assert_eq!(gen.obj.to_fix[2], (6, BlockId::dummy()));
    assert_eq!(gen.obj.to_fix[3], (7, BlockId(5)));
}

#[test]
fn inlined_call_with_array_result_copies_each_element() {
    let array = ObjectType::ArrayPointer(ArrayId(1));
    let mut ctx = caller_and_callee(vec![array], RuntimeType::Unsafe);
    let call = call(&mut ctx, vec![]);
    let value = result(&mut ctx, call, 0, array);
    let mut gen = BrilligGen::new();
    assert_eq!(gen.instruction_to_bc(&ctx, &get(&ctx, call)), Ok(()));
    assert_eq!(gen.instruction_to_bc(&ctx, &get(&ctx, value)), Ok(()));
    // the arguments and parameters use the registers up to 4
    let mut expected = vec![
        mov(r(0), r(3)),
        mov(r(1), r(4)),
        Opcode::PushStack { source: c(0) },
        Opcode::Jump { destination: 0 },
    ];
    for k in 0..3u128 {
        let tmp = 5 + k as usize;
        expected.push(Opcode::Load { destination: r(tmp), array_id_reg: r(0), index: c(k) });
        expected.push(Opcode::Store { source: r(tmp), array_id_reg: c(1), index: c(k) });
    }
    assert_eq!(gen.obj.byte_code, expected);
    assert_eq!(gen.obj.to_fix, vec![(2, BlockId::dummy()), (3, BlockId(5))]);
    assert_eq!(gen.obj.byte_code.len(), 2 + 1 + 1 + 2 * 3);
}

#[test]
fn returned_arrays_take_their_positions() {
    // three declared results: a value, an array returned in place, a value
    let array = ObjectType::ArrayPointer(ArrayId(0));
    let mut ctx = caller_and_callee(vec![FIELD, array, FIELD], RuntimeType::Unsafe);
    let call = call(&mut ctx, vec![(ArrayId(0), 1)]);
    let first = result(&mut ctx, call, 0, FIELD);
    let second = result(&mut ctx, call, 2, FIELD);
    let mut gen = BrilligGen::new();
    assert_eq!(gen.instruction_to_bc(&ctx, &get(&ctx, call)), Ok(()));
    assert_eq!(gen.instruction_to_bc(&ctx, &get(&ctx, first)), Ok(()));
    assert!(gen.obj.byte_code.is_empty());
    assert_eq!(gen.instruction_to_bc(&ctx, &get(&ctx, second)), Ok(()));
    assert_eq!(gen.obj.byte_code[4..], [mov(r(first.0), r(0)), mov(r(second.0), r(2))]);
}

#[test]
fn unsafe_call_reports_results_that_do_not_fit() {
    let ctx = caller_and_callee(vec![FIELD], RuntimeType::Unsafe);
    let mut gen = BrilligGen::new();
    let r = gen.unsafe_call(
        &ctx,
        NodeId(2),
        &vec![NodeId(3), NodeId(4)],
        &vec![],
        &vec![(ArrayId(0), 4)],
    );
    assert_eq!(r, Err(CompileError::Internal(Violation::ResultMismatch)));
}

#[test]
fn copy_of_unknown_array_is_an_internal_error() {
    let array = ObjectType::ArrayPointer(ArrayId(9));
    let mut ctx = caller_and_callee(vec![array], RuntimeType::Unsafe);
    let call = call(&mut ctx, vec![]);
    let value = result(&mut ctx, call, 0, array);
    let mut gen = BrilligGen::new();
    assert_eq!(gen.instruction_to_bc(&ctx, &get(&ctx, call)), Ok(()));
    assert_eq!(
        gen.instruction_to_bc(&ctx, &get(&ctx, value)),
        Err(CompileError::Internal(Violation::UnknownArray))
    );
}

#[test]
fn oracle_call_is_one_opcode() {
    let mut ctx = caller_and_callee(vec![FIELD], RuntimeType::Oracle("get_number".to_string()));
    let constant =
        push(&mut ctx, NodeObject::Const(Constant { value: vec![9], value_type: FIELD }));
    let call = ins(
        &mut ctx,
        Operation::Call { func: NodeId(2), arguments: vec![NodeId(3), constant], returned_arrays: vec![] },
        NOTHING,
    );
    let value = result(&mut ctx, call, 0, FIELD);
    let mut gen = BrilligGen::new();
    assert_eq!(gen.instruction_to_bc(&ctx, &get(&ctx, call)), Ok(()));
    assert_eq!(gen.instruction_to_bc(&ctx, &get(&ctx, value)), Ok(()));
    assert_eq!(
        gen.obj.byte_code,
        vec![Opcode::Oracle(OracleData {
            name: "get_number".to_string(),
            inputs: vec![OracleInput::RegisterMemIndex(r(3)), OracleInput::RegisterMemIndex(c(9))],
            input_values: vec![],
            outputs: vec![OracleOutput::RegisterIndex(RegisterIndex(value.0))],
            output_values: vec![],
        })]
    );
    assert!(gen.obj.to_fix.is_empty());
    assert!(gen.obj.functions_to_process.is_empty());
    assert!(gen.noir_call.is_empty());
}

#[test]
fn oracle_call_describes_arrays_by_address_and_length() {
    let array = ObjectType::ArrayPointer(ArrayId(1));
    let mut ctx = caller_and_callee(vec![array, FIELD], RuntimeType::Oracle("fill".to_string()));
    ctx.nodes[4] = NodeObject::Variable(ObjectType::ArrayPointer(ArrayId(0)));
    let out0 = push(&mut ctx, NodeObject::Variable(FIELD));
    let out1 = push(&mut ctx, NodeObject::Variable(FIELD));
    let mut gen = BrilligGen::new();
    let f = ctx.functions[0].clone();
    let abi = gen.get_oracle_abi(&ctx, &f, &vec![NodeId(3), NodeId(4)], &vec![out0, out1]);
    assert_eq!(
        abi,
        Ok((
            vec![
                OracleInput::RegisterMemIndex(r(3)),
                OracleInput::Array { start: c(0), length: 2 },
            ],
            vec![
                OracleOutput::Array { start: c(1), length: 3 },
                OracleOutput::RegisterIndex(RegisterIndex(out1.0)),
            ],
        ))
    );
    assert!(gen.obj.byte_code.is_empty());
}

#[test]
fn oracle_output_must_be_a_register() {
    let mut ctx = caller_and_callee(vec![FIELD], RuntimeType::Oracle("get".to_string()));
    let constant =
        push(&mut ctx, NodeObject::Const(Constant { value: vec![9], value_type: FIELD }));
    let mut gen = BrilligGen::new();
    let r = gen.unsafe_call(&ctx, NodeId(2), &vec![NodeId(3), NodeId(4)], &vec![constant], &vec![]);
    assert_eq!(r, Err(CompileError::Internal(Violation::ConstantDestination)));
}
