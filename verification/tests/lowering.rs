use brillig_gen::artefact::BrilligArtefact;
use brillig_gen::errors::{CompileError, Construct, Violation};
use brillig_gen::field::FieldValue;
use brillig_gen::opcode;
use brillig_gen::opcode::{Comparison, Opcode, RegisterIndex, RegisterMemIndex, Typ};
use brillig_gen::ssa::{
    ArrayId, BasicBlock, Binary, BinaryOp, BlockId, BlockType, Constant, FunctionKind,
    Instruction, MemArray, NodeId, NodeObject, NumericType, ObjectType, Operation, RuntimeType,
    SsaContext, SsaFunction,
};
use brillig_gen::state::BrilligGen;

const FIELD: ObjectType = ObjectType::Numeric(NumericType::NativeField);
const U8: ObjectType = ObjectType::Numeric(NumericType::Unsigned(8));
const U32: ObjectType = ObjectType::Numeric(NumericType::Unsigned(32));
const I32: ObjectType = ObjectType::Numeric(NumericType::Signed(32));

fn reg(index: usize) -> RegisterMemIndex {
    RegisterMemIndex::Register(RegisterIndex(index))
}

fn constant(value: u128) -> RegisterMemIndex {
    RegisterMemIndex::Constant(FieldValue { high: 0, low: value })
}

fn empty_context() -> SsaContext {
    SsaContext { nodes: Vec::new(), blocks: Vec::new(), mem: Vec::new(), functions: Vec::new() }
}

fn variable(ctx: &mut SsaContext, typ: ObjectType) -> NodeId {
    ctx.nodes.push(NodeObject::Variable(typ));
    NodeId(ctx.nodes.len() - 1)
}

fn number(ctx: &mut SsaContext, bytes: Vec<u8>) -> NodeId {
    ctx.nodes.push(NodeObject::Const(Constant { value: bytes, value_type: FIELD }));
    NodeId(ctx.nodes.len() - 1)
}

fn instruction(ctx: &mut SsaContext, operation: Operation, res_type: ObjectType) -> NodeId {
    let id = NodeId(ctx.nodes.len());
    ctx.nodes.push(NodeObject::Instr(Instruction { id, operation, res_type }));
    id
}

fn binary(ctx: &mut SsaContext, operator: BinaryOp, lhs: NodeId, rhs: NodeId, typ: ObjectType) -> NodeId {
    instruction(ctx, Operation::Binary(Binary { lhs, rhs, operator }), typ)
}

fn get(ctx: &SsaContext, id: NodeId) -> Instruction {
    match &ctx.nodes[id.0] {
        NodeObject::Instr(ins) => ins.clone(),
        _ => panic!("not an instruction"),
    }
}

fn lower(ctx: &SsaContext, id: NodeId) -> (BrilligGen, Result<(), CompileError>) {
    let mut gen = BrilligGen::new();
    let r = gen.instruction_to_bc(ctx, &get(ctx, id));
    (gen, r)
}

fn bin(result_type: Typ, op: opcode::BinaryOp, lhs: RegisterMemIndex, rhs: RegisterMemIndex, result: usize) -> Opcode {
    Opcode::BinaryOp { result_type, op, lhs, rhs, result: RegisterIndex(result) }
}

#[test]
fn addition_is_one_opcode() {
    let mut ctx = empty_context();
    let a = variable(&mut ctx, FIELD);
    let b = variable(&mut ctx, FIELD);
    let sum = binary(&mut ctx, BinaryOp::Add, a, b, FIELD);
    let (gen, r) = lower(&ctx, sum);
    assert_eq!(r, Ok(()));
    assert_eq!(gen.obj.byte_code, vec![bin(Typ::Field, opcode::BinaryOp::Add, reg(0), reg(1), 2)]);
    assert_eq!(gen.max_register, 2);
    assert!(gen.obj.to_fix.is_empty());
}

#[test]
fn subtraction_multiplication_and_division_keep_the_type() {
    let mut ctx = empty_context();
    let a = variable(&mut ctx, U32);
    let b = variable(&mut ctx, U32);
    let typ = Typ::Unsigned { bit_size: 32 };
    for (operator, op) in [
        (BinaryOp::Sub, opcode::BinaryOp::Sub),
        (BinaryOp::Mul, opcode::BinaryOp::Mul),
        (BinaryOp::Udiv, opcode::BinaryOp::Div),
        (BinaryOp::Sdiv, opcode::BinaryOp::Div),
        (BinaryOp::Div, opcode::BinaryOp::Div),
        (BinaryOp::Ult, opcode::BinaryOp::Cmp(Comparison::Lt)),
        (BinaryOp::Slt, opcode::BinaryOp::Cmp(Comparison::Lt)),
        (BinaryOp::Lt, opcode::BinaryOp::Cmp(Comparison::Lt)),
        (BinaryOp::Ule, opcode::BinaryOp::Cmp(Comparison::Lte)),
        (BinaryOp::Sle, opcode::BinaryOp::Cmp(Comparison::Lte)),
        (BinaryOp::Lte, opcode::BinaryOp::Cmp(Comparison::Lte)),
    ] {
        let id = binary(&mut ctx, operator, a, b, U32);
        let (gen, r) = lower(&ctx, id);
        assert_eq!(r, Ok(()));
        assert_eq!(gen.obj.byte_code, vec![bin(typ, op, reg(0), reg(1), id.0)]);
    }
}

#[test]
fn signed_type_is_kept_in_the_opcode() {
    let mut ctx = empty_context();
    let a = variable(&mut ctx, I32);
    let b = variable(&mut ctx, I32);
    let id = binary(&mut ctx, BinaryOp::Add, a, b, I32);
    let (gen, r) = lower(&ctx, id);
    assert_eq!(r, Ok(()));
    assert_eq!(
        gen.obj.byte_code,
        vec![bin(Typ::Signed { bit_size: 32 }, opcode::BinaryOp::Add, reg(0), reg(1), 2)]
    );
}

#[test]
fn unsigned_remainder_is_divide_multiply_subtract() {
    let mut ctx = empty_context();
    let a = variable(&mut ctx, U32);
    let b = variable(&mut ctx, U32);
    let rem = binary(&mut ctx, BinaryOp::Urem, a, b, U32);
    let (gen, r) = lower(&ctx, rem);
    assert_eq!(r, Ok(()));
    let typ = Typ::Unsigned { bit_size: 32 };
    assert_eq!(
        gen.obj.byte_code,
        vec![
            bin(typ, opcode::BinaryOp::Div, reg(0), reg(1), 3),
            bin(typ, opcode::BinaryOp::Mul, reg(3), reg(1), 3),
            bin(typ, opcode::BinaryOp::Sub, reg(0), reg(3), 2),
        ]
    );
    assert_eq!(gen.max_register, 3);
    assert!(3 > a.0 && 3 > b.0 && 3 > rem.0);
}

#[test]
fn remainder_temporary_lies_above_earlier_registers() {
    let mut ctx = empty_context();
    let a = variable(&mut ctx, U32);
    let b = variable(&mut ctx, U32);
    let rem = binary(&mut ctx, BinaryOp::Urem, a, b, U32);
    let mut gen = BrilligGen::new();
    gen.max_register = 40;
    assert_eq!(gen.instruction_to_bc(&ctx, &get(&ctx, rem)), Ok(()));
    assert_eq!(gen.max_register, 41);
    assert_eq!(
        gen.obj.byte_code[0],
        bin(Typ::Unsigned { bit_size: 32 }, opcode::BinaryOp::Div, reg(0), reg(1), 41)
    );
}

#[test]
fn remainder_fails_when_registers_are_exhausted() {
    let mut ctx = empty_context();
    let a = variable(&mut ctx, U32);
    let b = variable(&mut ctx, U32);
    let rem = binary(&mut ctx, BinaryOp::Urem, a, b, U32);
    let mut gen = BrilligGen::new();
    gen.max_register = usize::MAX;
    assert_eq!(
        gen.instruction_to_bc(&ctx, &get(&ctx, rem)),
        Err(CompileError::Internal(Violation::RegisterOverflow))
    );
}

#[test]
fn equality_is_a_one_bit_comparison() {
    let mut ctx = empty_context();
    let a = variable(&mut ctx, U32);
    let b = variable(&mut ctx, U32);
    let eq = binary(&mut ctx, BinaryOp::Eq, a, b, U32);
    let (gen, r) = lower(&ctx, eq);
    assert_eq!(r, Ok(()));
    assert_eq!(
        gen.obj.byte_code,
        vec![bin(
            Typ::Unsigned { bit_size: 1 },
            opcode::BinaryOp::Cmp(Comparison::Eq),
            reg(0),
            reg(1),
            2
        )]
    );
}

#[test]
fn inequality_complements_the_comparison() {
    let mut ctx = empty_context();
    let a = variable(&mut ctx, U32);
    let b = variable(&mut ctx, U32);
    let ne = binary(&mut ctx, BinaryOp::Ne, a, b, U32);
    let (gen, r) = lower(&ctx, ne);
    assert_eq!(r, Ok(()));
    let boolean = Typ::Unsigned { bit_size: 1 };
    assert_eq!(
        gen.obj.byte_code,
        vec![
            bin(boolean, opcode::BinaryOp::Cmp(Comparison::Eq), reg(0), reg(1), 2),
            bin(boolean, opcode::BinaryOp::Sub, constant(1), reg(2), 2),
        ]
    );
}

#[test]
fn bitwise_and_is_unsupported() {
    let mut ctx = empty_context();
    let a = variable(&mut ctx, U32);
    let b = variable(&mut ctx, U32);
    let and = binary(&mut ctx, BinaryOp::And, a, b, U32);
    let (gen, r) = lower(&ctx, and);
    assert_eq!(r, Err(CompileError::Unsupported(Construct::Bitwise)));
    assert!(r.unwrap_err().is_unsupported());
    assert!(gen.obj.byte_code.is_empty());
}

#[test]
fn unsupported_binary_operators_name_their_class() {
    let mut ctx = empty_context();
    let a = variable(&mut ctx, U32);
    let b = variable(&mut ctx, U32);
    for (operator, class) in [
        (BinaryOp::Or, Construct::Bitwise),
        (BinaryOp::Xor, Construct::Bitwise),
        (BinaryOp::Shl, Construct::Shift),
        (BinaryOp::Shr, Construct::Shift),
        (BinaryOp::SafeAdd, Construct::CheckedArithmetic),
        (BinaryOp::SafeSub, Construct::CheckedArithmetic),
        (BinaryOp::SafeMul, Construct::CheckedArithmetic),
        (BinaryOp::Srem, Construct::SignedRemainder),
        (BinaryOp::Assign, Construct::Assign),
    ] {
        let id = binary(&mut ctx, operator, a, b, U32);
        let (_, r) = lower(&ctx, id);
        assert_eq!(r, Err(CompileError::Unsupported(class)));
    }
}

#[test]
fn signed_cast_is_unsupported() {
    let mut ctx = empty_context();
    let a = variable(&mut ctx, U32);
    let cast = instruction(&mut ctx, Operation::Cast(a), I32);
    let (_, r) = lower(&ctx, cast);
    assert_eq!(r, Err(CompileError::Unsupported(Construct::SignedCast)));
    let s = variable(&mut ctx, I32);
    for to in [U32, FIELD, I32] {
        let cast = instruction(&mut ctx, Operation::Cast(s), to);
        let (_, r) = lower(&ctx, cast);
        assert_eq!(r, Err(CompileError::Unsupported(Construct::SignedCast)));
    }
    let f = variable(&mut ctx, FIELD);
    let cast = instruction(&mut ctx, Operation::Cast(f), I32);
    let (_, r) = lower(&ctx, cast);
    assert_eq!(r, Err(CompileError::Unsupported(Construct::SignedCast)));
}

#[test]
fn cast_between_other_types_is_unsupported() {
    let mut ctx = empty_context();
    let f = variable(&mut ctx, FIELD);
    let cast = instruction(&mut ctx, Operation::Cast(f), FIELD);
    let (_, r) = lower(&ctx, cast);
    assert_eq!(r, Err(CompileError::Unsupported(Construct::Cast)));
}

#[test]
fn unsigned_cast_that_does_not_widen_is_a_move() {
    let mut ctx = empty_context();
    let a = variable(&mut ctx, U32);
    let narrow = instruction(&mut ctx, Operation::Cast(a), U8);
    let (gen, r) = lower(&ctx, narrow);
    assert_eq!(r, Ok(()));
    assert_eq!(gen.obj.byte_code, vec![Opcode::Mov { destination: reg(1), source: reg(0) }]);
    let same = instruction(&mut ctx, Operation::Cast(a), U32);
    let (gen, r) = lower(&ctx, same);
    assert_eq!(r, Ok(()));
    assert_eq!(gen.obj.byte_code, vec![Opcode::Mov { destination: reg(2), source: reg(0) }]);
}

#[test]
fn unsigned_cast_that_widens_adds_zero_at_the_target_width() {
    let mut ctx = empty_context();
    let a = variable(&mut ctx, U8);
    let wide = instruction(&mut ctx, Operation::Cast(a), U32);
    let (gen, r) = lower(&ctx, wide);
    assert_eq!(r, Ok(()));
    assert_eq!(
        gen.obj.byte_code,
        vec![bin(Typ::Unsigned { bit_size: 32 }, opcode::BinaryOp::Add, reg(0), constant(0), 1)]
    );
}

#[test]
fn casts_between_unsigned_and_field() {
    let mut ctx = empty_context();
    let a = variable(&mut ctx, U8);
    let to_field = instruction(&mut ctx, Operation::Cast(a), FIELD);
    let (gen, r) = lower(&ctx, to_field);
    assert_eq!(r, Ok(()));
    assert_eq!(gen.obj.byte_code, vec![Opcode::Mov { destination: reg(1), source: reg(0) }]);
    let f = variable(&mut ctx, FIELD);
    let to_u8 = instruction(&mut ctx, Operation::Cast(f), U8);
    let (gen, r) = lower(&ctx, to_u8);
    assert_eq!(r, Ok(()));
    assert_eq!(
        gen.obj.byte_code,
        vec![bin(Typ::Unsigned { bit_size: 8 }, opcode::BinaryOp::Add, reg(2), constant(0), 3)]
    );
}

#[test]
fn constants_are_embedded() {
    let mut ctx = empty_context();
    let a = variable(&mut ctx, FIELD);
    let five = number(&mut ctx, vec![5]);
    let sum = binary(&mut ctx, BinaryOp::Add, a, five, FIELD);
    let (gen, r) = lower(&ctx, sum);
    assert_eq!(r, Ok(()));
    assert_eq!(
        gen.obj.byte_code,
        vec![bin(Typ::Field, opcode::BinaryOp::Add, reg(0), constant(5), 2)]
    );
}

#[test]
fn constants_are_read_big_endian() {
    let mut ctx = empty_context();
    let mut bytes = vec![0u8; 17];
    bytes[0] = 1;
    bytes[16] = 2;
    let c = number(&mut ctx, bytes);
    let mut gen = BrilligGen::new();
    assert_eq!(
        gen.node_2_register(&ctx, c),
        Ok(RegisterMemIndex::Constant(FieldValue { high: 1, low: 2 }))
    );
    assert!(gen.obj.byte_code.is_empty());
    assert_eq!(gen.max_register, 0);
}

#[test]
fn constants_are_reduced_modulo_the_field() {
    // the order of the field, plus five
    let bytes: Vec<u8> = vec![
        0x30, 0x64, 0x4e, 0x72, 0xe1, 0x31, 0xa0, 0x29, 0xb8, 0x50, 0x45, 0xb6, 0x81, 0x81, 0x58,
        0x5d, 0x28, 0x33, 0xe8, 0x48, 0x79, 0xb9, 0x70, 0x91, 0x43, 0xe1, 0xf5, 0x93, 0xf0, 0x00,
        0x00, 0x06,
    ];
    let mut ctx = empty_context();
    let c = number(&mut ctx, bytes);
    let mut gen = BrilligGen::new();
    assert_eq!(gen.node_2_register(&ctx, c), Ok(constant(5)));
}

#[test]
fn largest_field_element_is_kept() {
    // the order of the field, less one
    let bytes: Vec<u8> = vec![
        0x30, 0x64, 0x4e, 0x72, 0xe1, 0x31, 0xa0, 0x29, 0xb8, 0x50, 0x45, 0xb6, 0x81, 0x81, 0x58,
        0x5d, 0x28, 0x33, 0xe8, 0x48, 0x79, 0xb9, 0x70, 0x91, 0x43, 0xe1, 0xf5, 0x93, 0xf0, 0x00,
        0x00, 0x00,
    ];
    let mut ctx = empty_context();
    let c = number(&mut ctx, bytes);
    let mut gen = BrilligGen::new();
    assert_eq!(
        gen.node_2_register(&ctx, c),
        Ok(RegisterMemIndex::Constant(FieldValue {
            high: 0x30644e72e131a029b85045b68181585d,
            low: 0x2833e84879b9709143e1f593f0000000,
        }))
    );
}

#[test]
fn array_variable_loads_its_address() {
    let mut ctx = empty_context();
    ctx.mem.push(MemArray { len: 3 });
    let _ = variable(&mut ctx, FIELD);
    let a = variable(&mut ctx, ObjectType::ArrayPointer(ArrayId(7)));
    let mut gen = BrilligGen::new();
    assert_eq!(gen.node_2_register(&ctx, a), Ok(reg(1)));
    assert_eq!(gen.obj.byte_code, vec![Opcode::Mov { destination: reg(1), source: constant(7) }]);
    assert_eq!(gen.max_register, 1);
}

#[test]
fn resolver_rejects_functions_and_unknown_nodes() {
    let mut ctx = empty_context();
    ctx.nodes.push(NodeObject::Function(FunctionKind::Builtin));
    let mut gen = BrilligGen::new();
    assert_eq!(
        gen.node_2_register(&ctx, NodeId(0)),
        Err(CompileError::Unsupported(Construct::FunctionValue))
    );
    assert_eq!(
        gen.node_2_register(&ctx, NodeId(9)),
        Err(CompileError::Internal(Violation::UnknownNode))
    );
    assert_eq!(
        gen.node_2_register(&ctx, NodeId::dummy()),
        Err(CompileError::Internal(Violation::UnknownNode))
    );
}

#[test]
fn register_file_never_shrinks() {
    let mut ctx = empty_context();
    let a = variable(&mut ctx, FIELD);
    let b = variable(&mut ctx, FIELD);
    let mut gen = BrilligGen::new();
    assert_eq!(gen.node_2_register(&ctx, b), Ok(reg(1)));
    assert_eq!(gen.max_register, 1);
    assert_eq!(gen.node_2_register(&ctx, a), Ok(reg(0)));
    assert_eq!(gen.max_register, 1);
    assert_eq!(gen.get_tmp_register(), Ok(RegisterIndex(2)));
    assert_eq!(gen.get_tmp_register(), Ok(RegisterIndex(3)));
    assert_eq!(gen.max_register, 3);
}

#[test]
fn binary_needs_a_numeric_type_and_a_register() {
    let mut ctx = empty_context();
    let a = variable(&mut ctx, FIELD);
    let b = variable(&mut ctx, FIELD);
    let id = binary(&mut ctx, BinaryOp::Add, a, b, ObjectType::NotAnObject);
    let (_, r) = lower(&ctx, id);
    assert_eq!(r, Err(CompileError::Unsupported(Construct::NonNumericType)));
    let c = number(&mut ctx, vec![1]);
    let mut gen = BrilligGen::new();
    let r = gen.binary(&ctx, &Binary { lhs: a, rhs: b, operator: BinaryOp::Add }, c, FIELD);
    assert_eq!(r, Err(CompileError::Internal(Violation::ConstantDestination)));
}

#[test]
fn constrain_jumps_to_the_trap() {
    let mut ctx = empty_context();
    let a = variable(&mut ctx, U32);
    let c = instruction(&mut ctx, Operation::Constrain(a), ObjectType::NotAnObject);
    let (gen, r) = lower(&ctx, c);
    assert_eq!(r, Ok(()));
    assert_eq!(gen.obj.byte_code, vec![Opcode::JumpIfNot { condition: reg(0), destination: 1 }]);
    assert!(gen.obj.to_fix.is_empty());
}

#[test]
fn jumps_in_the_middle_of_a_block_are_unsupported() {
    let mut ctx = empty_context();
    let a = variable(&mut ctx, U32);
    for operation in [
        Operation::Jmp(BlockId(0)),
        Operation::Jeq(a, BlockId(0)),
        Operation::Jne(a, BlockId(0)),
    ] {
        let id = instruction(&mut ctx, operation, ObjectType::NotAnObject);
        let (_, r) = lower(&ctx, id);
        assert_eq!(r, Err(CompileError::Unsupported(Construct::MisplacedJump)));
    }
}

#[test]
fn operations_of_other_targets_are_rejected() {
    let mut ctx = empty_context();
    let a = variable(&mut ctx, U32);
    let not = instruction(&mut ctx, Operation::Not(a), U32);
    assert_eq!(lower(&ctx, not).1, Err(CompileError::Unsupported(Construct::Bitwise)));
    let intrinsic = instruction(&mut ctx, Operation::Intrinsic(vec![a]), U32);
    assert_eq!(lower(&ctx, intrinsic).1, Err(CompileError::Unsupported(Construct::Intrinsic)));
    let truncate = instruction(
        &mut ctx,
        Operation::Truncate { value: a, bit_size: 8, max_bit_size: 32 },
        U32,
    );
    assert_eq!(
        lower(&ctx, truncate).1,
        Err(CompileError::Internal(Violation::CircuitOnlyOperation))
    );
    let cond = instruction(
        &mut ctx,
        Operation::Cond { condition: a, val_true: a, val_false: a },
        U32,
    );
    assert_eq!(lower(&ctx, cond).1, Err(CompileError::Internal(Violation::CircuitOnlyOperation)));
}

#[test]
fn phi_and_nop_emit_nothing() {
    let mut ctx = empty_context();
    let a = variable(&mut ctx, U32);
    let phi = instruction(
        &mut ctx,
        Operation::Phi { root: a, block_args: vec![(a, BlockId(0))] },
        U32,
    );
    let (gen, r) = lower(&ctx, phi);
    assert_eq!(r, Ok(()));
    assert!(gen.obj.byte_code.is_empty());
    let nop = instruction(&mut ctx, Operation::Nop, ObjectType::NotAnObject);
    let (gen, r) = lower(&ctx, nop);
    assert_eq!(r, Ok(()));
    assert!(gen.obj.byte_code.is_empty());
}

#[test]
fn load_and_store_address_the_array_by_its_identifier() {
    let mut ctx = empty_context();
    let index = variable(&mut ctx, U32);
    let value = variable(&mut ctx, FIELD);
    let load = instruction(&mut ctx, Operation::Load { array_id: ArrayId(4), index }, FIELD);
    let (gen, r) = lower(&ctx, load);
    assert_eq!(r, Ok(()));
    assert_eq!(
        gen.obj.byte_code,
        vec![Opcode::Load { destination: reg(2), array_id_reg: constant(4), index: reg(0) }]
    );
    let store = instruction(
        &mut ctx,
        Operation::Store { array_id: ArrayId(4), index, value },
        ObjectType::NotAnObject,
    );
    let (gen, r) = lower(&ctx, store);
    assert_eq!(r, Ok(()));
    assert_eq!(
        gen.obj.byte_code,
        vec![Opcode::Store { source: reg(1), array_id_reg: constant(4), index: reg(0) }]
    );
}

#[test]
fn placeholder_store_is_skipped() {
    let mut ctx = empty_context();
    let store = instruction(
        &mut ctx,
        Operation::Store { array_id: ArrayId(4), index: NodeId::dummy(), value: NodeId::dummy() },
        ObjectType::NotAnObject,
    );
    assert!(get(&ctx, store).operation.is_dummy_store());
    let (gen, r) = lower(&ctx, store);
    assert_eq!(r, Ok(()));
    assert!(gen.obj.byte_code.is_empty());
}

#[test]
fn return_uses_the_result_registers() {
    let mut ctx = empty_context();
    let _pad = variable(&mut ctx, FIELD);
    let a = variable(&mut ctx, FIELD);
    let b = variable(&mut ctx, FIELD);
    let none = instruction(&mut ctx, Operation::Return(vec![]), ObjectType::NotAnObject);
    let (gen, r) = lower(&ctx, none);
    assert_eq!(r, Ok(()));
    assert!(gen.obj.byte_code.is_empty());
    let one = instruction(&mut ctx, Operation::Return(vec![a]), ObjectType::NotAnObject);
    let (gen, r) = lower(&ctx, one);
    assert_eq!(r, Ok(()));
    assert_eq!(gen.obj.byte_code, vec![Opcode::Mov { destination: reg(0), source: reg(1) }]);
    let dummy = instruction(
        &mut ctx,
        Operation::Return(vec![NodeId::dummy()]),
        ObjectType::NotAnObject,
    );
    let (gen, r) = lower(&ctx, dummy);
    assert_eq!(r, Ok(()));
    assert!(gen.obj.byte_code.is_empty());
    let two = instruction(&mut ctx, Operation::Return(vec![b, a]), ObjectType::NotAnObject);
    let (gen, r) = lower(&ctx, two);
    assert_eq!(r, Ok(()));
    assert_eq!(
        gen.obj.byte_code,
        vec![
            Opcode::Mov { destination: reg(0), source: reg(2) },
            Opcode::Mov { destination: reg(1), source: reg(1) },
        ]
    );
}

#[test]
fn sum_of_two_parameters_compiles_to_add_and_move() {
    let mut ctx = empty_context();
    let a = variable(&mut ctx, FIELD);
    let b = variable(&mut ctx, FIELD);
    let sum = binary(&mut ctx, BinaryOp::Add, a, b, FIELD);
    let ret = instruction(&mut ctx, Operation::Return(vec![sum]), ObjectType::NotAnObject);
    ctx.blocks.push(BasicBlock {
        kind: BlockType::Normal,
        dominator: None,
        left: None,
        right: None,
        instructions: vec![sum, ret],
    });
    let mut gen = BrilligGen::new();
    assert_eq!(gen.instruction_to_bc(&ctx, &get(&ctx, sum)), Ok(()));
    assert_eq!(gen.instruction_to_bc(&ctx, &get(&ctx, ret)), Ok(()));
    let expected = vec![
        bin(Typ::Field, opcode::BinaryOp::Add, reg(0), reg(1), 2),
        Opcode::Mov { destination: reg(0), source: reg(2) },
    ];
    assert_eq!(gen.obj.byte_code, expected);
    assert!(gen.obj.to_fix.is_empty());

    let obj: BrilligArtefact = BrilligGen::compile(&ctx, BlockId(0)).unwrap();
    assert_eq!(obj.byte_code[..2], expected[..]);
    assert_eq!(obj.byte_code[2], Opcode::CallBack);
    assert_eq!(obj.byte_code.len(), 3);
    assert!(obj.to_fix.is_empty());
    assert!(obj.functions_to_process.is_empty());
    assert_eq!(obj.blocks.get(&0), Some(&0));
}

#[test]
fn unknown_function_definition_is_an_internal_error() {
    let mut ctx = empty_context();
    ctx.nodes.push(NodeObject::Function(FunctionKind::Normal(3)));
    let call = instruction(
        &mut ctx,
        Operation::UnsafeCall { func: NodeId(0), arguments: vec![], returned_values: vec![] },
        ObjectType::NotAnObject,
    );
    assert_eq!(lower(&ctx, call).1, Err(CompileError::Internal(Violation::UnknownFunction)));
}

#[test]
fn call_of_something_that_is_no_function_emits_nothing() {
    let mut ctx = empty_context();
    let a = variable(&mut ctx, FIELD);
    let call = instruction(
        &mut ctx,
        Operation::UnsafeCall { func: a, arguments: vec![], returned_values: vec![] },
        ObjectType::NotAnObject,
    );
    let (gen, r) = lower(&ctx, call);
    assert_eq!(r, Ok(()));
    assert!(gen.obj.byte_code.is_empty());
}

#[test]
fn oracle_function_kind_is_kept_apart() {
    let f = SsaFunction {
        entry_block: BlockId(0),
        arguments: vec![],
        result_types: vec![],
        kind: RuntimeType::Oracle("now".to_string()),
        obj: BrilligArtefact::new(),
    };
    assert_eq!(f.kind, RuntimeType::Oracle("now".to_string()));
    assert!(f.kind != RuntimeType::Unsafe);
}

#[test]
fn error_messages() {
    assert_eq!(
        CompileError::Unsupported(Construct::Bitwise).message(),
        "Operation not supported in unsafe functions"
    );
    assert_eq!(
        CompileError::Internal(Violation::OverlappingCall).message(),
        "Error calling function"
    );
    assert_eq!(
        CompileError::Internal(Violation::UnresolvedSymbol).message(),
        "ICE: unresolved symbol"
    );
    assert_eq!(
        CompileError::Internal(Violation::EmptyArtefact).message(),
        "ICE: unresolved symbol"
    );
    assert_eq!(
        CompileError::Internal(Violation::NotAFixup).message(),
        "ICE: inconsistent program"
    );
    assert!(!CompileError::Internal(Violation::NotAFixup).is_unsupported());
}
