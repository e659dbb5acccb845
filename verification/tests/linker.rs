use brillig_gen::artefact::{directive_invert, BrilligArtefact, PREFIX_LEN};
use brillig_gen::errors::{CompileError, Violation};
use brillig_gen::field::FieldValue;
use brillig_gen::opcode;
use brillig_gen::opcode::{Opcode, RegisterIndex, RegisterMemIndex, Typ};
use brillig_gen::ssa::{
    BasicBlock, BlockId, BlockType, FunctionKind, Instruction, NodeId, NodeObject, NumericType,
    ObjectType, Operation, RuntimeType, SsaContext, SsaFunction,
};
use brillig_gen::state::BrilligGen;
use std::collections::HashMap;

const FIELD: ObjectType = ObjectType::Numeric(NumericType::NativeField);
const NOTHING: ObjectType = ObjectType::NotAnObject;

fn r(index: usize) -> RegisterMemIndex {
    RegisterMemIndex::Register(RegisterIndex(index))
}

fn c(value: u128) -> RegisterMemIndex {
    RegisterMemIndex::Constant(FieldValue { high: 0, low: value })
}

fn prologue() -> Vec<Opcode> {
    vec![Opcode::Jump { destination: 3 }, Opcode::Trap, Opcode::Stop]
}

fn empty_context() -> SsaContext {
    SsaContext { nodes: Vec::new(), blocks: Vec::new(), mem: Vec::new(), functions: Vec::new() }
}

fn artefact(code: Vec<Opcode>, to_fix: Vec<(usize, BlockId)>, blocks: Vec<(usize, usize)>) -> BrilligArtefact {
    let mut table = HashMap::new();
    for (block, start) in blocks {
        table.insert(block, start);
    }
    BrilligArtefact { functions_to_process: Vec::new(), byte_code: code, to_fix, blocks: table }
}

#[test]
fn first_object_follows_the_prologue() {
    let obj = artefact(vec![Opcode::CallBack], vec![], vec![(0, 0)]);
    let mut linked = BrilligArtefact::default();
    assert_eq!(linked.link_with(&obj), Ok(()));
    let mut expected = prologue();
    expected.push(Opcode::CallBack);
    assert_eq!(linked.byte_code, expected);
    assert_eq!(linked.blocks.get(&0), Some(&PREFIX_LEN));
    assert_eq!(PREFIX_LEN, 3);
}

#[test]
fn later_objects_follow_the_code() {
    let first = artefact(vec![Opcode::Jump { destination: 0 }], vec![(0, BlockId(7))], vec![(0, 0)]);
    let second = artefact(
        vec![Opcode::Trap, Opcode::Jump { destination: 0 }],
        vec![(1, BlockId(0))],
        vec![(7, 0), (8, 1)],
    );
    let mut linked = BrilligArtefact::new();
    assert_eq!(linked.link_with(&first), Ok(()));
    assert_eq!(linked.link_with(&second), Ok(()));
    assert_eq!(linked.byte_code.len(), 3 + 1 + 2);
    assert_eq!(linked.to_fix, vec![(3, BlockId(7)), (5, BlockId(0))]);
    assert_eq!(linked.blocks.get(&0), Some(&3));
    assert_eq!(linked.blocks.get(&7), Some(&4));
    assert_eq!(linked.blocks.get(&8), Some(&5));
    assert_eq!(linked.fix_jumps(), Ok(()));
    assert_eq!(linked.byte_code[3], Opcode::Jump { destination: 4 });
    assert_eq!(linked.byte_code[5], Opcode::Jump { destination: 3 });
}

#[test]
fn empty_object_cannot_be_linked() {
    let mut linked = BrilligArtefact::new();
    assert_eq!(
        linked.link_with(&BrilligArtefact::new()),
        Err(CompileError::Internal(Violation::EmptyArtefact))
    );
    let ctx = empty_context();
    assert_eq!(
        BrilligArtefact::new().link(&ctx, &BrilligArtefact::new()),
        Err(CompileError::Internal(Violation::EmptyArtefact))
    );
}

#[test]
fn offsets_must_fit() {
    let obj = artefact(vec![Opcode::CallBack], vec![(usize::MAX, BlockId(0))], vec![]);
    assert_eq!(
        BrilligArtefact::new().link_with(&obj),
        Err(CompileError::Internal(Violation::OffsetOverflow))
    );
    let obj = artefact(vec![Opcode::CallBack], vec![], vec![(0, usize::MAX - 1)]);
    assert_eq!(
        BrilligArtefact::new().link_with(&obj),
        Err(CompileError::Internal(Violation::OffsetOverflow))
    );
}

#[test]
fn each_kind_of_placeholder_is_resolved() {
    let mut obj = artefact(
        vec![
            Opcode::JumpIf { condition: r(1), destination: 0 },
            Opcode::JumpIfNot { condition: r(2), destination: 0 },
            Opcode::PushStack { source: c(0) },
            Opcode::Jump { destination: 0 },
            Opcode::CallBack,
        ],
        vec![(0, BlockId(1)), (1, BlockId(2)), (2, BlockId::dummy()), (3, BlockId(1))],
        vec![(1, 4), (2, 3)],
    );
    assert_eq!(obj.fix_jumps(), Ok(()));
    assert_eq!(
        obj.byte_code,
        vec![
            Opcode::JumpIf { condition: r(1), destination: 4 },
            Opcode::JumpIfNot { condition: r(2), destination: 3 },
            Opcode::PushStack { source: c(4) },
            Opcode::Jump { destination: 4 },
            Opcode::CallBack,
        ]
    );
}

#[test]
fn unresolved_block_is_reported() {
    let mut obj = artefact(vec![Opcode::Jump { destination: 0 }], vec![(0, BlockId(1))], vec![]);
    assert_eq!(obj.fix_jumps(), Err(CompileError::Internal(Violation::UnresolvedSymbol)));
}

#[test]
fn placeholder_must_still_be_in_place() {
    let mut obj =
        artefact(vec![Opcode::Jump { destination: 9 }], vec![(0, BlockId(1))], vec![(1, 0)]);
    assert_eq!(obj.fix_jumps(), Err(CompileError::Internal(Violation::PlaceholderMismatch)));
    let mut obj =
        artefact(vec![Opcode::PushStack { source: c(1) }], vec![(0, BlockId::dummy())], vec![]);
    assert_eq!(obj.fix_jumps(), Err(CompileError::Internal(Violation::PlaceholderMismatch)));
    let mut obj =
        artefact(vec![Opcode::PushStack { source: r(0) }], vec![(0, BlockId::dummy())], vec![]);
    assert_eq!(obj.fix_jumps(), Err(CompileError::Internal(Violation::PlaceholderMismatch)));
}

#[test]
fn recorded_position_must_hold_a_placeholder() {
    let mut obj = artefact(vec![Opcode::CallBack], vec![(0, BlockId(1))], vec![(1, 0)]);
    assert_eq!(obj.fix_jumps(), Err(CompileError::Internal(Violation::NotAFixup)));
    let mut obj = artefact(vec![Opcode::CallBack], vec![(1, BlockId(1))], vec![(1, 0)]);
    assert_eq!(obj.fix_jumps(), Err(CompileError::Internal(Violation::FixupOutOfRange)));
}

#[test]
fn object_without_placeholders_is_linked_unchanged() {
    let code = vec![
        Opcode::Mov { destination: r(0), source: r(1) },
        Opcode::Jump { destination: 3 },
        Opcode::CallBack,
    ];
    let obj = artefact(code.clone(), vec![], vec![(0, 0)]);
    let ctx = empty_context();
    let program = BrilligArtefact::new().link(&ctx, &obj).unwrap();
    assert_eq!(program[..3], prologue()[..]);
    assert_eq!(program[3..], code[..]);
    // linking what is linked already, behind other code, leaves it as it is
    let mut linked = artefact(vec![Opcode::Stop], vec![], vec![]);
    let program = linked.link(&ctx, &obj).unwrap();
    assert_eq!(program[0], Opcode::Stop);
    assert_eq!(program[1..], code[..]);
}

/// A program whose main function (block 0) calls function 0 (block 1), which
/// returns its argument.
fn caller_and_callee() -> (SsaContext, BrilligArtefact) {
    let mut ctx = empty_context();
    let param = NodeId(0);
    ctx.nodes.push(NodeObject::Variable(FIELD));
    ctx.nodes.push(NodeObject::Function(FunctionKind::Normal(0)));
    let arg = NodeId(2);
    ctx.nodes.push(NodeObject::Variable(FIELD));
    let call = NodeId(3);
    ctx.nodes.push(NodeObject::Instr(Instruction {
        id: call,
        operation: Operation::Call { func: NodeId(1), arguments: vec![arg], returned_arrays: vec![] },
        res_type: NOTHING,
    }));
    let value = NodeId(4);
    ctx.nodes.push(NodeObject::Instr(Instruction {
        id: value,
        operation: Operation::Result { call_instruction: call, index: 0 },
        res_type: FIELD,
    }));
    let ret_main = NodeId(5);
    ctx.nodes.push(NodeObject::Instr(Instruction {
        id: ret_main,
        operation: Operation::Return(vec![value]),
        res_type: NOTHING,
    }));
    let ret_callee = NodeId(6);
    ctx.nodes.push(NodeObject::Instr(Instruction {
        id: ret_callee,
        operation: Operation::Return(vec![param]),
        res_type: NOTHING,
    }));
    ctx.blocks.push(BasicBlock {
        kind: BlockType::Normal,
        dominator: None,
        left: None,
        right: None,
        instructions: vec![call, value, ret_main],
    });
    ctx.blocks.push(BasicBlock {
        kind: BlockType::Normal,
        dominator: None,
        left: None,
        right: None,
        instructions: vec![ret_callee],
    });
    ctx.functions.push(SsaFunction {
        entry_block: BlockId(1),
        arguments: vec![param],
        result_types: vec![FIELD],
        kind: RuntimeType::Unsafe,
        obj: BrilligArtefact::new(),
    });
    let callee = BrilligGen::compile(&ctx, BlockId(1)).unwrap();
    ctx.functions[0].obj = callee;
    let main = BrilligGen::compile(&ctx, BlockId(0)).unwrap();
    (ctx, main)
}

#[test]
fn call_is_linked_to_its_callee() {
    let (ctx, main) = caller_and_callee();
    assert_eq!(main.functions_to_process, vec![NodeId(1)]);
    let mut linked = BrilligArtefact::default();
    let program = linked.link(&ctx, &main).unwrap();
    assert_eq!(
        program,
        vec![
            Opcode::Jump { destination: 3 },
            Opcode::Trap,
            Opcode::Stop,
            Opcode::Mov { destination: r(0), source: r(2) },
            Opcode::PushStack { source: c(4 + 2) },
            Opcode::Jump { destination: 9 },
            Opcode::Mov { destination: r(4), source: r(0) },
            Opcode::Mov { destination: r(0), source: r(4) },
            Opcode::CallBack,
            Opcode::Mov { destination: r(0), source: r(0) },
            Opcode::CallBack,
        ]
    );
    assert_eq!(program, linked.byte_code);
    // every recorded position is resolved to an address inside the program
    for (position, _) in &linked.to_fix {
        match &program[*position] {
            Opcode::Jump { destination } => assert!(*destination > 0 && *destination < program.len()),
            Opcode::PushStack { source: RegisterMemIndex::Constant(address) } => {
                assert!(address.high == 0 && address.low > 0);
                assert!((address.low as usize) < program.len());
            }
            other => panic!("unexpected {:?}", other),
        }
    }
}

#[test]
fn callee_that_was_never_compiled_is_an_unresolved_symbol() {
    let (mut ctx, main) = caller_and_callee();
    ctx.functions[0].obj = BrilligArtefact::new();
    assert_eq!(
        BrilligArtefact::new().link(&ctx, &main),
        Err(CompileError::Internal(Violation::EmptyArtefact))
    );
    assert_eq!(CompileError::Internal(Violation::EmptyArtefact).message(), "ICE: unresolved symbol");
}

#[test]
fn callee_object_must_hold_its_entry_block() {
    let (mut ctx, main) = caller_and_callee();
    ctx.functions[0].obj = artefact(vec![Opcode::CallBack], vec![], vec![]);
    assert_eq!(
        BrilligArtefact::new().link(&ctx, &main),
        Err(CompileError::Internal(Violation::UnresolvedSymbol))
    );
}

#[test]
fn callee_is_linked_once() {
    let (mut ctx, main) = caller_and_callee();
    // the callee calls itself
    ctx.functions[0].obj.functions_to_process.push(NodeId(1));
    let program = BrilligArtefact::new().link(&ctx, &main).unwrap();
    assert_eq!(program.len(), 3 + 6 + 2);
}

#[test]
fn linking_again_meets_resolved_placeholders() {
    let (ctx, main) = caller_and_callee();
    let mut linked = BrilligArtefact::new();
    assert!(linked.link(&ctx, &main).is_ok());
    assert_eq!(
        linked.link(&ctx, &main),
        Err(CompileError::Internal(Violation::PlaceholderMismatch))
    );
}

#[test]
fn inversion_directive() {
    assert_eq!(
        directive_invert(),
        vec![
            Opcode::JumpIfNot { condition: r(0), destination: 2 },
            Opcode::BinaryOp {
                result_type: Typ::Field,
                op: opcode::BinaryOp::Div,
                lhs: c(1),
                rhs: r(0),
                result: RegisterIndex(0),
            },
        ]
    );
}
