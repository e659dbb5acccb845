//! What holds of every compilation and of every link.

use crate::arithmetic::{
    binary_opcode,
    lower_binary,
};
use crate::artefact::{
    fix_all,
    link_closure,
    offsets_fit,
    prologue,
    spec_link,
    spec_link_with,
    ArtefactView,
};
use crate::errors::CompileError;
use crate::growth::{
    follows,
    group_growth,
    lemma_grows_refl,
    placeholder,
};
use crate::growth_proofs::{
    lemma_instruction_grows,
    lemma_phi_arguments_grows,
    lemma_phi_moves_grows,
    lemma_resolve_grows,
};
use crate::lowering::lower_instruction;
use crate::opcode;
use crate::opcode::{
    OpcodeView,
    RegisterIndex,
    RegisterMemIndex,
};
use crate::phi::{
    phi_arguments,
    phi_moves,
    spec_handle_phi_instructions,
};
use crate::resolver::{
    resolve,
    resolve_register,
    spec_object_type_2_typ,
};
use crate::scheduler::{
    ends_in_jump,
    enqueue,
    lemma_unscheduled_shrinks,
    lower_all,
    lower_last,
    schedule,
    spec_compile,
    spec_process_block,
    unscheduled,
};
use crate::ssa::{
    BasicBlock,
    Binary,
    BinaryOp,
    BlockId,
    Instruction,
    NodeId,
    ObjectType,
    Operation,
    SsaContext,
};
use crate::state::LowerState;
use crate::wellformed::{
    behind_prologue,
    callees_well_formed,
    lemma_fix_all_resolves,
    lemma_link_closure_well_formed,
    lemma_link_with_well_formed,
    lemma_schedule_keeps_order,
    resolved,
    well_formed,
};
use vstd::prelude::*;

verus! {

broadcast use group_growth;

/// The state after every instruction of a block is lowered: all but the
/// last, then the last, before anything is added for the end of the block.
pub open spec fn body_state(ctx: &SsaContext, st: LowerState, block: BasicBlock) -> Result<
    LowerState,
    CompileError,
> {
    match lower_all(ctx, st, block.instructions@, 0, block.instructions@.len() - 1) {
        Err(e) => Err(e),
        Ok(st1) => match lower_last(ctx, st1, block) {
            Err(e) => Err(e),
            Ok((st2, _)) => Ok(st2),
        },
    }
}

/// Whether the block `id` is not followed by a block in which paths meet.
pub open spec fn plain_block(ctx: &SsaContext, id: BlockId) -> bool {
    match ctx.spec_block(id) {
        None => false,
        Some(block) => match block.left {
            Some(left) => match ctx.spec_block(left) {
                Some(next) => !next.spec_is_join(),
                None => false,
            },
            None => true,
        },
    }
}

/// A block that is followed by no join is lowered to the code of its
/// instructions and one opcode more: the jump that leads on, which is
/// recorded as a placeholder, or, in a block that ends in no jump and has no
/// successor to fall through to, the return to the caller.
pub proof fn law_block_ends_with_one_opcode(ctx: &SsaContext, st: LowerState, id: BlockId)
    requires
        plain_block(ctx, id),
        spec_process_block(ctx, st, id) is Ok,
    ensures
        ({
            let block = ctx.spec_block(id).unwrap();
            let after = spec_process_block(ctx, st, id).unwrap().0;
            &&& body_state(ctx, st, block) matches Ok(body) && {
                &&& after.code.len() == body.code.len() + 1
                &&& after.code.drop_last() == body.code
                &&& block.left is None && !ends_in_jump(ctx, block) ==> after.code.last()
                    == OpcodeView::CallBack && after.to_fix == body.to_fix
                &&& block.left is Some || ends_in_jump(ctx, block) ==> placeholder(
                    after.code.last(),
                ) && !(after.code.last() is PushStack) && after.to_fix.len() == body.to_fix.len()
                    + 1 && after.to_fix.last().0 == body.code.len() as usize
            }
        }),
{
    let block = ctx.spec_block(id).unwrap();
    let st1 = lower_all(ctx, st, block.instructions@, 0, block.instructions@.len() - 1).unwrap();
    let (st2, jump) = lower_last(ctx, st1, block).unwrap();
    crate::growth_proofs::lemma_lower_last_grows(ctx, st1, block);
    let after = spec_process_block(ctx, st, id).unwrap().0;
    if let Some(left) = block.left {
        assert(spec_handle_phi_instructions(ctx, st2, id, left) == Ok::<LowerState, CompileError>(
            st2,
        ));
    }
    match jump {
        Some((op, target)) => {
            assert(after == st2.fix_next(target).emit(op));
            assert(after.code.drop_last() =~= st2.code);
        },
        None => {
            assert(after == st2.emit(OpcodeView::CallBack));
            assert(after.code.drop_last() =~= st2.code);
        },
    }
}

/// The number of opcodes that the instructions of the scheduled blocks are
/// lowered to, without what ends each block.
pub open spec fn instruction_opcodes(
    ctx: &SsaContext,
    st: LowerState,
    table: Map<usize, usize>,
    queue: Seq<BlockId>,
) -> int
    decreases unscheduled(ctx.blocks@.len(), table).len(),
{
    if queue.len() == 0 || queue.last().0 >= ctx.blocks@.len() || table.contains_key(
        queue.last().0,
    ) {
        0
    } else {
        let current = queue.last();
        match spec_process_block(ctx, st, current) {
            Err(_) => 0,
            Ok((st1, children)) => match enqueue(ctx, queue.drop_last(), children, current, 0) {
                Err(_) => 0,
                Ok(queue1) => {
                    proof {
                        lemma_unscheduled_shrinks(
                            ctx.blocks@.len(),
                            table,
                            current.0,
                            st.code.len() as usize,
                        );
                    }
                    (match body_state(ctx, st, ctx.spec_block(current).unwrap()) {
                        Ok(body) => body.code.len() - st.code.len(),
                        Err(_) => 0,
                    }) + instruction_opcodes(
                        ctx,
                        st1,
                        table.insert(current.0, st.code.len() as usize),
                        queue1,
                    )
                },
            },
        }
    }
}

/// The number of blocks that are scheduled.
pub open spec fn blocks_scheduled(
    ctx: &SsaContext,
    st: LowerState,
    table: Map<usize, usize>,
    queue: Seq<BlockId>,
) -> int
    decreases unscheduled(ctx.blocks@.len(), table).len(),
{
    if queue.len() == 0 || queue.last().0 >= ctx.blocks@.len() || table.contains_key(
        queue.last().0,
    ) {
        0
    } else {
        let current = queue.last();
        match spec_process_block(ctx, st, current) {
            Err(_) => 0,
            Ok((st1, children)) => match enqueue(ctx, queue.drop_last(), children, current, 0) {
                Err(_) => 0,
                Ok(queue1) => {
                    proof {
                        lemma_unscheduled_shrinks(
                            ctx.blocks@.len(),
                            table,
                            current.0,
                            st.code.len() as usize,
                        );
                    }
                    1 + blocks_scheduled(
                        ctx,
                        st1,
                        table.insert(current.0, st.code.len() as usize),
                        queue1,
                    )
                },
            },
        }
    }
}

/// Whether every block of the graph ends in one opcode.
pub open spec fn plain_graph(ctx: &SsaContext) -> bool {
    forall|id: BlockId| id.0 < ctx.blocks@.len() ==> #[trigger] plain_block(ctx, id)
}

/// In a graph without joins, the code of a function is as long as what its
/// instructions are lowered to, and one opcode more for each block: the jump
/// that ends it, or the return to the caller.
pub proof fn law_code_length_without_joins(
    ctx: &SsaContext,
    st: LowerState,
    table: Map<usize, usize>,
    queue: Seq<BlockId>,
)
    requires
        plain_graph(ctx),
        schedule(ctx, st, table, queue) is Ok,
    ensures
        schedule(ctx, st, table, queue).unwrap().0.code.len() == st.code.len()
            + instruction_opcodes(ctx, st, table, queue) + blocks_scheduled(ctx, st, table, queue),
    decreases unscheduled(ctx.blocks@.len(), table).len(),
{
    if queue.len() != 0 {
        let current = queue.last();
        let (st1, children) = spec_process_block(ctx, st, current).unwrap();
        let queue1 = enqueue(ctx, queue.drop_last(), children, current, 0).unwrap();
        let start = st.code.len() as usize;
        assert(plain_block(ctx, current));
        law_block_ends_with_one_opcode(ctx, st, current);
        lemma_unscheduled_shrinks(ctx.blocks@.len(), table, current.0, start);
        law_code_length_without_joins(ctx, st1, table.insert(current.0, start), queue1);
    }
}

/// The operand that stands for a value, whatever the state.
pub open spec fn operand_of(ctx: &SsaContext, a: NodeId) -> Option<RegisterMemIndex> {
    match resolve(ctx, LowerState::initial(), a) {
        Ok((_, operand)) => Some(operand),
        Err(_) => None,
    }
}

/// The move that carries the value `source` into the register of `phi`.
pub open spec fn phi_move(ctx: &SsaContext, phi: NodeId, source: NodeId) -> OpcodeView {
    OpcodeView::Mov {
        destination: operand_of(ctx, phi).unwrap(),
        source: operand_of(ctx, source).unwrap(),
    }
}

/// Whether `op` was added to the code between `old` and `new`.
pub open spec fn added(old: LowerState, new: LowerState, op: OpcodeView) -> bool {
    exists|p: int| old.code.len() <= p < new.code.len() && new.code[p] == op
}

proof fn lemma_operand(ctx: &SsaContext, st: LowerState, a: NodeId)
    ensures
        resolve(ctx, st, a) matches Ok((_, operand)) ==> operand_of(ctx, a) == Some(operand),
{
}

proof fn lemma_added_later(old: LowerState, mid: LowerState, new: LowerState, op: OpcodeView)
    requires
        added(old, mid, op),
        follows(mid, new),
    ensures
        added(old, new, op),
{
    reveal(follows);
    let p = choose|p: int| old.code.len() <= p < mid.code.len() && mid.code[p] == op;
    assert(new.code[p] == op);
}

proof fn lemma_added_earlier(old: LowerState, mid: LowerState, new: LowerState, op: OpcodeView)
    requires
        follows(old, mid),
        added(mid, new, op),
    ensures
        added(old, new, op),
{
    reveal(follows);
    let p = choose|p: int| mid.code.len() <= p < new.code.len() && new.code[p] == op;
    assert(old.code.len() <= p < new.code.len() && new.code[p] == op);
}

proof fn lemma_phi_argument_is_moved(
    ctx: &SsaContext,
    st: LowerState,
    current: BlockId,
    phi: NodeId,
    block_args: Seq<(NodeId, BlockId)>,
    m: int,
    n: int,
)
    requires
        0 <= m <= n < block_args.len(),
        block_args[n].1 == current,
        phi_arguments(ctx, st, current, phi, block_args, m) is Ok,
    ensures
        added(
            st,
            phi_arguments(ctx, st, current, phi, block_args, m).unwrap(),
            phi_move(ctx, phi, block_args[n].0),
        ),
    decreases n - m,
{
    let end = phi_arguments(ctx, st, current, phi, block_args, m).unwrap();
    if block_args[m].1 == current {
        let (st1, destination) = resolve(ctx, st, phi).unwrap();
        let (st2, source) = resolve(ctx, st1, block_args[m].0).unwrap();
        let op = OpcodeView::Mov { destination, source };
        let st3 = st2.emit(op);
        lemma_resolve_grows(ctx, st, phi);
        lemma_resolve_grows(ctx, st1, block_args[m].0);
        lemma_operand(ctx, st, phi);
        lemma_operand(ctx, st1, block_args[m].0);
        assert(follows(st, st3));
        if m == n {
            assert(st3.code[st2.code.len() as int] == op);
            assert(added(st2, st3, op));
            lemma_grows_refl(st);
            assert(follows(st, st2));
            lemma_added_earlier(st, st2, st3, op);
            lemma_phi_arguments_grows(ctx, st3, current, phi, block_args, m + 1);
            lemma_added_later(st, st3, end, op);
        } else {
            lemma_phi_argument_is_moved(ctx, st3, current, phi, block_args, m + 1, n);
            lemma_added_earlier(st, st3, end, phi_move(ctx, phi, block_args[n].0));
        }
    } else {
        lemma_phi_argument_is_moved(ctx, st, current, phi, block_args, m + 1, n);
    }
}

/// Whether the phis at the head of a block reach to its `n`-th instruction:
/// every instruction before it is a phi or empty.
pub open spec fn phis_reach(ctx: &SsaContext, instructions: Seq<NodeId>, n: int) -> bool {
    forall|k: int|
        0 <= k < n ==> match ctx.spec_try_get_instruction(#[trigger] instructions[k]) {
            None => true,
            Some(ins) => ins.operation is Nop || ins.operation is Phi,
        }
}

proof fn lemma_phi_is_moved(
    ctx: &SsaContext,
    st: LowerState,
    current: BlockId,
    instructions: Seq<NodeId>,
    k: int,
    n: int,
    m: int,
)
    requires
        0 <= k <= n < instructions.len(),
        phis_reach(ctx, instructions, n),
        ctx.spec_try_get_instruction(instructions[n]) matches Some(ins) && (
        ins.operation matches Operation::Phi { block_args, .. } && 0 <= m < block_args@.len()
            && block_args@[m].1 == current),
        phi_moves(ctx, st, current, instructions, k) is Ok,
    ensures
        ({
            let ins = ctx.spec_try_get_instruction(instructions[n]).unwrap();
            added(
                st,
                phi_moves(ctx, st, current, instructions, k).unwrap(),
                phi_move(ctx, ins.id, ins.operation->block_args@[m].0),
            )
        }),
    decreases n - k,
{
    let end = phi_moves(ctx, st, current, instructions, k).unwrap();
    let target = ctx.spec_try_get_instruction(instructions[n]).unwrap();
    let op = phi_move(ctx, target.id, target.operation->block_args@[m].0);
    if k == n {
        let args = target.operation->block_args@;
        let st1 = phi_arguments(ctx, st, current, target.id, args, 0).unwrap();
        lemma_phi_argument_is_moved(ctx, st, current, target.id, args, 0, m);
        lemma_phi_moves_grows(ctx, st1, current, instructions, k + 1);
        lemma_added_later(st, st1, end, op);
    } else {
        assert(phis_reach(ctx, instructions, n));
        let here = ctx.spec_try_get_instruction(instructions[k]);
        match here {
            None => {
                lemma_phi_is_moved(ctx, st, current, instructions, k + 1, n, m);
            },
            Some(ins) => match ins.operation {
                Operation::Nop => {
                    lemma_phi_is_moved(ctx, st, current, instructions, k + 1, n, m);
                },
                Operation::Phi { block_args, .. } => {
                    let st1 = phi_arguments(ctx, st, current, ins.id, block_args@, 0).unwrap();
                    lemma_phi_arguments_grows(ctx, st, current, ins.id, block_args@, 0);
                    lemma_phi_is_moved(ctx, st1, current, instructions, k + 1, n, m);
                    lemma_added_earlier(st, st1, end, op);
                },
                _ => {},
            },
        }
    }
}

/// Phi resolution. Where a phi at the head of the join block `left` lists the
/// value `a` for the predecessor `current`, the code that is added on the edge
/// from `current` to `left` holds the move of `a` into the register of the
/// phi.
pub proof fn law_phi_value_is_moved_on_its_edge(
    ctx: &SsaContext,
    st: LowerState,
    current: BlockId,
    left: BlockId,
    n: int,
    m: int,
)
    requires
        ctx.spec_block(left) matches Some(join) && join.spec_is_join() && 0 <= n
            < join.instructions@.len() && phis_reach(ctx, join.instructions@, n) && (
        ctx.spec_try_get_instruction(join.instructions@[n]) matches Some(ins) && (
        ins.operation matches Operation::Phi { block_args, .. } && 0 <= m < block_args@.len()
            && block_args@[m].1 == current)),
        spec_handle_phi_instructions(ctx, st, current, left) is Ok,
    ensures
        ({
            let join = ctx.spec_block(left).unwrap();
            let ins = ctx.spec_try_get_instruction(join.instructions@[n]).unwrap();
            added(
                st,
                spec_handle_phi_instructions(ctx, st, current, left).unwrap(),
                phi_move(ctx, ins.id, ins.operation->block_args@[m].0),
            )
        }),
{
    let join = ctx.spec_block(left).unwrap();
    lemma_phi_is_moved(ctx, st, current, join.instructions@, 0, n, m);
}

/// The block for which the node, if it is a phi, lists its `m`-th value.
pub open spec fn listed_block(ctx: &SsaContext, node: NodeId, m: int) -> Option<BlockId> {
    match ctx.spec_try_get_instruction(node) {
        Some(ins) => match ins.operation {
            Operation::Phi { block_args, .. } => if 0 <= m < block_args@.len() {
                Some(block_args@[m].1)
            } else {
                None
            },
            _ => None,
        },
        None => None,
    }
}

/// Whether no phi among the instructions lists a value for `current`.
pub open spec fn no_value_from(ctx: &SsaContext, instructions: Seq<NodeId>, current: BlockId) -> bool {
    forall|k: int, m: int|
        0 <= k < instructions.len() ==> #[trigger] listed_block(ctx, instructions[k], m) != Some(
            current,
        )
}

proof fn lemma_phi_arguments_silent(
    ctx: &SsaContext,
    st: LowerState,
    current: BlockId,
    phi: NodeId,
    block_args: Seq<(NodeId, BlockId)>,
    m: int,
)
    requires
        forall|i: int| 0 <= i < block_args.len() ==> (#[trigger] block_args[i]).1 != current,
    ensures
        phi_arguments(ctx, st, current, phi, block_args, m) == Ok::<LowerState, CompileError>(st),
    decreases block_args.len() - m,
{
    if 0 <= m < block_args.len() {
        assert(block_args[m].1 != current);
        lemma_phi_arguments_silent(ctx, st, current, phi, block_args, m + 1);
    }
}

proof fn lemma_phi_moves_silent(
    ctx: &SsaContext,
    st: LowerState,
    current: BlockId,
    instructions: Seq<NodeId>,
    k: int,
)
    requires
        no_value_from(ctx, instructions, current),
    ensures
        phi_moves(ctx, st, current, instructions, k) == Ok::<LowerState, CompileError>(st),
    decreases instructions.len() - k,
{
    if 0 <= k < instructions.len() {
        match ctx.spec_try_get_instruction(instructions[k]) {
            None => {
                lemma_phi_moves_silent(ctx, st, current, instructions, k + 1);
            },
            Some(ins) => match ins.operation {
                Operation::Nop => {
                    lemma_phi_moves_silent(ctx, st, current, instructions, k + 1);
                },
                Operation::Phi { block_args, .. } => {
                    assert forall|i: int| 0 <= i < block_args@.len() implies (
                    #[trigger] block_args@[i]).1 != current by {
                        assert(listed_block(ctx, instructions[k], i) != Some(current));
                    }
                    lemma_phi_arguments_silent(ctx, st, current, ins.id, block_args@, 0);
                    lemma_phi_moves_silent(ctx, st, current, instructions, k + 1);
                },
                _ => {},
            },
        }
    }
}

/// Phi resolution, the other way round. The values that a phi lists for
/// other predecessors add nothing on the edge from `current`: where no phi of
/// `left` lists a value for `current`, the edge adds no code at all.
pub proof fn law_phi_values_of_other_edges_are_not_moved(
    ctx: &SsaContext,
    st: LowerState,
    current: BlockId,
    left: BlockId,
)
    requires
        ctx.spec_block(left) matches Some(join) && no_value_from(ctx, join.instructions@, current),
    ensures
        spec_handle_phi_instructions(ctx, st, current, left) == Ok::<LowerState, CompileError>(st),
{
    let join = ctx.spec_block(left).unwrap();
    lemma_phi_moves_silent(ctx, st, current, join.instructions@, 0);
}

/// The object of a function is well formed: every record names a position of
/// its code that holds a placeholder, the positions rise, a return-address
/// marker has its jump and one more opcode behind it, and every block begins
/// inside the code.
pub proof fn law_compiled_object_is_well_formed(ctx: &SsaContext, block: BlockId)
    requires
        spec_compile(ctx, block) matches Ok(obj) && obj.code.len() <= usize::MAX,
    ensures
        well_formed(spec_compile(ctx, block).unwrap()),
{
    lemma_schedule_keeps_order(ctx, LowerState::initial(), Map::empty(), seq![block]);
}

/// The register file never shrinks: no instruction, and no scheduling of
/// blocks, lowers the highest register in use.
pub proof fn law_registers_never_shrink(
    ctx: &SsaContext,
    st: LowerState,
    ins: Instruction,
    table: Map<usize, usize>,
    queue: Seq<BlockId>,
)
    ensures
        lower_instruction(ctx, st, ins) matches Ok(st1) ==> st.max_register <= st1.max_register,
        schedule(ctx, st, table, queue) matches Ok((st1, _)) ==> st.max_register
            <= st1.max_register,
{
    lemma_instruction_grows(ctx, st, ins);
    lemma_schedule_keeps_order(ctx, st, table, queue);
    reveal(follows);
}

/// Whether a value lives in a register: it is a variable or the result of an
/// instruction.
pub open spec fn in_register(ctx: &SsaContext, a: NodeId) -> bool {
    ctx.spec_try_get_node(a) matches Some(node) && (node is Variable || node is Instr)
}

/// An unsigned remainder ends in three opcodes, a division, a multiplication
/// and a subtraction, and the register that holds the quotient and the
/// product is a new one: above every register in use before, and above those
/// of the operands and of the result.
pub proof fn law_remainder_uses_a_fresh_register(
    ctx: &SsaContext,
    st: LowerState,
    lhs: NodeId,
    rhs: NodeId,
    id: NodeId,
    object_type: ObjectType,
)
    requires
        lower_binary(ctx, st, Binary { lhs, rhs, operator: BinaryOp::Urem }, id, object_type) is Ok,
    ensures
        ({
            let after = lower_binary(
                ctx,
                st,
                Binary { lhs, rhs, operator: BinaryOp::Urem },
                id,
                object_type,
            ).unwrap();
            let q = RegisterIndex(after.max_register);
            let n = after.code.len();
            let result_type = spec_object_type_2_typ(object_type).unwrap();
            let a = operand_of(ctx, lhs).unwrap();
            let b = operand_of(ctx, rhs).unwrap();
            &&& n >= st.code.len() + 3
            &&& after.code[n - 3] == binary_opcode(result_type, opcode::BinaryOp::Div, a, b, q)
            &&& after.code[n - 2] == binary_opcode(
                result_type,
                opcode::BinaryOp::Mul,
                RegisterMemIndex::Register(q),
                b,
                q,
            )
            &&& after.code[n - 1] == binary_opcode(
                result_type,
                opcode::BinaryOp::Sub,
                a,
                RegisterMemIndex::Register(q),
                RegisterIndex(id.0),
            )
            &&& q.0 > st.max_register
            &&& in_register(ctx, lhs) ==> q.0 > lhs.0
            &&& in_register(ctx, rhs) ==> q.0 > rhs.0
            &&& q.0 > id.0
        }),
{
    let (st1, a) = resolve(ctx, st, lhs).unwrap();
    let (st2, b) = resolve(ctx, st1, rhs).unwrap();
    let (st3, result) = resolve_register(ctx, st2, id).unwrap();
    lemma_resolve_grows(ctx, st, lhs);
    lemma_resolve_grows(ctx, st1, rhs);
    lemma_resolve_grows(ctx, st2, id);
    lemma_operand(ctx, st, lhs);
    lemma_operand(ctx, st1, rhs);
    assert(follows(st, st3));
    reveal(follows);
}

/// Whether a resolved opcode leads to an address inside the code.
pub open spec fn leads_inside(op: OpcodeView, len: nat) -> bool {
    match op {
        OpcodeView::Jump { destination } => destination < len,
        OpcodeView::JumpIf { destination, .. } => destination < len,
        OpcodeView::JumpIfNot { destination, .. } => destination < len,
        OpcodeView::PushStack { source: RegisterMemIndex::Constant(address) } => address.high == 0
            && address.low < len,
        _ => false,
    }
}

/// After linking, no placeholder is left: where the objects are well formed,
/// every record of the program names a position whose opcode is resolved, to
/// the entry of its block or to the address behind the call, and leads to an
/// address inside the program. If the program was linked from nothing, no
/// such opcode still holds the placeholder.
pub proof fn law_linked_placeholders_are_resolved(
    acc: ArtefactView,
    ctx: &SsaContext,
    obj: ArtefactView,
)
    requires
        well_formed(acc),
        well_formed(obj),
        callees_well_formed(ctx),
        spec_link(acc, ctx, obj) matches Ok(program) && program.code.len() <= usize::MAX,
    ensures
        ({
            let program = spec_link(acc, ctx, obj).unwrap();
            forall|i: int|
                0 <= i < program.to_fix.len() ==> {
                    let fix = #[trigger] program.to_fix[i];
                    &&& resolved(program.code, program.blocks, fix)
                    &&& leads_inside(program.code[fix.0 as int], program.code.len())
                    &&& behind_prologue(acc) ==> !placeholder(program.code[fix.0 as int])
                }
        }),
{
    let acc1 = spec_link_with(acc, obj).unwrap();
    let acc2 = link_closure(ctx, acc1, obj.callees).unwrap();
    let code = fix_all(acc2.code, acc2.blocks, acc2.to_fix, 0).unwrap();
    let program = spec_link(acc, ctx, obj).unwrap();
    lemma_link_closure_well_formed(ctx, acc1, obj.callees);
    lemma_fix_length(acc2.code, acc2.blocks, acc2.to_fix, 0);
    assert(acc1.code.len() <= usize::MAX);
    lemma_link_with_well_formed(acc, obj);
    assert(well_formed(acc2));
    lemma_fix_all_resolves(acc2.code, acc2.blocks, acc2.to_fix, 0);
    assert forall|i: int| 0 <= i < program.to_fix.len() implies {
        let fix = #[trigger] program.to_fix[i];
        &&& resolved(program.code, program.blocks, fix)
        &&& leads_inside(program.code[fix.0 as int], program.code.len())
        &&& behind_prologue(acc) ==> !placeholder(program.code[fix.0 as int])
    } by {
        let fix = program.to_fix[i];
        assert(resolved(code, acc2.blocks, acc2.to_fix[i]));
        lemma_fix_keeps_kind(acc2.code, acc2.blocks, acc2.to_fix, 0, fix.0 as int);
        assert(placeholder(acc2.code[fix.0 as int]));
        if acc2.code[fix.0 as int] is PushStack {
            assert(fix.0 + 2 < acc2.code.len());
        }
    }
}

/// Resolving keeps the length of the code.
proof fn lemma_fix_length(
    code: Seq<OpcodeView>,
    blocks: Map<usize, usize>,
    to_fix: Seq<(usize, BlockId)>,
    k: int,
)
    ensures
        fix_all(code, blocks, to_fix, k) matches Ok(out) ==> out.len() == code.len(),
    decreases to_fix.len() - k,
{
    if 0 <= k < to_fix.len() {
        if let Ok(code1) = crate::artefact::patch(code, blocks, to_fix[k]) {
            lemma_fix_length(code1, blocks, to_fix, k + 1);
        }
    }
}

/// Resolving turns a jump into a jump of the same kind and a marker into a
/// marker, and leaves everything else as it is.
proof fn lemma_fix_keeps_kind(
    code: Seq<OpcodeView>,
    blocks: Map<usize, usize>,
    to_fix: Seq<(usize, BlockId)>,
    k: int,
    p: int,
)
    requires
        0 <= p < code.len(),
    ensures
        fix_all(code, blocks, to_fix, k) matches Ok(out) ==> out.len() == code.len() && (
        code[p] is PushStack <==> out[p] is PushStack),
    decreases to_fix.len() - k,
{
    if 0 <= k < to_fix.len() {
        if let Ok(code1) = crate::artefact::patch(code, blocks, to_fix[k]) {
            lemma_fix_keeps_kind(code1, blocks, to_fix, k + 1, p);
        }
    }
}

/// Linking what is linked already changes nothing in it: an object without
/// records and without calls to functions still to be linked comes out of the
/// linker as it went in, behind the code that was there before, or behind the
/// prologue where there was none.
pub proof fn law_linking_a_linked_object_keeps_its_code(
    acc: ArtefactView,
    ctx: &SsaContext,
    obj: ArtefactView,
)
    requires
        acc.to_fix.len() == 0,
        obj.to_fix.len() == 0,
        obj.callees.len() == 0,
        obj.code.len() > 0,
        offsets_fit(
            obj,
            (if acc.code.len() == 0 {
                prologue()
            } else {
                acc.code
            }).len() as usize,
        ),
    ensures
        spec_link(acc, ctx, obj) matches Ok(program) && program.code == (if acc.code.len() == 0 {
            prologue()
        } else {
            acc.code
        }) + obj.code && program.to_fix.len() == 0,
{
    let acc1 = spec_link_with(acc, obj).unwrap();
    assert(acc1.to_fix =~= Seq::empty());
    assert(link_closure(ctx, acc1, obj.callees) == Ok::<ArtefactView, CompileError>(acc1));
    assert(fix_all(acc1.code, acc1.blocks, acc1.to_fix, 0) == Ok::<
        Seq<OpcodeView>,
        CompileError,
    >(acc1.code));
}

} // verus!
