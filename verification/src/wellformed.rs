//! Well-formed objects: what the compiler promises of the objects it makes,
//! and what the linker keeps.

use crate::artefact::{
    fix_all,
    link_closure,
    patch,
    prologue,
    shift_blocks,
    shift_fixups,
    spec_link_with,
    ArtefactView,
    PREFIX_LEN,
};

use crate::field::FieldValue;
use crate::growth::{
    follows,
    group_growth,
    lemma_grows_refl,
    placeholder,
};
use crate::growth_proofs::{
    lemma_emit_jump_grows,
    lemma_handle_phi_grows,
    lemma_lower_all_grows,
    lemma_lower_last_grows,
};
use crate::opcode::{
    OpcodeView,
    RegisterMemIndex,
};
use crate::phi::spec_handle_phi_instructions;
use crate::scheduler::{
    emit_jump,
    enqueue,
    lemma_unscheduled_shrinks,
    lower_all,
    lower_last,
    schedule,
    spec_process_block,
    successors,
    unscheduled,
};
use crate::ssa::{
    BlockId,
    NodeId,
    SsaContext,
};
use crate::state::LowerState;
use vstd::prelude::*;

verus! {

broadcast use group_growth;

/// Whether the records of a piece of code are in order: each names a position
/// in the code that holds a placeholder, a return-address marker has two
/// opcodes behind it, and the positions rise.
pub open spec fn records_in_order(code: Seq<OpcodeView>, to_fix: Seq<(usize, BlockId)>) -> bool {
    &&& forall|i: int|
        0 <= i < to_fix.len() ==> {
            let position = (#[trigger] to_fix[i]).0;
            &&& position < code.len()
            &&& placeholder(code[position as int])
            &&& code[position as int] is PushStack ==> position + 2 < code.len()
        }
    &&& forall|i: int, j: int|
        0 <= i < j < to_fix.len() ==> (#[trigger] to_fix[i]).0 < (#[trigger] to_fix[j]).0
}

/// Whether an object is well formed: its code fits the machine word, its
/// records are in order, and every block begins inside the code.
pub open spec fn well_formed(obj: ArtefactView) -> bool {
    &&& obj.code.len() <= usize::MAX
    &&& records_in_order(obj.code, obj.to_fix)
    &&& forall|k: usize| #[trigger] obj.blocks.contains_key(k) ==> obj.blocks[k] < obj.code.len()
}

/// Whether the object of every function of the graph is well formed.
pub open spec fn callees_well_formed(ctx: &SsaContext) -> bool {
    forall|i: int| 0 <= i < ctx.functions@.len() ==> well_formed(#[trigger] ctx.functions@[i].obj@)
}

/// Lowering a block makes the state grow by at least one opcode, and keeps
/// the records in order.
pub proof fn lemma_process_block_keeps_order(ctx: &SsaContext, st: LowerState, id: BlockId)
    ensures
        spec_process_block(ctx, st, id) matches Ok((st1, _)) ==> {
            &&& follows(st, st1)
            &&& st.code.len() < st1.code.len()
            &&& st.code.is_prefix_of(st1.code)
            &&& records_in_order(st.code, st.to_fix) && st1.code.len() <= usize::MAX
                ==> records_in_order(st1.code, st1.to_fix)
        },
{
    if let Some(block) = ctx.spec_block(id) {
        let end = block.instructions@.len() - 1;
        lemma_lower_all_grows(ctx, st, block.instructions@, 0, end);
        if let Ok(st1) = lower_all(ctx, st, block.instructions@, 0, end) {
            lemma_lower_last_grows(ctx, st1, block);
            if let Ok((st2, jump)) = lower_last(ctx, st1, block) {
                let phis = match block.left {
                    Some(left) => spec_handle_phi_instructions(ctx, st2, id, left),
                    None => Ok(st2),
                };
                lemma_grows_refl(st2);
                if let Some(left) = block.left {
                    lemma_handle_phi_grows(ctx, st2, id, left);
                }
                if let Ok(st3) = phis {
                    if let Ok(children) = successors(ctx, id, block) {
                        let st4 = emit_jump(st3, jump);
                        lemma_emit_jump_grows(st3, jump);
                        let st5 = if jump is None {
                            st4.emit(OpcodeView::CallBack)
                        } else {
                            st4
                        };
                        lemma_grows_refl(st4);
                        assert(follows(st, st3));
                        assert(follows(st3, st4));
                        assert(follows(st4, st5));
                        assert(follows(st, st5));
                        assert(st3.code.len() < st5.code.len());
                        reveal(follows);
                        assert(st.code.len() < st5.code.len());
                        if records_in_order(st.code, st.to_fix) && st5.code.len() <= usize::MAX {
                            assert forall|i: int| 0 <= i < st5.to_fix.len() implies {
                                let position = (#[trigger] st5.to_fix[i]).0;
                                &&& position < st5.code.len()
                                &&& placeholder(st5.code[position as int])
                                &&& st5.code[position as int] is PushStack ==> position + 2
                                    < st5.code.len()
                            } by {
                                let position = st5.to_fix[i].0;
                                if i < st.to_fix.len() {
                                    assert(st5.to_fix[i] == st.to_fix[i]);
                                    assert(st5.code[position as int] == st.code[position as int]);
                                } else if i < st3.to_fix.len() {
                                    assert(st5.to_fix[i] == st3.to_fix[i]);
                                    assert(st5.code[position as int] == st3.code[position as int]);
                                } else {
                                }
                            }
                            assert forall|i: int, j: int|
                                0 <= i < j < st5.to_fix.len() implies (#[trigger] st5.to_fix[i]).0
                                < (#[trigger] st5.to_fix[j]).0 by {
                                if i < st.to_fix.len() {
                                    assert(st5.to_fix[i] == st.to_fix[i]);
                                }
                                if j < st.to_fix.len() {
                                    assert(st5.to_fix[j] == st.to_fix[j]);
                                }
                            }
                        }
                    }
                }
            }
        }
    }
}

/// Whether every block that the table records begins inside the code.
pub open spec fn table_in_code(table: Map<usize, usize>, len: nat) -> bool {
    forall|k: usize| #[trigger] table.contains_key(k) ==> table[k] < len
}

/// Scheduling only adds code, and keeps the records in order and the table
/// inside the code.
pub proof fn lemma_schedule_keeps_order(
    ctx: &SsaContext,
    st: LowerState,
    table: Map<usize, usize>,
    queue: Seq<BlockId>,
)
    ensures
        schedule(ctx, st, table, queue) matches Ok((st1, table1)) ==> {
            &&& st.code.is_prefix_of(st1.code)
            &&& st.max_register <= st1.max_register
            &&& records_in_order(st.code, st.to_fix) && table_in_code(table, st.code.len())
                && st1.code.len() <= usize::MAX ==> records_in_order(st1.code, st1.to_fix)
                && table_in_code(table1, st1.code.len())
        },
    decreases unscheduled(ctx.blocks@.len(), table).len(),
{
    if queue.len() != 0 {
        let current = queue.last();
        if current.0 < ctx.blocks@.len() && !table.contains_key(current.0) {
            lemma_process_block_keeps_order(ctx, st, current);
            if let Ok((st1, children)) = spec_process_block(ctx, st, current) {
                if let Ok(queue1) = enqueue(ctx, queue.drop_last(), children, current, 0) {
                    let start = st.code.len() as usize;
                    let table1 = table.insert(current.0, start);
                    lemma_unscheduled_shrinks(ctx.blocks@.len(), table, current.0, start);
                    lemma_schedule_keeps_order(ctx, st1, table1, queue1);
                    reveal(follows);
                    if let Ok((st2, table2)) = schedule(ctx, st1, table1, queue1) {
                        if records_in_order(st.code, st.to_fix) && table_in_code(
                            table,
                            st.code.len(),
                        ) && st2.code.len() <= usize::MAX {
                            assert(st1.code.len() <= st2.code.len());
                            assert(table_in_code(table1, st1.code.len()));
                        }
                    }
                }
            }
        }
    }
}

/// Appending a well-formed object to a well-formed object gives a well-formed
/// object, in which the blocks of the first keep an entry and every entry
/// lies behind the prologue if those of the first did.
pub proof fn lemma_link_with_well_formed(acc: ArtefactView, obj: ArtefactView)
    requires
        well_formed(acc),
        well_formed(obj),
    ensures
        spec_link_with(acc, obj) matches Ok(r) ==> {
            &&& acc.code.len() < r.code.len()
            &&& forall|k: usize| acc.blocks.contains_key(k) ==> r.blocks.contains_key(k)
            &&& r.code.len() <= usize::MAX ==> well_formed(r)
            &&& behind_prologue(acc) ==> behind_prologue(r)
        },
{
    if let Ok(r) = spec_link_with(acc, obj) {
        let base = if acc.code.len() == 0 {
            prologue()
        } else {
            acc.code
        };
        let offset = base.len() as usize;
        let moved = shift_fixups(obj.to_fix, offset);
        if acc.code.len() == 0 {
            assert(acc.to_fix.len() == 0) by {
                if acc.to_fix.len() > 0 {
                    assert(acc.to_fix[0].0 < acc.code.len());
                }
            }
            assert forall|k: usize| !acc.blocks.contains_key(k) by {
                if acc.blocks.contains_key(k) {
                    assert(acc.blocks[k] < acc.code.len());
                }
            }
        }
        assert(r.blocks.dom() == acc.blocks.dom().union(shift_blocks(obj.blocks, offset).dom()));
        if r.code.len() <= usize::MAX {
            assert forall|i: int| 0 <= i < r.to_fix.len() implies {
                let position = (#[trigger] r.to_fix[i]).0;
                &&& position < r.code.len()
                &&& placeholder(r.code[position as int])
                &&& r.code[position as int] is PushStack ==> position + 2 < r.code.len()
            } by {
                if i < acc.to_fix.len() {
                    assert(r.to_fix[i] == acc.to_fix[i]);
                    let position = acc.to_fix[i].0;
                    assert(r.code[position as int] == acc.code[position as int]);
                } else {
                    let m = i - acc.to_fix.len();
                    assert(r.to_fix[i] == moved[m]);
                    let position = obj.to_fix[m].0;
                    assert(r.code[position + offset] == obj.code[position as int]);
                }
            }
            assert forall|i: int, j: int| 0 <= i < j < r.to_fix.len() implies (
            #[trigger] r.to_fix[i]).0 < (#[trigger] r.to_fix[j]).0 by {
                if i < acc.to_fix.len() {
                    assert(r.to_fix[i] == acc.to_fix[i]);
                } else {
                    assert(r.to_fix[i] == moved[i - acc.to_fix.len()]);
                }
                if j < acc.to_fix.len() {
                    assert(r.to_fix[j] == acc.to_fix[j]);
                } else {
                    assert(r.to_fix[j] == moved[j - acc.to_fix.len()]);
                }
            }
            assert forall|k: usize| #[trigger] r.blocks.contains_key(k) implies r.blocks[k]
                < r.code.len() by {
                if obj.blocks.contains_key(k) {
                    assert(obj.blocks[k] < obj.code.len());
                } else {
                    assert(acc.blocks.contains_key(k));
                }
            }
        }
        if behind_prologue(acc) {
            assert forall|k: usize| #[trigger] r.blocks.contains_key(k) implies r.blocks[k]
                >= PREFIX_LEN by {
                if obj.blocks.contains_key(k) {
                    assert(shift_blocks(obj.blocks, offset).contains_key(k));
                    assert(obj.blocks[k] + offset <= usize::MAX);
                    assert(offset >= PREFIX_LEN);
                } else {
                    assert(acc.blocks.contains_key(k));
                }
            }
        }
    }
}

/// Whether an object is empty or begins with room for the prologue, and
/// every block of it begins behind that.
pub open spec fn behind_prologue(obj: ArtefactView) -> bool {
    &&& obj.code.len() == 0 || obj.code.len() >= PREFIX_LEN
    &&& forall|k: usize| #[trigger] obj.blocks.contains_key(k) ==> obj.blocks[k] >= PREFIX_LEN
}

/// Linking in the functions that are called keeps the object well formed.
pub proof fn lemma_link_closure_well_formed(ctx: &SsaContext, acc: ArtefactView, queue: Seq<NodeId>)
    requires
        callees_well_formed(ctx),
    ensures
        link_closure(ctx, acc, queue) matches Ok(r) ==> {
            &&& acc.code.len() <= r.code.len()
            &&& well_formed(acc) && r.code.len() <= usize::MAX ==> well_formed(r)
            &&& well_formed(acc) && r.code.len() <= usize::MAX && behind_prologue(acc)
                ==> behind_prologue(r)
        },
    decreases crate::artefact::unresolved(ctx, acc.blocks).len(), queue.len(),
{
    if queue.len() != 0 {
        let func = queue.last();
        let rest = queue.drop_last();
        match ctx.spec_try_get_ssa_func(func) {
            None => {
                lemma_link_closure_well_formed(ctx, acc, rest);
            },
            Some(callee) => {
                if acc.blocks.contains_key(callee.entry_block.0) {
                    lemma_link_closure_well_formed(ctx, acc, rest);
                } else {
                    let index = ctx.spec_try_get_func_id(func).unwrap() as int;
                    assert(callee == ctx.functions@[index]);
                    assert(well_formed(callee.obj@));
                    if let Ok(acc1) = spec_link_with(acc, callee.obj@) {
                        if acc1.blocks.contains_key(callee.entry_block.0) {
                            assert(acc1.blocks.dom() == acc.blocks.dom().union(
                                shift_blocks(
                                    callee.obj@.blocks,
                                    (if acc.code.len() == 0 {
                                        prologue()
                                    } else {
                                        acc.code
                                    }).len() as usize,
                                ).dom(),
                            ));
                            crate::artefact::lemma_unresolved_shrinks(
                                ctx,
                                acc.blocks,
                                acc1.blocks,
                                index,
                            );
                            lemma_link_closure_well_formed(
                                ctx,
                                acc1,
                                rest + callee.obj@.callees,
                            );
                            if well_formed(acc) {
                                lemma_link_with_well_formed(acc, callee.obj@);
                            }
                        }
                    }
                }
            },
        }
    }
}

/// Whether the placeholder at a recorded position is resolved: a jump leads to
/// the entry of its block, a return-address marker holds the address behind
/// the jump that follows it.
pub open spec fn resolved(code: Seq<OpcodeView>, blocks: Map<usize, usize>, fix: (usize, BlockId)) -> bool {
    let position = fix.0 as int;
    let block = fix.1.0;
    position < code.len() && match code[position] {
        OpcodeView::Jump { destination } => blocks.contains_key(block) && destination
            == blocks[block],
        OpcodeView::JumpIf { destination, .. } => blocks.contains_key(block) && destination
            == blocks[block],
        OpcodeView::JumpIfNot { destination, .. } => blocks.contains_key(block) && destination
            == blocks[block],
        OpcodeView::PushStack { source } => source == RegisterMemIndex::Constant(
            FieldValue::small((position + 2) as nat),
        ),
        _ => false,
    }
}

/// Where the recorded positions differ, resolving the placeholders from the
/// `k`-th on leaves every one of them resolved, keeps the length of the code,
/// and touches no other position.
pub proof fn lemma_fix_all_resolves(
    code: Seq<OpcodeView>,
    blocks: Map<usize, usize>,
    to_fix: Seq<(usize, BlockId)>,
    k: int,
)
    requires
        0 <= k <= to_fix.len(),
        forall|i: int, j: int|
            0 <= i < j < to_fix.len() ==> (#[trigger] to_fix[i]).0 < (#[trigger] to_fix[j]).0,
        forall|i: int| 0 <= i < k ==> resolved(code, blocks, #[trigger] to_fix[i]),
    ensures
        fix_all(code, blocks, to_fix, k) matches Ok(out) ==> {
            &&& out.len() == code.len()
            &&& forall|i: int| 0 <= i < to_fix.len() ==> resolved(out, blocks, #[trigger] to_fix[i])
            &&& forall|p: int|
                0 <= p < code.len() && (forall|i: int|
                    k <= i < to_fix.len() ==> (#[trigger] to_fix[i]).0 != p) ==> out[p] == code[p]
        },
    decreases to_fix.len() - k,
{
    if k < to_fix.len() {
        if let Ok(code1) = patch(code, blocks, to_fix[k]) {
            let position = to_fix[k].0 as int;
            assert(resolved(code1, blocks, to_fix[k]));
            assert forall|i: int| 0 <= i < k + 1 implies resolved(
                code1,
                blocks,
                #[trigger] to_fix[i],
            ) by {
                if i < k {
                    assert(to_fix[i].0 < to_fix[k].0);
                    assert(resolved(code, blocks, to_fix[i]));
                    assert(code1[to_fix[i].0 as int] == code[to_fix[i].0 as int]);
                }
            }
            lemma_fix_all_resolves(code1, blocks, to_fix, k + 1);
            if let Ok(out) = fix_all(code1, blocks, to_fix, k + 1) {
                assert forall|p: int|
                    0 <= p < code.len() && (forall|i: int|
                        k <= i < to_fix.len() ==> (#[trigger] to_fix[i]).0 != p) implies out[p]
                    == code[p] by {
                    assert(to_fix[k].0 != p);
                    assert(forall|i: int|
                        k + 1 <= i < to_fix.len() ==> (#[trigger] to_fix[i]).0 != p);
                    assert(code1[p] == code[p]);
                }
            }
        }
    }
}

} // verus!
