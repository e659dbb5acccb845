//! How the state of a lowering grows: code and records are only ever added,
//! the register file never shrinks, and every recorded position holds a
//! placeholder.

use crate::artefact::return_marker;
use crate::opcode::OpcodeView;
use crate::ssa::{BlockId, NodeId};
use crate::state::LowerState;
use vstd::prelude::*;

verus! {

/// Whether an opcode holds the placeholder of an address.
pub open spec fn placeholder(op: OpcodeView) -> bool {
    match op {
        OpcodeView::Jump { destination } => destination == 0,
        OpcodeView::JumpIf { destination, .. } => destination == 0,
        OpcodeView::JumpIfNot { destination, .. } => destination == 0,
        OpcodeView::PushStack { source } => source == return_marker(),
        _ => false,
    }
}

/// Whether `new` came from `old` by lowering: the code and the records of
/// `old` begin those of `new`, no register was given up, and, as long as the
/// code fits the machine word, the records that were added name positions in
/// the code that was added, in rising order, each of which holds a
/// placeholder; a return-address marker is followed by its jump.
pub open spec fn grows(old: LowerState, new: LowerState) -> bool {
    &&& old.code.is_prefix_of(new.code)
    &&& old.to_fix.is_prefix_of(new.to_fix)
    &&& old.max_register <= new.max_register
    &&& new.code.len() <= usize::MAX ==> {
        &&& forall|i: int|
            old.to_fix.len() <= i < new.to_fix.len() ==> {
                let position = (#[trigger] new.to_fix[i]).0;
                &&& old.code.len() <= position < new.code.len()
                &&& placeholder(new.code[position as int])
                &&& new.code[position as int] is PushStack ==> position + 2 <= new.code.len()
            }
        &&& forall|i: int, j: int|
            old.to_fix.len() <= i < j < new.to_fix.len() ==> (#[trigger] new.to_fix[i]).0 < (
            #[trigger] new.to_fix[j]).0
    }
}

/// The relation between a state and a later one, kept closed for proofs that
/// only chain it.
#[verifier::opaque]
pub open spec fn follows(old: LowerState, new: LowerState) -> bool {
    grows(old, new)
}

pub proof fn lemma_grows_refl(st: LowerState)
    ensures
        follows(st, st),
{
    reveal(follows);
}

pub broadcast proof fn lemma_grows_trans(a: LowerState, b: LowerState, c: LowerState)
    requires
        #[trigger] follows(a, b),
        #[trigger] follows(b, c),
    ensures
        follows(a, c),
{
    reveal(follows);
    assert(a.code.is_prefix_of(c.code));
    assert(a.to_fix.is_prefix_of(c.to_fix));
    if c.code.len() <= usize::MAX {
        assert forall|i: int| a.to_fix.len() <= i < c.to_fix.len() implies {
            let position = (#[trigger] c.to_fix[i]).0;
            &&& a.code.len() <= position < c.code.len()
            &&& placeholder(c.code[position as int])
            &&& c.code[position as int] is PushStack ==> position + 2 <= c.code.len()
        } by {
            if i < b.to_fix.len() {
                assert(c.to_fix[i] == b.to_fix[i]);
                let position = b.to_fix[i].0;
                assert(c.code[position as int] == b.code[position as int]);
            }
        }
        assert forall|i: int, j: int| a.to_fix.len() <= i < j < c.to_fix.len() implies (
        #[trigger] c.to_fix[i]).0 < (#[trigger] c.to_fix[j]).0 by {
            if i < b.to_fix.len() {
                assert(c.to_fix[i] == b.to_fix[i]);
            }
            if j < b.to_fix.len() {
                assert(c.to_fix[j] == b.to_fix[j]);
            }
        }
    }
}

pub broadcast proof fn lemma_emit_grows(st: LowerState, op: OpcodeView)
    ensures
        follows(st, #[trigger] st.emit(op)),
{
    reveal(follows);
}

pub broadcast proof fn lemma_raise_grows(st: LowerState, index: usize)
    ensures
        follows(st, #[trigger] st.raise(index)),
{
    reveal(follows);
}

pub broadcast proof fn lemma_with_call_grows(st: LowerState, noir_call: Seq<NodeId>)
    ensures
        follows(st, #[trigger] st.with_call(noir_call)),
{
    reveal(follows);
}

pub proof fn lemma_take_tmp_grows(st: LowerState)
    ensures
        st.take_tmp() matches Ok((st1, _)) ==> follows(st, st1),
{
    reveal(follows);
}

/// A jump with a placeholder, recorded and emitted.
pub proof fn lemma_jump_grows(st: LowerState, target: BlockId, op: OpcodeView)
    requires
        placeholder(op),
        !(op is PushStack),
    ensures
        follows(st, st.fix_next(target).emit(op)),
{
    reveal(follows);
}

/// The return-address marker and the jump to the callee, recorded and
/// emitted.
pub proof fn lemma_call_grows(st: LowerState, entry: BlockId, func: NodeId)
    ensures
        follows(
            st,
            st.fix_next(BlockId(usize::MAX)).emit(
                OpcodeView::PushStack { source: return_marker() },
            ).fix_next(entry).mark_callee(func).emit(OpcodeView::Jump { destination: 0 }),
        ),
{
    reveal(follows);
}

pub broadcast group group_growth {
    lemma_grows_trans,
    lemma_emit_grows,
    lemma_raise_grows,
    lemma_with_call_grows,
}

} // verus!
