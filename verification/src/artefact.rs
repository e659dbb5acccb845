//! The bytecode object of one function, and the linker that joins such
//! objects into one program.

use crate::errors::{CompileError, Violation};
use crate::field::{field_from_i128, field_one, field_zero, FieldValue};
use crate::opcode;
use crate::opcode::{
    code_view,
    copy_code,
    lemma_code_view_push,
    Opcode,
    OpcodeView,
    RegisterIndex,
    RegisterMemIndex,
    Typ,
};
use crate::ssa::{BlockId, NodeId, SsaContext};
use std::collections::HashMap;
use vstd::prelude::*;
use vstd::set_lib::{lemma_int_range, lemma_len_subset, set_int_range};
use vstd::std_specs::hash::spec_hash_map_iter;
use vstd::std_specs::iter::IteratorSpec;

verus! {

broadcast use vstd::std_specs::hash::group_hash_axioms;

/// The number of instructions that stand before the first linked object.
pub const PREFIX_LEN: usize = 3;

/// The bytecode of a function before it is linked.
#[derive(Clone, Debug)]
pub struct BrilligArtefact {
    /// The functions that the code calls and that are still to be linked in,
    /// each once, in the order in which the calls were met.
    pub functions_to_process: Vec<NodeId>,
    pub byte_code: Vec<Opcode>,
    /// The positions that hold a placeholder, each with the block it stands for.
    pub to_fix: Vec<(usize, BlockId)>,
    /// Where each block that is part of the code begins.
    pub blocks: HashMap<usize, usize>,
}

/// What a [`BrilligArtefact`] holds.
pub struct ArtefactView {
    pub callees: Seq<NodeId>,
    pub code: Seq<OpcodeView>,
    pub to_fix: Seq<(usize, BlockId)>,
    pub blocks: Map<usize, usize>,
}

impl View for BrilligArtefact {
    type V = ArtefactView;

    open spec fn view(&self) -> ArtefactView {
        ArtefactView {
            callees: self.functions_to_process@,
            code: code_view(self.byte_code@),
            to_fix: self.to_fix@,
            blocks: self.blocks@,
        }
    }
}

impl ArtefactView {
    /// The object that holds nothing.
    pub open spec fn empty() -> ArtefactView {
        ArtefactView {
            callees: Seq::empty(),
            code: Seq::empty(),
            to_fix: Seq::empty(),
            blocks: Map::empty(),
        }
    }
}

/// The code that stands at address 0: a jump over a trap and a halt, so that
/// address 1 fails and address 2 stops.
pub open spec fn prologue() -> Seq<OpcodeView> {
    seq![OpcodeView::Jump { destination: 3 }, OpcodeView::Trap, OpcodeView::Stop]
}

/// One recorded position, moved by `offset`.
pub open spec fn shift_fixup(fix: (usize, BlockId), offset: usize) -> (usize, BlockId) {
    ((fix.0 + offset) as usize, fix.1)
}

/// The recorded positions, each moved by `offset`.
pub open spec fn shift_fixups(to_fix: Seq<(usize, BlockId)>, offset: usize) -> Seq<
    (usize, BlockId),
> {
    Seq::new(to_fix.len(), |i: int| shift_fixup(to_fix[i], offset))
}

/// The block entries, each moved by `offset`.
pub open spec fn shift_blocks(blocks: Map<usize, usize>, offset: usize) -> Map<usize, usize> {
    Map::new(|k: usize| blocks.contains_key(k), |k: usize| (blocks[k] + offset) as usize)
}

/// Whether every position and entry of `obj`, moved by `offset`, fits the
/// machine word.
pub open spec fn offsets_fit(obj: ArtefactView, offset: usize) -> bool {
    &&& forall|i: int| 0 <= i < obj.to_fix.len() ==> (#[trigger] obj.to_fix[i]).0 + offset <= usize::MAX
    &&& forall|k: usize| #[trigger] obj.blocks.contains_key(k) ==> obj.blocks[k] + offset <= usize::MAX
}

/// The object `acc` with the object `obj` appended. The first object to be
/// appended is preceded by the prologue. The positions and entries of `obj`
/// move by the length of what stands before it; its entries replace those
/// that `acc` has for the same blocks.
pub open spec fn spec_link_with(acc: ArtefactView, obj: ArtefactView) -> Result<
    ArtefactView,
    CompileError,
> {
    if obj.code.len() == 0 {
        Err(CompileError::Internal(Violation::EmptyArtefact))
    } else {
        let base = if acc.code.len() == 0 {
            prologue()
        } else {
            acc.code
        };
        let offset = base.len() as usize;
        if !offsets_fit(obj, offset) {
            Err(CompileError::Internal(Violation::OffsetOverflow))
        } else {
            Ok(
                ArtefactView {
                    callees: acc.callees,
                    code: base + obj.code,
                    to_fix: acc.to_fix + shift_fixups(obj.to_fix, offset),
                    blocks: acc.blocks.union_prefer_right(shift_blocks(obj.blocks, offset)),
                },
            )
        }
    }
}

/// The placeholder of a return address.
pub open spec fn return_marker() -> RegisterMemIndex {
    RegisterMemIndex::Constant(FieldValue::small(0))
}

/// The code with the placeholder at one recorded position resolved. A jump
/// gets the entry of the block it stands for; a return-address marker gets
/// the address behind the jump that follows it. The placeholder must still
/// be in place, and the block must have an entry.
pub open spec fn patch(code: Seq<OpcodeView>, blocks: Map<usize, usize>, fix: (usize, BlockId)) -> Result<
    Seq<OpcodeView>,
    CompileError,
> {
    let position = fix.0 as int;
    let block = fix.1.0;
    if position >= code.len() {
        Err(CompileError::Internal(Violation::FixupOutOfRange))
    } else {
        match code[position] {
            OpcodeView::Jump { destination } => if destination != 0 {
                Err(CompileError::Internal(Violation::PlaceholderMismatch))
            } else if !blocks.contains_key(block) {
                Err(CompileError::Internal(Violation::UnresolvedSymbol))
            } else {
                Ok(code.update(position, OpcodeView::Jump { destination: blocks[block] }))
            },
            OpcodeView::JumpIfNot { condition, destination } => if destination != 0 {
                Err(CompileError::Internal(Violation::PlaceholderMismatch))
            } else if !blocks.contains_key(block) {
                Err(CompileError::Internal(Violation::UnresolvedSymbol))
            } else {
                Ok(
                    code.update(
                        position,
                        OpcodeView::JumpIfNot { condition, destination: blocks[block] },
                    ),
                )
            },
            OpcodeView::JumpIf { condition, destination } => if destination != 0 {
                Err(CompileError::Internal(Violation::PlaceholderMismatch))
            } else if !blocks.contains_key(block) {
                Err(CompileError::Internal(Violation::UnresolvedSymbol))
            } else {
                Ok(
                    code.update(
                        position,
                        OpcodeView::JumpIf { condition, destination: blocks[block] },
                    ),
                )
            },
            OpcodeView::PushStack { source } => if source != return_marker() {
                Err(CompileError::Internal(Violation::PlaceholderMismatch))
            } else if position + 2 > usize::MAX {
                Err(CompileError::Internal(Violation::OffsetOverflow))
            } else {
                Ok(
                    code.update(
                        position,
                        OpcodeView::PushStack {
                            source: RegisterMemIndex::Constant(
                                FieldValue::small((position + 2) as nat),
                            ),
                        },
                    ),
                )
            },
            _ => Err(CompileError::Internal(Violation::NotAFixup)),
        }
    }
}

/// The code with the placeholders at the recorded positions, from the `k`-th
/// on, resolved in order.
pub open spec fn fix_all(
    code: Seq<OpcodeView>,
    blocks: Map<usize, usize>,
    to_fix: Seq<(usize, BlockId)>,
    k: int,
) -> Result<Seq<OpcodeView>, CompileError>
    decreases to_fix.len() - k,
{
    if k < 0 || k >= to_fix.len() {
        Ok(code)
    } else {
        match patch(code, blocks, to_fix[k]) {
            Err(e) => Err(e),
            Ok(code1) => fix_all(code1, blocks, to_fix, k + 1),
        }
    }
}

/// The functions of the graph whose entry block has no entry in `blocks`.
pub open spec fn unresolved(ctx: &SsaContext, blocks: Map<usize, usize>) -> Set<int> {
    Set::new(
        |i: int|
            0 <= i < ctx.functions@.len() && !blocks.contains_key(
                ctx.functions@[i].entry_block.0,
            ),
    )
}

/// Giving the entry block of one more function an entry, and keeping the
/// entries there are, leaves fewer functions unresolved.
pub proof fn lemma_unresolved_shrinks(
    ctx: &SsaContext,
    before: Map<usize, usize>,
    after: Map<usize, usize>,
    index: int,
)
    requires
        0 <= index < ctx.functions@.len(),
        !before.contains_key(ctx.functions@[index].entry_block.0),
        after.contains_key(ctx.functions@[index].entry_block.0),
        forall|k: usize| before.contains_key(k) ==> after.contains_key(k),
    ensures
        unresolved(ctx, before).finite(),
        unresolved(ctx, after).len() < unresolved(ctx, before).len(),
{
    let n = ctx.functions@.len() as int;
    lemma_int_range(0, n);
    assert(unresolved(ctx, before).subset_of(set_int_range(0, n)));
    lemma_len_subset(unresolved(ctx, before), set_int_range(0, n));
    let smaller = unresolved(ctx, before).remove(index);
    assert(unresolved(ctx, before).contains(index));
    assert(unresolved(ctx, after).subset_of(smaller));
    lemma_len_subset(unresolved(ctx, after), smaller);
}

/// The object `acc` after every function in the queue, and every function
/// that these call, is appended, unless its entry block has an entry
/// already. The queue is a stack. A node that stands for no function of the
/// program is passed over. An object that does not hold the entry block of
/// its own function is an unresolved symbol.
pub open spec fn link_closure(ctx: &SsaContext, acc: ArtefactView, queue: Seq<NodeId>) -> Result<
    ArtefactView,
    CompileError,
>
    decreases unresolved(ctx, acc.blocks).len(), queue.len(),
{
    if queue.len() == 0 {
        Ok(acc)
    } else {
        let func = queue.last();
        let rest = queue.drop_last();
        match ctx.spec_try_get_ssa_func(func) {
            None => link_closure(ctx, acc, rest),
            Some(callee) => if acc.blocks.contains_key(callee.entry_block.0) {
                link_closure(ctx, acc, rest)
            } else {
                match spec_link_with(acc, callee.obj@) {
                    Err(e) => Err(e),
                    Ok(acc1) => if !acc1.blocks.contains_key(callee.entry_block.0) {
                        Err(CompileError::Internal(Violation::UnresolvedSymbol))
                    } else {
                        proof {
                            lemma_unresolved_shrinks(
                                ctx,
                                acc.blocks,
                                acc1.blocks,
                                ctx.spec_try_get_func_id(func).unwrap() as int,
                            );
                        }
                        link_closure(ctx, acc1, rest + callee.obj@.callees)
                    },
                }
            },
        }
    }
}

/// The object `acc` after `obj` is linked into it, with every function that
/// `obj` calls, directly or not, and with every placeholder resolved. Its code
/// is the program.
pub open spec fn spec_link(acc: ArtefactView, ctx: &SsaContext, obj: ArtefactView) -> Result<
    ArtefactView,
    CompileError,
> {
    match spec_link_with(acc, obj) {
        Err(e) => Err(e),
        Ok(acc1) => match link_closure(ctx, acc1, obj.callees) {
            Err(e) => Err(e),
            Ok(acc2) => match fix_all(acc2.code, acc2.blocks, acc2.to_fix, 0) {
                Err(e) => Err(e),
                Ok(code) => Ok(ArtefactView { code, ..acc2 }),
            },
        },
    }
}

/// The view of a sequence with one opcode replaced is the view with that one
/// replaced.
pub proof fn lemma_code_view_update(code: Seq<Opcode>, i: int, op: Opcode)
    requires
        0 <= i < code.len(),
    ensures
        code_view(code.update(i, op)) == code_view(code).update(i, op@),
{
    assert(code_view(code.update(i, op)) =~= code_view(code).update(i, op@));
}

/// A copy of a list of nodes.
fn copy_nodes(nodes: &Vec<NodeId>) -> (r: Vec<NodeId>)
    ensures
        r@ == nodes@,
{
    let mut r: Vec<NodeId> = Vec::new();
    let mut i: usize = 0;
    while i < nodes.len()
        invariant
            i <= nodes@.len(),
            r@ == nodes@.subrange(0, i as int),
        decreases nodes@.len() - i,
    {
        r.push(nodes[i]);
        i += 1;
        assert(r@ =~= nodes@.subrange(0, i as int));
    }
    assert(r@ =~= nodes@);
    r
}

impl BrilligArtefact {
    /// An object that holds nothing.
    pub fn new() -> (r: BrilligArtefact)
        ensures
            r@ == ArtefactView::empty(),
    {
        let r = BrilligArtefact {
            functions_to_process: Vec::new(),
            byte_code: Vec::new(),
            to_fix: Vec::new(),
            blocks: HashMap::new(),
        };
        assert(r@.code =~= Seq::<OpcodeView>::empty());
        r
    }

    /// Resolves the placeholder at one recorded position.
    fn patch(&mut self, position: usize, block: BlockId) -> (r: Result<(), CompileError>)
        ensures
            match r {
                Ok(_) => patch(old(self)@.code, old(self)@.blocks, (position, block)) == Ok::<
                    Seq<OpcodeView>,
                    CompileError,
                >(final(self)@.code),
                Err(e) => patch(old(self)@.code, old(self)@.blocks, (position, block)) == Err::<
                    Seq<OpcodeView>,
                    CompileError,
                >(e),
            },
            final(self)@.callees == old(self)@.callees,
            final(self)@.to_fix == old(self)@.to_fix,
            final(self)@.blocks == old(self)@.blocks,
    {
        if position >= self.byte_code.len() {
            return Err(CompileError::Internal(Violation::FixupOutOfRange));
        }
        let patched = match &self.byte_code[position] {
            Opcode::Jump { destination } => {
                if *destination != 0 {
                    return Err(CompileError::Internal(Violation::PlaceholderMismatch));
                }
                match self.blocks.get(&block.0) {
                    None => {
                        return Err(CompileError::Internal(Violation::UnresolvedSymbol));
                    },
                    Some(current) => Opcode::Jump { destination: *current },
                }
            },
            Opcode::JumpIfNot { condition, destination } => {
                if *destination != 0 {
                    return Err(CompileError::Internal(Violation::PlaceholderMismatch));
                }
                match self.blocks.get(&block.0) {
                    None => {
                        return Err(CompileError::Internal(Violation::UnresolvedSymbol));
                    },
                    Some(current) => Opcode::JumpIfNot {
                        condition: *condition,
                        destination: *current,
                    },
                }
            },
            Opcode::JumpIf { condition, destination } => {
                if *destination != 0 {
                    return Err(CompileError::Internal(Violation::PlaceholderMismatch));
                }
                match self.blocks.get(&block.0) {
                    None => {
                        return Err(CompileError::Internal(Violation::UnresolvedSymbol));
                    },
                    Some(current) => Opcode::JumpIf { condition: *condition, destination: *current },
                }
            },
            Opcode::PushStack { source } => {
                if *source != RegisterMemIndex::Constant(field_zero()) {
                    return Err(CompileError::Internal(Violation::PlaceholderMismatch));
                }
                if position >= usize::MAX - 1 {
                    return Err(CompileError::Internal(Violation::OffsetOverflow));
                }
                Opcode::PushStack {
                    source: RegisterMemIndex::Constant(field_from_i128((position + 2) as i128)),
                }
            },
            _ => {
                return Err(CompileError::Internal(Violation::NotAFixup));
            },
        };
        proof {
            lemma_code_view_update(self.byte_code@, position as int, patched);
        }
        self.byte_code.set(position, patched);
        Ok(())
    }

    /// Resolves every placeholder.
    pub fn fix_jumps(&mut self) -> (r: Result<(), CompileError>)
        ensures
            match r {
                Ok(_) => fix_all(old(self)@.code, old(self)@.blocks, old(self)@.to_fix, 0) == Ok::<
                    Seq<OpcodeView>,
                    CompileError,
                >(final(self)@.code),
                Err(e) => fix_all(old(self)@.code, old(self)@.blocks, old(self)@.to_fix, 0)
                    == Err::<Seq<OpcodeView>, CompileError>(e),
            },
            final(self)@.callees == old(self)@.callees,
            final(self)@.to_fix == old(self)@.to_fix,
            final(self)@.blocks == old(self)@.blocks,
    {
        let mut k: usize = 0;
        while k < self.to_fix.len()
            invariant
                k <= self.to_fix@.len(),
                self@.callees == old(self)@.callees,
                self@.to_fix == old(self)@.to_fix,
                self@.blocks == old(self)@.blocks,
                fix_all(self@.code, self@.blocks, self@.to_fix, k as int) == fix_all(
                    old(self)@.code,
                    old(self)@.blocks,
                    old(self)@.to_fix,
                    0,
                ),
            decreases self.to_fix@.len() - k,
        {
            let (position, block) = self.to_fix[k];
            self.patch(position, block)?;
            k += 1;
        }
        Ok(())
    }

    /// Appends the positions of `obj`, moved by `offset`.
    fn append_fixups(&mut self, obj: &BrilligArtefact, offset: usize) -> (fit: bool)
        ensures
            fit == (forall|i: int|
                0 <= i < obj@.to_fix.len() ==> (#[trigger] obj@.to_fix[i]).0 + offset
                    <= usize::MAX),
            fit ==> final(self)@.to_fix == old(self)@.to_fix + shift_fixups(obj@.to_fix, offset),
            final(self).byte_code == old(self).byte_code,
            final(self).blocks == old(self).blocks,
            final(self).functions_to_process == old(self).functions_to_process,
    {
        let mut i: usize = 0;
        while i < obj.to_fix.len()
            invariant
                i <= obj.to_fix@.len(),
                forall|j: int| 0 <= j < i ==> (#[trigger] obj.to_fix@[j]).0 + offset <= usize::MAX,
                self.to_fix@ == old(self).to_fix@ + shift_fixups(
                    obj.to_fix@.subrange(0, i as int),
                    offset,
                ),
                self.byte_code == old(self).byte_code,
                self.blocks == old(self).blocks,
                self.functions_to_process == old(self).functions_to_process,
            decreases obj.to_fix@.len() - i,
        {
            let (position, block) = obj.to_fix[i];
            if position > usize::MAX - offset {
                assert(obj@.to_fix[i as int].0 + offset > usize::MAX);
                return false;
            }
            self.to_fix.push((position + offset, block));
            i += 1;
            assert(self.to_fix@ =~= old(self).to_fix@ + shift_fixups(
                obj.to_fix@.subrange(0, i as int),
                offset,
            ));
        }
        assert(obj.to_fix@.subrange(0, i as int) =~= obj.to_fix@);
        true
    }

    /// Records the entries of `obj`, moved by `offset`.
    fn merge_blocks(&mut self, obj: &BrilligArtefact, offset: usize) -> (fit: bool)
        ensures
            fit == (forall|k: usize| #[trigger]
                obj@.blocks.contains_key(k) ==> obj@.blocks[k] + offset <= usize::MAX),
            fit ==> final(self)@.blocks == old(self)@.blocks.union_prefer_right(
                shift_blocks(obj@.blocks, offset),
            ),
            final(self).byte_code == old(self).byte_code,
            final(self).to_fix == old(self).to_fix,
            final(self).functions_to_process == old(self).functions_to_process,
    {
        let ghost start = self.blocks@;
        let ghost source = obj.blocks@;
        let ghost all = spec_hash_map_iter(&obj.blocks).remaining();
        let ghost mut n: int = 0;
        for entry in it: obj.blocks.iter()
            invariant
                it.seq() == all,
                all == spec_hash_map_iter(&obj.blocks).remaining(),
                source == obj.blocks@,
                n == it.index(),
                0 <= n <= all.len(),
                forall|j: int| 0 <= j < n ==> (*all[j].1) + offset <= usize::MAX,
                forall|k: usize|
                    self.blocks@.contains_key(k) <==> (start.contains_key(k) || exists|j: int|
                        0 <= j < n && *all[j].0 == k),
                forall|k: usize| #[trigger]
                    self.blocks@.contains_key(k) ==> self.blocks@[k] == if (exists|j: int|
                        0 <= j < n && *all[j].0 == k) {
                        (source[k] + offset) as usize
                    } else {
                        start[k]
                    },
                self.byte_code == old(self).byte_code,
                self.to_fix == old(self).to_fix,
                self.functions_to_process == old(self).functions_to_process,
        {
            let (k, v) = entry;
            assert(source.contains_key(*k) && source[*k] == *v);
            assert(*all[n].0 == *k);
            if *v > usize::MAX - offset {
                assert(obj@.blocks.contains_key(*k) && obj@.blocks[*k] + offset > usize::MAX);
                return false;
            }
            let ghost previous = self.blocks@;
            self.blocks.insert(*k, *v + offset);
            proof {
                assert(self.blocks@ == previous.insert(*k, (*v + offset) as usize));
                assert forall|key: usize|
                    self.blocks@.contains_key(key) <==> (start.contains_key(key) || exists|j: int|
                        0 <= j < n + 1 && *all[j].0 == key) by {
                    if key == *k {
                        assert(0 <= n < n + 1 && *all[n].0 == key);
                    } else if previous.contains_key(key) {
                        if !start.contains_key(key) {
                            let j = choose|j: int| 0 <= j < n && *all[j].0 == key;
                            assert(0 <= j < n + 1 && *all[j].0 == key);
                        }
                    } else {
                        if exists|j: int| 0 <= j < n + 1 && *all[j].0 == key {
                            let j = choose|j: int| 0 <= j < n + 1 && *all[j].0 == key;
                            assert(0 <= j < n && *all[j].0 == key);
                        }
                    }
                }
                assert forall|key: usize| #[trigger]
                    self.blocks@.contains_key(key) implies self.blocks@[key] == if (exists|j: int|
                        0 <= j < n + 1 && *all[j].0 == key) {
                        (source[key] + offset) as usize
                    } else {
                        start[key]
                    } by {
                    if key == *k {
                        assert(0 <= n < n + 1 && *all[n].0 == key);
                    } else {
                        assert(previous.contains_key(key));
                        if exists|j: int| 0 <= j < n && *all[j].0 == key {
                            let j = choose|j: int| 0 <= j < n && *all[j].0 == key;
                            assert(0 <= j < n + 1 && *all[j].0 == key);
                        } else {
                            if exists|j: int| 0 <= j < n + 1 && *all[j].0 == key {
                                let j = choose|j: int| 0 <= j < n + 1 && *all[j].0 == key;
                                assert(0 <= j < n && *all[j].0 == key);
                            }
                        }
                    }
                }
                n = n + 1;
            }
        }
        proof {
            assert(n == all.len());
            assert forall|k: usize| source.contains_key(k) implies (exists|j: int|
                0 <= j < n && *all[j].0 == k) by {
                let j = all.index_of((&k, &source[k]));
                assert(*all[j].0 == k);
            }
            assert forall|k: usize| (exists|j: int| 0 <= j < n && *all[j].0 == k)
                implies source.contains_key(k) by {
                let j = choose|j: int| 0 <= j < n && *all[j].0 == k;
                assert(source.contains_key(*all[j].0));
            }
            assert forall|k: usize| #[trigger] source.contains_key(k) implies source[k] + offset
                <= usize::MAX by {
                let j = all.index_of((&k, &source[k]));
                assert(*all[j].1 == source[k]);
            }
            let merged = start.union_prefer_right(shift_blocks(source, offset));
            assert forall|k: usize| self.blocks@.contains_key(k) == merged.contains_key(k) by {
                let shifted = shift_blocks(source, offset);
                assert(shifted.contains_key(k) == source.contains_key(k));
                assert(source.contains_key(k) == (exists|j: int| 0 <= j < n && *all[j].0 == k));
                assert(merged.dom() == start.dom().union(shifted.dom()));
                assert(merged.contains_key(k) == (start.contains_key(k) || shifted.contains_key(
                    k,
                )));
                assert(self.blocks@.contains_key(k) == (start.contains_key(k) || exists|j: int|
                    0 <= j < n && *all[j].0 == k));
            }
            assert forall|k: usize| self.blocks@.contains_key(k) implies self.blocks@[k]
                == merged[k] by {
                assert(shift_blocks(source, offset).contains_key(k) == source.contains_key(k));
                assert(source.contains_key(k) == (exists|j: int| 0 <= j < n && *all[j].0 == k));
            }
            assert(self.blocks@ =~= merged);
        }
        true
    }

    /// Appends the code of `obj`.
    fn append_code(&mut self, obj: &BrilligArtefact)
        ensures
            final(self)@.code == old(self)@.code + obj@.code,
            final(self).to_fix == old(self).to_fix,
            final(self).blocks == old(self).blocks,
            final(self).functions_to_process == old(self).functions_to_process,
    {
        let mut i: usize = 0;
        while i < obj.byte_code.len()
            invariant
                i <= obj.byte_code@.len(),
                self@.code == old(self)@.code + obj@.code.subrange(0, i as int),
                self.to_fix == old(self).to_fix,
                self.blocks == old(self).blocks,
                self.functions_to_process == old(self).functions_to_process,
            decreases obj.byte_code@.len() - i,
        {
            let op = obj.byte_code[i].duplicate();
            proof {
                lemma_code_view_push(self.byte_code@, op);
            }
            self.byte_code.push(op);
            i += 1;
            assert(self@.code =~= old(self)@.code + obj@.code.subrange(0, i as int));
        }
        assert(obj@.code.subrange(0, i as int) =~= obj@.code);
    }

    /// Appends the object `obj` to this one.
    pub fn link_with(&mut self, obj: &BrilligArtefact) -> (r: Result<(), CompileError>)
        ensures
            match r {
                Ok(_) => spec_link_with(old(self)@, obj@) == Ok::<ArtefactView, CompileError>(
                    final(self)@,
                ),
                Err(e) => spec_link_with(old(self)@, obj@) == Err::<ArtefactView, CompileError>(e),
            },
    {
        if obj.byte_code.len() == 0 {
            return Err(CompileError::Internal(Violation::EmptyArtefact));
        }
        if self.byte_code.len() == 0 {
            proof {
                lemma_code_view_push(self.byte_code@, Opcode::Jump { destination: PREFIX_LEN });
            }
            self.byte_code.push(Opcode::Jump { destination: PREFIX_LEN });
            proof {
                lemma_code_view_push(self.byte_code@, Opcode::Trap);
            }
            self.byte_code.push(Opcode::Trap);
            proof {
                lemma_code_view_push(self.byte_code@, Opcode::Stop);
            }
            self.byte_code.push(Opcode::Stop);
            assert(self@.code =~= prologue());
        }
        let offset = self.byte_code.len();
        if !self.append_fixups(obj, offset) {
            return Err(CompileError::Internal(Violation::OffsetOverflow));
        }
        if !self.merge_blocks(obj, offset) {
            return Err(CompileError::Internal(Violation::OffsetOverflow));
        }
        self.append_code(obj);
        Ok(())
    }

    /// Links `obj` into this object, together with every function that it
    /// calls, resolves the placeholders and returns the program.
    pub fn link(&mut self, ctx: &SsaContext, obj: &BrilligArtefact) -> (r: Result<
        Vec<Opcode>,
        CompileError,
    >)
        ensures
            match r {
                Ok(code) => spec_link(old(self)@, ctx, obj@) == Ok::<ArtefactView, CompileError>(
                    final(self)@,
                ) && code_view(code@) == final(self)@.code,
                Err(e) => spec_link(old(self)@, ctx, obj@) == Err::<ArtefactView, CompileError>(e),
            },
    {
        self.link_with(obj)?;
        let ghost first = self@;
        let mut queue = copy_nodes(&obj.functions_to_process);
        while queue.len() > 0
            invariant
                spec_link_with(old(self)@, obj@) == Ok::<ArtefactView, CompileError>(first),
                link_closure(ctx, self@, queue@) == link_closure(ctx, first, obj@.callees),
            decreases unresolved(ctx, self@.blocks).len(), queue@.len(),
        {
            let ghost before = queue@;
            let ghost blocks = self@.blocks;
            let func = queue[queue.len() - 1];
            let _ = queue.pop();
            assert(queue@ =~= before.drop_last());
            if let Some(callee) = ctx.try_get_ssa_func(func) {
                if !self.blocks.contains_key(&callee.entry_block.0) {
                    self.link_with(&callee.obj)?;
                    if !self.blocks.contains_key(&callee.entry_block.0) {
                        return Err(CompileError::Internal(Violation::UnresolvedSymbol));
                    }
                    let mut functions = copy_nodes(&callee.obj.functions_to_process);
                    queue.append(&mut functions);
                    proof {
                        lemma_unresolved_shrinks(
                            ctx,
                            blocks,
                            self@.blocks,
                            ctx.spec_try_get_func_id(func).unwrap() as int,
                        );
                    }
                }
            }
        }
        let ghost closed = self@;
        self.fix_jumps()?;
        assert(self@ == (ArtefactView { code: self@.code, ..closed }));
        Ok(copy_code(&self.byte_code))
    }
}

impl Default for BrilligArtefact {
    fn default() -> (r: BrilligArtefact)
        ensures
            r@ == ArtefactView::empty(),
    {
        BrilligArtefact::new()
    }
}

/// The code that inverts the field element in register 0, where it is not
/// zero.
pub open spec fn spec_directive_invert() -> Seq<OpcodeView> {
    seq![
        OpcodeView::JumpIfNot {
            condition: RegisterMemIndex::Register(RegisterIndex(0)),
            destination: 2,
        },
        OpcodeView::BinaryOp {
            result_type: Typ::Field,
            op: opcode::BinaryOp::Div,
            lhs: RegisterMemIndex::Constant(FieldValue::small(1)),
            rhs: RegisterMemIndex::Register(RegisterIndex(0)),
            result: RegisterIndex(0),
        },
    ]
}

pub fn directive_invert() -> (code: Vec<Opcode>)
    ensures
        code_view(code@) == spec_directive_invert(),
{
    let mut code: Vec<Opcode> = Vec::new();
    code.push(
        Opcode::JumpIfNot {
            condition: RegisterMemIndex::Register(RegisterIndex(0)),
            destination: 2,
        },
    );
    code.push(
        Opcode::BinaryOp {
            result_type: Typ::Field,
            op: opcode::BinaryOp::Div,
            lhs: RegisterMemIndex::Constant(field_one()),
            rhs: RegisterMemIndex::Register(RegisterIndex(0)),
            result: RegisterIndex(0),
        },
    );
    assert(code_view(code@) =~= spec_directive_invert());
    code
}

} // verus!
