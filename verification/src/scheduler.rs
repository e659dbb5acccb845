//! The block scheduler: lowers the blocks of a function in the order of a
//! depth-first walk, each one once.

use crate::artefact::{ArtefactView, BrilligArtefact};
use crate::errors::{CompileError, Violation};
use crate::laws::law_compiled_object_is_well_formed;
use crate::lowering::lower_instruction;
use crate::opcode::{Opcode, OpcodeView};
use crate::phi::spec_handle_phi_instructions;
use crate::resolver::resolve;
use crate::ssa::{BasicBlock, BlockId, NodeId, Operation, SsaContext};
use crate::state::{BrilligGen, LowerState};
use crate::wellformed::well_formed;
use vstd::prelude::*;
use vstd::set_lib::{lemma_int_range, lemma_len_subset, set_int_range};

verus! {

broadcast use vstd::std_specs::hash::group_hash_axioms;

/// The state after the instructions from the `k`-th up to, and without, the
/// one at `end` are lowered in order.
pub open spec fn lower_all(
    ctx: &SsaContext,
    st: LowerState,
    instructions: Seq<NodeId>,
    k: int,
    end: int,
) -> Result<LowerState, CompileError>
    decreases end - k,
{
    if k < 0 || k >= end || k >= instructions.len() {
        Ok(st)
    } else {
        match ctx.spec_try_get_instruction(instructions[k]) {
            None => Err(CompileError::Internal(Violation::NotAnInstruction)),
            Some(ins) => match lower_instruction(ctx, st, ins) {
                Err(e) => Err(e),
                Ok(st1) => lower_all(ctx, st1, instructions, k + 1, end),
            },
        }
    }
}

/// Whether the last instruction of a block is a jump.
pub open spec fn ends_in_jump(ctx: &SsaContext, block: BasicBlock) -> bool {
    block.instructions@.len() > 0 && match ctx.spec_try_get_instruction(
        block.instructions@.last(),
    ) {
        Some(ins) => ins.operation is Jne || ins.operation is Jeq || ins.operation is Jmp,
        None => false,
    }
}

/// The jump that leads on to `left`, where there is such a successor.
pub open spec fn fallthrough(left: Option<BlockId>) -> Option<(OpcodeView, BlockId)> {
    match left {
        Some(target) => Some((OpcodeView::Jump { destination: 0 }, target)),
        None => None,
    }
}

/// The state after the last instruction of `block` is lowered, and the jump
/// that ends the block, if any, with the block it leads to. A jump in the
/// graph becomes a jump with a placeholder; any other instruction is lowered
/// as usual and followed by a jump to the fall-through successor.
pub open spec fn lower_last(ctx: &SsaContext, st: LowerState, block: BasicBlock) -> Result<
    (LowerState, Option<(OpcodeView, BlockId)>),
    CompileError,
> {
    if block.instructions@.len() == 0 {
        Ok((st, fallthrough(block.left)))
    } else {
        match ctx.spec_try_get_instruction(block.instructions@.last()) {
            None => Err(CompileError::Internal(Violation::NotAnInstruction)),
            Some(ins) => match ins.operation {
                Operation::Jne(cond, target) => match resolve(ctx, st, cond) {
                    Err(e) => Err(e),
                    Ok((st1, condition)) => Ok(
                        (st1, Some((OpcodeView::JumpIfNot { condition, destination: 0 }, target))),
                    ),
                },
                Operation::Jeq(cond, target) => match resolve(ctx, st, cond) {
                    Err(e) => Err(e),
                    Ok((st1, condition)) => Ok(
                        (st1, Some((OpcodeView::JumpIf { condition, destination: 0 }, target))),
                    ),
                },
                Operation::Jmp(target) => Ok(
                    (st, Some((OpcodeView::Jump { destination: 0 }, target))),
                ),
                _ => match lower_instruction(ctx, st, ins) {
                    Err(e) => Err(e),
                    Ok(st1) => Ok((st1, fallthrough(block.left))),
                },
            },
        }
    }
}

/// The state after the jump that ends a block is emitted, as a placeholder.
pub open spec fn emit_jump(st: LowerState, jump: Option<(OpcodeView, BlockId)>) -> LowerState {
    match jump {
        Some((op, target)) => st.fix_next(target).emit(op),
        None => st,
    }
}

/// The blocks to visit after the block `id`: the join of the conditional that
/// it opens, if it opens one, then its two successors, the one that is fallen
/// through to last.
pub open spec fn successors(ctx: &SsaContext, id: BlockId, block: BasicBlock) -> Result<
    Seq<BlockId>,
    CompileError,
> {
    let after = match block.right {
        Some(right) => seq![right],
        None => Seq::empty(),
    } + match block.left {
        Some(left) => seq![left],
        None => Seq::empty(),
    };
    if ctx.spec_get_if_condition(&block) is Some {
        match ctx.spec_find_join(id) {
            None => Err(CompileError::Internal(Violation::MissingJoin)),
            Some(exit) => Ok(seq![exit] + after),
        }
    } else {
        Ok(after)
    }
}

/// The state after the block `id` is lowered, and the blocks to visit after
/// it. All instructions but the last are lowered, then the last; the moves
/// for the phis of the fall-through successor follow, then the jump that ends
/// the block. A block that ends in no jump and has no successor to fall
/// through to ends with a return to the caller.
pub open spec fn spec_process_block(ctx: &SsaContext, st: LowerState, id: BlockId) -> Result<
    (LowerState, Seq<BlockId>),
    CompileError,
> {
    match ctx.spec_block(id) {
        None => Err(CompileError::Internal(Violation::UnknownBlock)),
        Some(block) => match lower_all(
            ctx,
            st,
            block.instructions@,
            0,
            block.instructions@.len() - 1,
        ) {
            Err(e) => Err(e),
            Ok(st1) => match lower_last(ctx, st1, block) {
                Err(e) => Err(e),
                Ok((st2, jump)) => match (match block.left {
                    Some(left) => spec_handle_phi_instructions(ctx, st2, id, left),
                    None => Ok(st2),
                }) {
                    Err(e) => Err(e),
                    Ok(st3) => match successors(ctx, id, block) {
                        Err(e) => Err(e),
                        Ok(children) => {
                            let st4 = emit_jump(st3, jump);
                            Ok(
                                (
                                    if jump is None {
                                        st4.emit(OpcodeView::CallBack)
                                    } else {
                                        st4
                                    },
                                    children,
                                ),
                            )
                        },
                    },
                },
            },
        }
    }
}

/// The queue after the children of `current`, from the `k`-th on, are added:
/// each that stands for a block and is not queued yet, provided it is not the
/// a block in which paths meet, or `current` is the block that dominates it.
pub open spec fn enqueue(
    ctx: &SsaContext,
    queue: Seq<BlockId>,
    children: Seq<BlockId>,
    current: BlockId,
    k: int,
) -> Result<Seq<BlockId>, CompileError>
    decreases children.len() - k,
{
    if k < 0 || k >= children.len() {
        Ok(queue)
    } else if children[k].spec_is_dummy() || queue.contains(children[k]) {
        enqueue(ctx, queue, children, current, k + 1)
    } else {
        match ctx.spec_block(children[k]) {
            None => Err(CompileError::Internal(Violation::UnknownBlock)),
            Some(block) => if !block.spec_is_join() || block.dominator == Some(current) {
                enqueue(ctx, queue.push(children[k]), children, current, k + 1)
            } else {
                enqueue(ctx, queue, children, current, k + 1)
            },
        }
    }
}

/// The blocks of a graph of `n` blocks that no entry of `table` records.
pub open spec fn unscheduled(n: nat, table: Map<usize, usize>) -> Set<int> {
    Set::new(|i: int| 0 <= i < n && i <= usize::MAX && !table.contains_key(i as usize))
}

/// Recording one more block leaves fewer blocks to schedule.
pub proof fn lemma_unscheduled_shrinks(n: nat, table: Map<usize, usize>, block: usize, start: usize)
    requires
        block < n,
        !table.contains_key(block),
    ensures
        unscheduled(n, table).finite(),
        unscheduled(n, table.insert(block, start)).len() < unscheduled(n, table).len(),
{
    let before = unscheduled(n, table);
    let after = unscheduled(n, table.insert(block, start));
    lemma_int_range(0, n as int);
    assert(before.subset_of(set_int_range(0, n as int)));
    lemma_len_subset(before, set_int_range(0, n as int));
    assert(before.contains(block as int));
    assert forall|i: int| after.contains(i) <==> before.remove(block as int).contains(i) by {
        if 0 <= i < n && i <= usize::MAX {
            assert(i as usize == i);
        }
    }
    assert(after =~= before.remove(block as int));
}

/// The state and the table of block entries after every block in the queue,
/// and every block that these lead to, is lowered. The queue is a stack. A
/// block that is met a second time is an error.
pub open spec fn schedule(
    ctx: &SsaContext,
    st: LowerState,
    table: Map<usize, usize>,
    queue: Seq<BlockId>,
) -> Result<(LowerState, Map<usize, usize>), CompileError>
    decreases unscheduled(ctx.blocks@.len(), table).len(),
{
    if queue.len() == 0 {
        Ok((st, table))
    } else {
        let current = queue.last();
        if current.0 >= ctx.blocks@.len() {
            Err(CompileError::Internal(Violation::UnknownBlock))
        } else if table.contains_key(current.0) {
            Err(CompileError::Internal(Violation::BlockRevisited))
        } else {
            match spec_process_block(ctx, st, current) {
                Err(e) => Err(e),
                Ok((st1, children)) => match enqueue(
                    ctx,
                    queue.drop_last(),
                    children,
                    current,
                    0,
                ) {
                    Err(e) => Err(e),
                    Ok(queue1) => {
                        proof {
                            lemma_unscheduled_shrinks(
                                ctx.blocks@.len(),
                                table,
                                current.0,
                                st.code.len() as usize,
                            );
                        }
                        schedule(ctx, st1, table.insert(current.0, st.code.len() as usize), queue1)
                    },
                },
            }
        }
    }
}

/// The object that a finished lowering leaves.
pub open spec fn artefact_of(st: LowerState, table: Map<usize, usize>) -> ArtefactView {
    ArtefactView { callees: st.callees, code: st.code, to_fix: st.to_fix, blocks: table }
}

/// The object of the function whose entry block is `block`.
pub open spec fn spec_compile(ctx: &SsaContext, block: BlockId) -> Result<
    ArtefactView,
    CompileError,
> {
    match schedule(ctx, LowerState::initial(), Map::empty(), seq![block]) {
        Err(e) => Err(e),
        Ok((st, table)) => Ok(artefact_of(st, table)),
    }
}

/// What the jump that ends a block holds.
pub open spec fn jump_view(jump: Option<(Opcode, BlockId)>) -> Option<(OpcodeView, BlockId)> {
    match jump {
        Some((op, target)) => Some((op@, target)),
        None => None,
    }
}

/// Whether `id` is in the queue.
fn queued(queue: &Vec<BlockId>, id: BlockId) -> (r: bool)
    ensures
        r == queue@.contains(id),
{
    let mut i: usize = 0;
    while i < queue.len()
        invariant
            i <= queue@.len(),
            forall|j: int| 0 <= j < i ==> queue@[j] != id,
        decreases queue@.len() - i,
    {
        if queue[i] == id {
            return true;
        }
        i += 1;
    }
    false
}

impl BrilligGen {
    /// Lowers all instructions of a block but the last.
    fn lower_body(&mut self, ctx: &SsaContext, block: &BasicBlock) -> (r: Result<(), CompileError>)
        ensures
            match r {
                Ok(_) => lower_all(
                    ctx,
                    old(self).state(),
                    block.instructions@,
                    0,
                    block.instructions@.len() - 1,
                ) == Ok::<LowerState, CompileError>(final(self).state()),
                Err(e) => lower_all(
                    ctx,
                    old(self).state(),
                    block.instructions@,
                    0,
                    block.instructions@.len() - 1,
                ) == Err::<LowerState, CompileError>(e),
            },
            final(self).table() == old(self).table(),
    {
        let end = if block.instructions.len() == 0 {
            0
        } else {
            block.instructions.len() - 1
        };
        let mut k: usize = 0;
        while k < end
            invariant
                k <= end < block.instructions@.len() || k == end == 0,
                end >= block.instructions@.len() - 1,
                lower_all(
                    ctx,
                    self.state(),
                    block.instructions@,
                    k as int,
                    block.instructions@.len() - 1,
                ) == lower_all(
                    ctx,
                    old(self).state(),
                    block.instructions@,
                    0,
                    block.instructions@.len() - 1,
                ),
                self.table() == old(self).table(),
            decreases block.instructions@.len() - k,
        {
            let ins = match ctx.try_get_instruction(block.instructions[k]) {
                None => {
                    return Err(CompileError::Internal(Violation::NotAnInstruction));
                },
                Some(ins) => ins,
            };
            self.instruction_to_bc(ctx, ins)?;
            k += 1;
        }
        Ok(())
    }

    /// Lowers the last instruction of a block, and tells the jump that ends
    /// the block.
    fn lower_last(&mut self, ctx: &SsaContext, block: &BasicBlock) -> (r: Result<
        Option<(Opcode, BlockId)>,
        CompileError,
    >)
        ensures
            match r {
                Ok(jump) => lower_last(ctx, old(self).state(), *block) == Ok::<
                    (LowerState, Option<(OpcodeView, BlockId)>),
                    CompileError,
                >((final(self).state(), jump_view(jump))),
                Err(e) => lower_last(ctx, old(self).state(), *block) == Err::<
                    (LowerState, Option<(OpcodeView, BlockId)>),
                    CompileError,
                >(e),
            },
            final(self).table() == old(self).table(),
    {
        let onward = match block.left {
            Some(target) => Some((Opcode::Jump { destination: 0 }, target)),
            None => None,
        };
        if block.instructions.len() == 0 {
            return Ok(onward);
        }
        let last = block.instructions[block.instructions.len() - 1];
        let ins = match ctx.try_get_instruction(last) {
            None => {
                return Err(CompileError::Internal(Violation::NotAnInstruction));
            },
            Some(ins) => ins,
        };
        match ins.operation {
            Operation::Jne(cond, target) => {
                let condition = self.node_2_register(ctx, cond)?;
                Ok(Some((Opcode::JumpIfNot { condition, destination: 0 }, target)))
            },
            Operation::Jeq(cond, target) => {
                let condition = self.node_2_register(ctx, cond)?;
                Ok(Some((Opcode::JumpIf { condition, destination: 0 }, target)))
            },
            Operation::Jmp(target) => Ok(Some((Opcode::Jump { destination: 0 }, target))),
            _ => {
                self.instruction_to_bc(ctx, ins)?;
                Ok(onward)
            },
        }
    }

    /// Generates the code of one block, and tells which blocks to visit next.
    pub fn process_block(&mut self, ctx: &SsaContext, block_id: BlockId) -> (r: Result<
        Vec<BlockId>,
        CompileError,
    >)
        ensures
            match r {
                Ok(children) => spec_process_block(ctx, old(self).state(), block_id) == Ok::<
                    (LowerState, Seq<BlockId>),
                    CompileError,
                >((final(self).state(), children@)) && final(self).table() == old(
                    self,
                ).table().insert(block_id.0, old(self).state().code.len() as usize),
                Err(e) => spec_process_block(ctx, old(self).state(), block_id) == Err::<
                    (LowerState, Seq<BlockId>),
                    CompileError,
                >(e),
            },
    {
        let block = match ctx.block(block_id) {
            None => {
                return Err(CompileError::Internal(Violation::UnknownBlock));
            },
            Some(block) => block,
        };
        let start = self.code_len();
        self.lower_body(ctx, block)?;
        let jump = self.lower_last(ctx, block)?;
        if let Some(left) = block.left {
            self.handle_phi_instructions(block_id, left, ctx)?;
        }
        let mut result: Vec<BlockId> = Vec::new();
        if ctx.get_if_condition(block).is_some() {
            match ctx.find_join(block_id) {
                None => {
                    return Err(CompileError::Internal(Violation::MissingJoin));
                },
                Some(exit) => {
                    result.push(exit);
                },
            }
        }
        if let Some(right) = block.right {
            result.push(right);
        }
        if let Some(left) = block.left {
            result.push(left);
        }
        assert(successors(ctx, block_id, *block) == Ok::<Seq<BlockId>, CompileError>(result@)) by {
            assert(successors(ctx, block_id, *block).unwrap() =~= result@);
        }
        match jump {
            Some((jmp, target)) => {
                self.fix_next(target);
                self.push_code(jmp);
            },
            None => {
                self.push_code(Opcode::CallBack);
            },
        }
        self.obj.blocks.insert(block_id.0, start);
        Ok(result)
    }

    /// Adds the children of `current` to the queue of blocks to visit.
    fn enqueue(
        ctx: &SsaContext,
        queue: &mut Vec<BlockId>,
        children: &Vec<BlockId>,
        current: BlockId,
    ) -> (r: Result<(), CompileError>)
        ensures
            match r {
                Ok(_) => enqueue(ctx, old(queue)@, children@, current, 0) == Ok::<
                    Seq<BlockId>,
                    CompileError,
                >(final(queue)@),
                Err(e) => enqueue(ctx, old(queue)@, children@, current, 0) == Err::<
                    Seq<BlockId>,
                    CompileError,
                >(e),
            },
    {
        let mut k: usize = 0;
        while k < children.len()
            invariant
                k <= children@.len(),
                enqueue(ctx, queue@, children@, current, k as int) == enqueue(
                    ctx,
                    old(queue)@,
                    children@,
                    current,
                    0,
                ),
            decreases children@.len() - k,
        {
            let child = children[k];
            if !child.is_dummy() && !queued(queue, child) {
                let block = match ctx.block(child) {
                    None => {
                        return Err(CompileError::Internal(Violation::UnknownBlock));
                    },
                    Some(block) => block,
                };
                let dominated = match block.dominator {
                    Some(dominator) => dominator == current,
                    None => false,
                };
                if !block.is_join() || dominated {
                    queue.push(child);
                }
            }
            k += 1;
        }
        Ok(())
    }

    /// Lowers the block `current` and every block that it leads to.
    pub fn process_blocks(&mut self, ctx: &SsaContext, current: BlockId) -> (r: Result<
        (),
        CompileError,
    >)
        ensures
            match r {
                Ok(_) => schedule(ctx, old(self).state(), old(self).table(), seq![current]) == Ok::<
                    (LowerState, Map<usize, usize>),
                    CompileError,
                >((final(self).state(), final(self).table())),
                Err(e) => schedule(ctx, old(self).state(), old(self).table(), seq![current])
                    == Err::<(LowerState, Map<usize, usize>), CompileError>(e),
            },
    {
        let mut queue: Vec<BlockId> = Vec::new();
        queue.push(current);
        assert(queue@ =~= seq![current]);
        while queue.len() > 0
            invariant
                schedule(ctx, self.state(), self.table(), queue@) == schedule(
                    ctx,
                    old(self).state(),
                    old(self).table(),
                    seq![current],
                ),
            decreases unscheduled(ctx.blocks@.len(), self.table()).len(),
        {
            let ghost before = queue@;
            let ghost table = self.table();
            let ghost start = self.state().code.len() as usize;
            let current = queue[queue.len() - 1];
            let _ = queue.pop();
            assert(queue@ =~= before.drop_last());
            if current.0 >= ctx.blocks.len() {
                return Err(CompileError::Internal(Violation::UnknownBlock));
            }
            if self.obj.blocks.contains_key(&current.0) {
                return Err(CompileError::Internal(Violation::BlockRevisited));
            }
            let children = self.process_block(ctx, current)?;
            BrilligGen::enqueue(ctx, &mut queue, &children, current)?;
            proof {
                lemma_unscheduled_shrinks(ctx.blocks@.len(), table, current.0, start);
            }
        }
        Ok(())
    }

    /// Generates the object of the function whose entry block is `block`.
    /// The object is well formed.
    pub fn compile(ctx: &SsaContext, block: BlockId) -> (r: Result<BrilligArtefact, CompileError>)
        ensures
            match r {
                Ok(obj) => spec_compile(ctx, block) == Ok::<ArtefactView, CompileError>(obj@)
                    && well_formed(obj@),
                Err(e) => spec_compile(ctx, block) == Err::<ArtefactView, CompileError>(e),
            },
    {
        let mut brillig = BrilligGen::new();
        match brillig.process_blocks(ctx, block) {
            Err(e) => Err(e),
            Ok(_) => {
                let length = brillig.code_len();
                proof {
                    assert(length <= usize::MAX);
                    assert(brillig.obj@ == artefact_of(brillig.state(), brillig.table()));
                    assert(brillig.obj@.code.len() == brillig.obj.byte_code@.len());
                    assert(spec_compile(ctx, block) == Ok::<ArtefactView, CompileError>(
                        brillig.obj@,
                    ));
                    law_compiled_object_is_well_formed(ctx, block);
                }
                Ok(brillig.obj)
            },
        }
    }
}

} // verus!
