//! Phi resolution: the moves that stand for the phis of a join block, emitted
//! where each of its predecessors ends.

use crate::errors::{CompileError, Violation};
use crate::opcode::{Opcode, OpcodeView};
use crate::resolver::resolve;
use crate::ssa::{BlockId, NodeId, Operation, SsaContext};
use crate::state::{steps, BrilligGen, LowerState};
use vstd::prelude::*;

verus! {

/// The state after the moves for one phi on the edge from `current`: for each
/// of its arguments from the `m`-th on that flows in from `current`, the
/// argument is moved into the register of the phi.
pub open spec fn phi_arguments(
    ctx: &SsaContext,
    st: LowerState,
    current: BlockId,
    phi: NodeId,
    block_args: Seq<(NodeId, BlockId)>,
    m: int,
) -> Result<LowerState, CompileError>
    decreases block_args.len() - m,
{
    if m < 0 || m >= block_args.len() {
        Ok(st)
    } else if block_args[m].1 == current {
        match resolve(ctx, st, phi) {
            Err(e) => Err(e),
            Ok((st1, destination)) => match resolve(ctx, st1, block_args[m].0) {
                Err(e) => Err(e),
                Ok((st2, source)) => phi_arguments(
                    ctx,
                    st2.emit(OpcodeView::Mov { destination, source }),
                    current,
                    phi,
                    block_args,
                    m + 1,
                ),
            },
        }
    } else {
        phi_arguments(ctx, st, current, phi, block_args, m + 1)
    }
}

/// The state after the moves for the phis at the head of a block whose
/// instructions are `instructions`, from the `k`-th on. The phis end at the
/// first instruction that is neither a phi nor empty.
pub open spec fn phi_moves(
    ctx: &SsaContext,
    st: LowerState,
    current: BlockId,
    instructions: Seq<NodeId>,
    k: int,
) -> Result<LowerState, CompileError>
    decreases instructions.len() - k,
{
    if k < 0 || k >= instructions.len() {
        Ok(st)
    } else {
        match ctx.spec_try_get_instruction(instructions[k]) {
            None => phi_moves(ctx, st, current, instructions, k + 1),
            Some(ins) => match ins.operation {
                Operation::Nop => phi_moves(ctx, st, current, instructions, k + 1),
                Operation::Phi { block_args, .. } => match phi_arguments(
                    ctx,
                    st,
                    current,
                    ins.id,
                    block_args@,
                    0,
                ) {
                    Err(e) => Err(e),
                    Ok(st1) => phi_moves(ctx, st1, current, instructions, k + 1),
                },
                _ => Ok(st),
            },
        }
    }
}

/// The state after the edge from `current` to its successor `left` is
/// prepared: if paths meet in `left`, the moves for its phis are emitted.
pub open spec fn spec_handle_phi_instructions(
    ctx: &SsaContext,
    st: LowerState,
    current: BlockId,
    left: BlockId,
) -> Result<LowerState, CompileError> {
    match ctx.spec_block(left) {
        None => Err(CompileError::Internal(Violation::UnknownBlock)),
        Some(block) => if block.spec_is_join() {
            phi_moves(ctx, st, current, block.instructions@, 0)
        } else {
            Ok(st)
        },
    }
}

impl BrilligGen {
    /// Emits the moves for one phi on the edge from `current`.
    fn phi_arguments(
        &mut self,
        ctx: &SsaContext,
        current: BlockId,
        phi: NodeId,
        block_args: &Vec<(NodeId, BlockId)>,
    ) -> (r: Result<(), CompileError>)
        ensures
            steps(
                phi_arguments(ctx, old(self).state(), current, phi, block_args@, 0),
                r,
                final(self).state(),
            ),
            final(self).table() == old(self).table(),
    {
        let mut m: usize = 0;
        while m < block_args.len()
            invariant
                m <= block_args@.len(),
                phi_arguments(ctx, self.state(), current, phi, block_args@, m as int)
                    == phi_arguments(ctx, old(self).state(), current, phi, block_args@, 0),
                self.table() == old(self).table(),
            decreases block_args@.len() - m,
        {
            if block_args[m].1 == current {
                let destination = self.node_2_register(ctx, phi)?;
                let source = self.node_2_register(ctx, block_args[m].0)?;
                self.push_code(Opcode::Mov { destination, source });
            }
            m += 1;
        }
        Ok(())
    }

    /// Handles the phis of `left` on the edge from `current`, by adding moves.
    pub fn handle_phi_instructions(&mut self, current: BlockId, left: BlockId, ctx: &SsaContext) -> (r:
        Result<(), CompileError>)
        ensures
            steps(
                spec_handle_phi_instructions(ctx, old(self).state(), current, left),
                r,
                final(self).state(),
            ),
            final(self).table() == old(self).table(),
    {
        let block = match ctx.block(left) {
            None => {
                return Err(CompileError::Internal(Violation::UnknownBlock));
            },
            Some(block) => block,
        };
        if !block.is_join() {
            return Ok(());
        }
        let mut k: usize = 0;
        while k < block.instructions.len()
            invariant
                k <= block.instructions@.len(),
                ctx.spec_block(left) == Some(*block),
                block.spec_is_join(),
                phi_moves(ctx, self.state(), current, block.instructions@, k as int) == phi_moves(
                    ctx,
                    old(self).state(),
                    current,
                    block.instructions@,
                    0,
                ),
                self.table() == old(self).table(),
            decreases block.instructions@.len() - k,
        {
            match ctx.try_get_instruction(block.instructions[k]) {
                None => {},
                Some(ins) => match &ins.operation {
                    Operation::Nop => {},
                    Operation::Phi { block_args, .. } => {
                        self.phi_arguments(ctx, current, ins.id, block_args)?;
                    },
                    _ => {
                        return Ok(());
                    },
                },
            }
            k += 1;
        }
        Ok(())
    }
}

} // verus!
