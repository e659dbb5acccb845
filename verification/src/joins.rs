//! Conditionals in the graph: their heads and the blocks where they end.

use crate::ssa::{BasicBlock, BlockId, BlockType, Instruction, Operation, SsaContext};
use vstd::prelude::*;

verus! {

/// The block that closes the conditional which is open when the walk reaches
/// `cur`. The walk follows the fall-through successors for at most `fuel`
/// steps; `depth` counts the conditionals that were opened on the way and are
/// not closed yet. A join that is met while none of them is open is the one.
pub open spec fn walk_to_join(ctx: &SsaContext, cur: Option<BlockId>, depth: nat, fuel: nat) -> Option<
    BlockId,
>
    decreases fuel,
{
    if fuel == 0 {
        None
    } else {
        match cur {
            None => None,
            Some(id) => match ctx.spec_block(id) {
                None => None,
                Some(block) => if block.kind == BlockType::IfJoin && depth == 0 {
                    Some(id)
                } else {
                    let closed = if block.kind == BlockType::IfJoin {
                        (depth - 1) as nat
                    } else {
                        depth
                    };
                    let opened = if ctx.spec_get_if_condition(&block) is Some {
                        closed + 1
                    } else {
                        closed
                    };
                    walk_to_join(ctx, block.left, opened, (fuel - 1) as nat)
                },
            },
        }
    }
}

impl SsaContext {
    pub open spec fn spec_get_if_condition(&self, block: &BasicBlock) -> Option<Instruction> {
        if block.kind == BlockType::ForJoin || block.instructions@.len() == 0 {
            None
        } else {
            match self.spec_try_get_instruction(block.instructions@.last()) {
                Some(ins) => if ins.operation is Jeq {
                    Some(ins)
                } else {
                    None
                },
                None => None,
            }
        }
    }

    /// The jump that ends `block`, if the block is the head of a conditional:
    /// not the head of a loop, and ended by a jump that is taken when its
    /// condition holds.
    pub fn get_if_condition(&self, block: &BasicBlock) -> (r: Option<&Instruction>)
        ensures
            match r {
                Some(ins) => self.spec_get_if_condition(block) == Some(*ins),
                None => self.spec_get_if_condition(block) is None,
            },
    {
        if block.kind == BlockType::ForJoin || block.instructions.len() == 0 {
            return None;
        }
        let last = block.instructions[block.instructions.len() - 1];
        match self.try_get_instruction(last) {
            Some(ins) => match ins.operation {
                Operation::Jeq(_, _) => Some(ins),
                _ => None,
            },
            None => None,
        }
    }

    pub open spec fn spec_find_join(&self, head: BlockId) -> Option<BlockId> {
        match self.spec_block(head) {
            None => None,
            Some(block) => walk_to_join(self, block.left, 0, self.blocks@.len()),
        }
    }

    /// The block where the two arms of the conditional that `head` opens meet
    /// again: the first join on the way forward from `head` that does not
    /// close a conditional opened in between. There is none if the way ends,
    /// or does not reach one within as many steps as the graph has blocks.
    pub fn find_join(&self, head: BlockId) -> (r: Option<BlockId>)
        ensures
            r == self.spec_find_join(head),
            r matches Some(id) ==> self.spec_block(id) matches Some(block) && block.kind
                == BlockType::IfJoin,
    {
        let mut cur = match self.block(head) {
            None => {
                return None;
            },
            Some(block) => block.left,
        };
        let mut depth: usize = 0;
        let mut fuel: usize = self.blocks.len();
        while fuel > 0
            invariant
                depth + fuel <= self.blocks@.len() <= usize::MAX,
                walk_to_join(self, cur, depth as nat, fuel as nat) == self.spec_find_join(head),
            decreases fuel,
        {
            let id = match cur {
                None => {
                    return None;
                },
                Some(id) => id,
            };
            let block = match self.block(id) {
                None => {
                    return None;
                },
                Some(block) => block,
            };
            let is_if_join = block.kind == BlockType::IfJoin;
            if is_if_join && depth == 0 {
                return Some(id);
            }
            if is_if_join {
                depth -= 1;
            }
            if self.get_if_condition(block).is_some() {
                depth += 1;
            }
            cur = block.left;
            fuel -= 1;
        }
        None
    }
}

} // verus!
