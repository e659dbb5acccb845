//! The state of a lowering in progress.

use crate::artefact::BrilligArtefact;
use crate::errors::{CompileError, Violation};
use crate::opcode::{code_view, lemma_code_view_push, Opcode, OpcodeView, RegisterIndex};
use crate::ssa::{BlockId, NodeId};
use std::collections::HashMap;
use vstd::prelude::*;

verus! {

/// What the lowering of instructions reads and changes: the code so far, the
/// placeholders in it, the functions it calls, the highest register in use and
/// the call whose results are being collected.
pub struct LowerState {
    pub code: Seq<OpcodeView>,
    pub to_fix: Seq<(usize, BlockId)>,
    pub callees: Seq<NodeId>,
    pub max_register: usize,
    pub noir_call: Seq<NodeId>,
}

impl LowerState {
    /// The state before anything is lowered.
    pub open spec fn initial() -> LowerState {
        LowerState {
            code: Seq::empty(),
            to_fix: Seq::empty(),
            callees: Seq::empty(),
            max_register: 0,
            noir_call: Seq::empty(),
        }
    }

    /// The state with one more opcode at the end of the code.
    pub open spec fn emit(self, op: OpcodeView) -> LowerState {
        LowerState { code: self.code.push(op), ..self }
    }

    /// The state in which register `index` counts as used.
    pub open spec fn raise(self, index: usize) -> LowerState {
        LowerState {
            max_register: if index > self.max_register {
                index
            } else {
                self.max_register
            },
            ..self
        }
    }

    /// The state in which the next opcode to be emitted is recorded as a
    /// placeholder for `target`.
    pub open spec fn fix_next(self, target: BlockId) -> LowerState {
        LowerState { to_fix: self.to_fix.push((self.code.len() as usize, target)), ..self }
    }

    /// The state in which `func` is among the functions to link in.
    pub open spec fn mark_callee(self, func: NodeId) -> LowerState {
        if self.callees.contains(func) {
            self
        } else {
            LowerState { callees: self.callees.push(func), ..self }
        }
    }

    /// The state with another call buffer.
    pub open spec fn with_call(self, noir_call: Seq<NodeId>) -> LowerState {
        LowerState { noir_call, ..self }
    }

    /// A register that no value uses yet, and the state in which it is taken.
    pub open spec fn take_tmp(self) -> Result<(LowerState, RegisterIndex), CompileError> {
        if self.max_register == usize::MAX {
            Err(CompileError::Internal(Violation::RegisterOverflow))
        } else {
            let index = (self.max_register + 1) as usize;
            Ok((LowerState { max_register: index, ..self }, RegisterIndex(index)))
        }
    }
}

/// `r` and `after` are the result and the state that `expected` describes.
pub open spec fn yields<T>(
    expected: Result<(LowerState, T), CompileError>,
    r: Result<T, CompileError>,
    after: LowerState,
) -> bool {
    match r {
        Ok(value) => expected == Ok::<(LowerState, T), CompileError>((after, value)),
        Err(e) => expected == Err::<(LowerState, T), CompileError>(e),
    }
}

/// `r` and `after` are the outcome and the state that `expected` describes.
pub open spec fn steps(
    expected: Result<LowerState, CompileError>,
    r: Result<(), CompileError>,
    after: LowerState,
) -> bool {
    match r {
        Ok(_) => expected == Ok::<LowerState, CompileError>(after),
        Err(e) => expected == Err::<LowerState, CompileError>(e),
    }
}

/// The compiler of one function: the object it fills, and its bookkeeping.
#[derive(Clone, Debug)]
pub struct BrilligGen {
    pub obj: BrilligArtefact,
    /// The highest register that a value or a temporary uses.
    pub max_register: usize,
    /// The call whose results are being collected: the call, then its results.
    pub noir_call: Vec<NodeId>,
}

impl BrilligGen {
    /// The state of the lowering.
    pub open spec fn state(&self) -> LowerState {
        LowerState {
            code: code_view(self.obj.byte_code@),
            to_fix: self.obj.to_fix@,
            callees: self.obj.functions_to_process@,
            max_register: self.max_register,
            noir_call: self.noir_call@,
        }
    }

    /// Where each block that was lowered begins.
    pub open spec fn table(&self) -> Map<usize, usize> {
        self.obj.blocks@
    }

    /// A compiler that has lowered nothing yet.
    pub fn new() -> (r: BrilligGen)
        ensures
            r.state() == LowerState::initial(),
            r.table() == Map::<usize, usize>::empty(),
    {
        let r = BrilligGen {
            obj: BrilligArtefact {
                functions_to_process: Vec::new(),
                byte_code: Vec::new(),
                to_fix: Vec::new(),
                blocks: HashMap::new(),
            },
            max_register: 0,
            noir_call: Vec::new(),
        };
        assert(r.state().code =~= Seq::<OpcodeView>::empty());
        r
    }

    /// Adds an instruction at the end of the code.
    pub fn push_code(&mut self, code: Opcode)
        ensures
            final(self).state() == old(self).state().emit(code@),
            final(self).table() == old(self).table(),
    {
        proof {
            lemma_code_view_push(self.obj.byte_code@, code);
        }
        self.obj.byte_code.push(code);
    }

    /// The number of instructions so far.
    pub fn code_len(&self) -> (n: usize)
        ensures
            n == self.state().code.len(),
    {
        self.obj.byte_code.len()
    }

    /// Records that the next instruction to be added holds a placeholder for
    /// `target`.
    pub fn fix_next(&mut self, target: BlockId)
        ensures
            final(self).state() == old(self).state().fix_next(target),
            final(self).table() == old(self).table(),
    {
        let position = self.obj.byte_code.len();
        self.obj.to_fix.push((position, target));
    }

    /// Notes a function that the linker has to bring in, once.
    pub fn mark_callee(&mut self, func: NodeId)
        ensures
            final(self).state() == old(self).state().mark_callee(func),
            final(self).table() == old(self).table(),
    {
        let mut i: usize = 0;
        while i < self.obj.functions_to_process.len()
            invariant
                i <= self.obj.functions_to_process@.len(),
                forall|j: int| 0 <= j < i ==> self.obj.functions_to_process@[j] != func,
                *self == *old(self),
            decreases self.obj.functions_to_process@.len() - i,
        {
            if self.obj.functions_to_process[i] == func {
                return ;
            }
            i += 1;
        }
        self.obj.functions_to_process.push(func);
    }

    /// A register that no value uses: the one above the highest in use.
    pub fn get_tmp_register(&mut self) -> (r: Result<RegisterIndex, CompileError>)
        ensures
            yields(old(self).state().take_tmp(), r, final(self).state()),
            final(self).table() == old(self).table(),
    {
        if self.max_register == usize::MAX {
            return Err(CompileError::Internal(Violation::RegisterOverflow));
        }
        self.max_register += 1;
        Ok(RegisterIndex(self.max_register))
    }
}

impl Default for BrilligGen {
    fn default() -> (r: BrilligGen)
        ensures
            r.state() == LowerState::initial(),
            r.table() == Map::<usize, usize>::empty(),
    {
        BrilligGen::new()
    }
}

} // verus!
