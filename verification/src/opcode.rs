//! The bytecode of the register machine.

use crate::field::FieldValue;
use vstd::prelude::*;

verus! {

/// Index of a register in the flat register file.
#[derive(Clone, Copy, Debug, PartialEq, Eq, Structural)]
pub struct RegisterIndex(pub usize);

/// An operand: a register, or a constant embedded in the instruction.
#[derive(Clone, Copy, Debug, PartialEq, Eq, Structural)]
pub enum RegisterMemIndex {
    Register(RegisterIndex),
    Constant(FieldValue),
}

impl RegisterMemIndex {
    /// The register this operand names, if it names one.
    pub fn to_register_index(self) -> (r: Option<RegisterIndex>)
        ensures
            r == match self {
                RegisterMemIndex::Register(index) => Some(index),
                RegisterMemIndex::Constant(_) => None,
            },
    {
        match self {
            RegisterMemIndex::Register(index) => Some(index),
            RegisterMemIndex::Constant(_) => None,
        }
    }
}

/// The numeric type an operation computes in.
#[derive(Clone, Copy, Debug, PartialEq, Eq, Structural)]
pub enum Typ {
    Field,
    Unsigned { bit_size: u32 },
    Signed { bit_size: u32 },
}

#[derive(Clone, Copy, Debug, PartialEq, Eq, Structural)]
pub enum Comparison {
    Eq,
    Lt,
    Lte,
}

#[derive(Clone, Copy, Debug, PartialEq, Eq, Structural)]
pub enum BinaryOp {
    Add,
    Sub,
    Mul,
    Div,
    Cmp(Comparison),
}

/// An argument handed to the host: an operand, or a region of memory.
#[derive(Clone, Copy, Debug, PartialEq, Eq, Structural)]
pub enum OracleInput {
    RegisterMemIndex(RegisterMemIndex),
    Array { start: RegisterMemIndex, length: usize },
}

/// A place where the host leaves a result: a register, or a region of memory.
#[derive(Clone, Copy, Debug, PartialEq, Eq, Structural)]
pub enum OracleOutput {
    RegisterIndex(RegisterIndex),
    Array { start: RegisterMemIndex, length: usize },
}

/// A call out to a function that the host provides under a name.
#[derive(Debug, PartialEq, Eq)]
pub struct OracleData {
    pub name: String,
    pub inputs: Vec<OracleInput>,
    pub input_values: Vec<FieldValue>,
    pub outputs: Vec<OracleOutput>,
    pub output_values: Vec<FieldValue>,
}

/// What an [`OracleData`] holds.
pub struct OracleDataView {
    pub name: Seq<char>,
    pub inputs: Seq<OracleInput>,
    pub input_values: Seq<FieldValue>,
    pub outputs: Seq<OracleOutput>,
    pub output_values: Seq<FieldValue>,
}

impl View for OracleData {
    type V = OracleDataView;

    open spec fn view(&self) -> OracleDataView {
        OracleDataView {
            name: self.name@,
            inputs: self.inputs@,
            input_values: self.input_values@,
            outputs: self.outputs@,
            output_values: self.output_values@,
        }
    }
}

/// One instruction of the register machine.
#[derive(Debug, PartialEq, Eq)]
#[allow(inconsistent_fields)]
pub enum Opcode {
    /// `result = lhs op rhs`, computed in `result_type`.
    BinaryOp {
        result_type: Typ,
        op: BinaryOp,
        lhs: RegisterMemIndex,
        rhs: RegisterMemIndex,
        result: RegisterIndex,
    },
    /// Continue at `destination` if `condition` is zero.
    JumpIfNot { condition: RegisterMemIndex, destination: usize },
    /// Continue at `destination` if `condition` is not zero.
    JumpIf { condition: RegisterMemIndex, destination: usize },
    /// Continue at `destination`.
    Jump { destination: usize },
    /// Push a return address on the call stack.
    PushStack { source: RegisterMemIndex },
    /// Return to the address on top of the call stack.
    CallBack,
    Mov { destination: RegisterMemIndex, source: RegisterMemIndex },
    /// Stop in failure.
    Trap,
    /// Stop in success.
    Stop,
    /// `destination = array[index]`.
    Load { destination: RegisterMemIndex, array_id_reg: RegisterMemIndex, index: RegisterMemIndex },
    /// `array[index] = source`.
    Store { source: RegisterMemIndex, array_id_reg: RegisterMemIndex, index: RegisterMemIndex },
    Oracle(OracleData),
}

/// What an [`Opcode`] holds.
#[allow(inconsistent_fields)]
pub enum OpcodeView {
    BinaryOp {
        result_type: Typ,
        op: BinaryOp,
        lhs: RegisterMemIndex,
        rhs: RegisterMemIndex,
        result: RegisterIndex,
    },
    JumpIfNot { condition: RegisterMemIndex, destination: usize },
    JumpIf { condition: RegisterMemIndex, destination: usize },
    Jump { destination: usize },
    PushStack { source: RegisterMemIndex },
    CallBack,
    Mov { destination: RegisterMemIndex, source: RegisterMemIndex },
    Trap,
    Stop,
    Load { destination: RegisterMemIndex, array_id_reg: RegisterMemIndex, index: RegisterMemIndex },
    Store { source: RegisterMemIndex, array_id_reg: RegisterMemIndex, index: RegisterMemIndex },
    Oracle(OracleDataView),
}

impl View for Opcode {
    type V = OpcodeView;

    open spec fn view(&self) -> OpcodeView {
        match *self {
            Opcode::BinaryOp { result_type, op, lhs, rhs, result } => OpcodeView::BinaryOp {
                result_type,
                op,
                lhs,
                rhs,
                result,
            },
            Opcode::JumpIfNot { condition, destination } => OpcodeView::JumpIfNot {
                condition,
                destination,
            },
            Opcode::JumpIf { condition, destination } => OpcodeView::JumpIf {
                condition,
                destination,
            },
            Opcode::Jump { destination } => OpcodeView::Jump { destination },
            Opcode::PushStack { source } => OpcodeView::PushStack { source },
            Opcode::CallBack => OpcodeView::CallBack,
            Opcode::Mov { destination, source } => OpcodeView::Mov { destination, source },
            Opcode::Trap => OpcodeView::Trap,
            Opcode::Stop => OpcodeView::Stop,
            Opcode::Load { destination, array_id_reg, index } => OpcodeView::Load {
                destination,
                array_id_reg,
                index,
            },
            Opcode::Store { source, array_id_reg, index } => OpcodeView::Store {
                source,
                array_id_reg,
                index,
            },
            Opcode::Oracle(data) => OpcodeView::Oracle(data@),
        }
    }
}

/// What a sequence of opcodes holds.
pub open spec fn code_view(code: Seq<Opcode>) -> Seq<OpcodeView> {
    code.map_values(|op: Opcode| op@)
}

/// The view of a sequence with one more opcode is the view with one more.
pub proof fn lemma_code_view_push(code: Seq<Opcode>, op: Opcode)
    ensures
        code_view(code.push(op)) == code_view(code).push(op@),
{
    assert(code_view(code.push(op)) =~= code_view(code).push(op@));
}

/// A copy of a list of plain values.
fn copy_vec<T: Copy>(items: &Vec<T>) -> (r: Vec<T>)
    ensures
        r@ == items@,
{
    let mut r: Vec<T> = Vec::new();
    let mut i: usize = 0;
    while i < items.len()
        invariant
            i <= items@.len(),
            r@ == items@.subrange(0, i as int),
        decreases items@.len() - i,
    {
        r.push(items[i]);
        i += 1;
        assert(r@ =~= items@.subrange(0, i as int));
    }
    assert(r@ =~= items@);
    r
}

impl OracleData {
    /// A copy of this call, with the same contents.
    pub fn duplicate(&self) -> (r: OracleData)
        ensures
            r@ == self@,
    {
        OracleData {
            name: self.name.clone(),
            inputs: copy_vec(&self.inputs),
            input_values: copy_vec(&self.input_values),
            outputs: copy_vec(&self.outputs),
            output_values: copy_vec(&self.output_values),
        }
    }
}

impl Clone for OracleData {
    fn clone(&self) -> (r: Self)
        ensures
            r@ == self@,
    {
        self.duplicate()
    }
}

impl Opcode {
    /// A copy of this instruction, with the same contents.
    pub fn duplicate(&self) -> (r: Opcode)
        ensures
            r@ == self@,
    {
        match self {
            Opcode::BinaryOp { result_type, op, lhs, rhs, result } => Opcode::BinaryOp {
                result_type: *result_type,
                op: *op,
                lhs: *lhs,
                rhs: *rhs,
                result: *result,
            },
            Opcode::JumpIfNot { condition, destination } => Opcode::JumpIfNot {
                condition: *condition,
                destination: *destination,
            },
            Opcode::JumpIf { condition, destination } => Opcode::JumpIf {
                condition: *condition,
                destination: *destination,
            },
            Opcode::Jump { destination } => Opcode::Jump { destination: *destination },
            Opcode::PushStack { source } => Opcode::PushStack { source: *source },
            Opcode::CallBack => Opcode::CallBack,
            Opcode::Mov { destination, source } => Opcode::Mov {
                destination: *destination,
                source: *source,
            },
            Opcode::Trap => Opcode::Trap,
            Opcode::Stop => Opcode::Stop,
            Opcode::Load { destination, array_id_reg, index } => Opcode::Load {
                destination: *destination,
                array_id_reg: *array_id_reg,
                index: *index,
            },
            Opcode::Store { source, array_id_reg, index } => Opcode::Store {
                source: *source,
                array_id_reg: *array_id_reg,
                index: *index,
            },
            Opcode::Oracle(data) => Opcode::Oracle(data.duplicate()),
        }
    }
}

impl Clone for Opcode {
    fn clone(&self) -> (r: Self)
        ensures
            r@ == self@,
    {
        self.duplicate()
    }
}

/// A copy of a piece of code, instruction by instruction.
pub fn copy_code(code: &Vec<Opcode>) -> (r: Vec<Opcode>)
    ensures
        code_view(r@) == code_view(code@),
{
    let mut r: Vec<Opcode> = Vec::new();
    let mut i: usize = 0;
    while i < code.len()
        invariant
            i <= code@.len(),
            code_view(r@) == code_view(code@).subrange(0, i as int),
        decreases code@.len() - i,
    {
        let ghost before = r@;
        let op = code[i].duplicate();
        r.push(op);
        i += 1;
        proof {
            lemma_code_view_push(before, op);
            assert(code_view(r@) =~= code_view(code@).subrange(0, i as int));
        }
    }
    assert(code_view(code@).subrange(0, i as int) =~= code_view(code@));
    r
}

} // verus!
