//! The SSA control-flow graph that the lowering reads.
//!
//! The graph is plain data: nodes, blocks, arrays and function definitions
//! are held in tables, and an identifier is an index into its table.

use crate::artefact::BrilligArtefact;
use vstd::prelude::*;

verus! {

/// Identifier of a value: a variable, an instruction, a constant or a function.
#[derive(Clone, Copy, Debug, PartialEq, Eq, Hash, Structural)]
pub struct NodeId(pub usize);

impl NodeId {
    /// The identifier that stands for "no node".
    pub fn dummy() -> (id: NodeId)
        ensures
            id == NodeId(usize::MAX),
    {
        NodeId(usize::MAX)
    }

    pub open spec fn spec_is_dummy(self) -> bool {
        self.0 == usize::MAX
    }

    #[verifier::when_used_as_spec(spec_is_dummy)]
    pub fn is_dummy(self) -> (r: bool)
        ensures
            r == self.spec_is_dummy(),
    {
        self.0 == usize::MAX
    }
}

/// Identifier of a basic block.
#[derive(Clone, Copy, Debug, PartialEq, Eq, Hash, Structural)]
pub struct BlockId(pub usize);

impl BlockId {
    /// The identifier that stands for "no block".
    pub fn dummy() -> (id: BlockId)
        ensures
            id == BlockId(usize::MAX),
    {
        BlockId(usize::MAX)
    }

    pub open spec fn spec_is_dummy(self) -> bool {
        self.0 == usize::MAX
    }

    #[verifier::when_used_as_spec(spec_is_dummy)]
    pub fn is_dummy(self) -> (r: bool)
        ensures
            r == self.spec_is_dummy(),
    {
        self.0 == usize::MAX
    }
}

/// Identifier of an array in memory.
#[derive(Clone, Copy, Debug, PartialEq, Eq, Hash, Structural)]
pub struct ArrayId(pub u32);

#[derive(Clone, Copy, Debug, PartialEq, Eq, Structural)]
pub enum NumericType {
    Signed(u32),
    Unsigned(u32),
    NativeField,
}

/// The type of a node.
#[derive(Clone, Copy, Debug, PartialEq, Eq, Structural)]
pub enum ObjectType {
    Numeric(NumericType),
    ArrayPointer(ArrayId),
    Function,
    NotAnObject,
}

#[derive(Clone, Copy, Debug, PartialEq, Eq, Structural)]
pub enum BinaryOp {
    Add,
    SafeAdd,
    Sub,
    SafeSub,
    Mul,
    SafeMul,
    Udiv,
    Sdiv,
    Urem,
    Srem,
    Div,
    Eq,
    Ne,
    Ult,
    Ule,
    Slt,
    Sle,
    Lt,
    Lte,
    And,
    Or,
    Xor,
    Shl,
    Shr,
    Assign,
}

#[derive(Clone, Copy, Debug, PartialEq, Eq, Structural)]
pub struct Binary {
    pub lhs: NodeId,
    pub rhs: NodeId,
    pub operator: BinaryOp,
}

/// What an instruction does.
#[derive(Clone, Debug, PartialEq, Eq)]
pub enum Operation {
    Binary(Binary),
    /// Convert the operand to the type of the instruction.
    Cast(NodeId),
    Truncate { value: NodeId, bit_size: u32, max_bit_size: u32 },
    /// Bitwise complement.
    Not(NodeId),
    /// Fail unless the operand is true.
    Constrain(NodeId),
    /// Jump to the block if the condition is false.
    Jne(NodeId, BlockId),
    /// Jump to the block if the condition is true.
    Jeq(NodeId, BlockId),
    Jmp(BlockId),
    /// The value that flows in from each predecessor block.
    Phi { root: NodeId, block_args: Vec<(NodeId, BlockId)> },
    /// A call whose results follow as `Result` instructions; `returned_arrays`
    /// lists the arrays it returns, each with its position among the results.
    Call { func: NodeId, arguments: Vec<NodeId>, returned_arrays: Vec<(ArrayId, u32)> },
    Return(Vec<NodeId>),
    /// One result of the call before it.
    Result { call_instruction: NodeId, index: u32 },
    Cond { condition: NodeId, val_true: NodeId, val_false: NodeId },
    Load { array_id: ArrayId, index: NodeId },
    Store { array_id: ArrayId, index: NodeId, value: NodeId },
    Intrinsic(Vec<NodeId>),
    /// A call together with the nodes that take its results.
    UnsafeCall { func: NodeId, arguments: Vec<NodeId>, returned_values: Vec<NodeId> },
    Nop,
}

impl Operation {
    pub open spec fn spec_is_dummy_store(&self) -> bool {
        match self {
            Operation::Store { index, value, .. } => index.spec_is_dummy() && value.spec_is_dummy(),
            _ => false,
        }
    }

    /// Whether this is a store that was left in the graph as a placeholder.
    #[verifier::when_used_as_spec(spec_is_dummy_store)]
    pub fn is_dummy_store(&self) -> (r: bool)
        ensures
            r == self.spec_is_dummy_store(),
    {
        match self {
            Operation::Store { index, value, .. } => index.is_dummy() && value.is_dummy(),
            _ => false,
        }
    }
}

#[derive(Clone, Debug, PartialEq, Eq)]
pub struct Instruction {
    pub id: NodeId,
    pub operation: Operation,
    pub res_type: ObjectType,
}

/// A constant, by the big-endian bytes of its value.
#[derive(Clone, Debug, PartialEq, Eq)]
pub struct Constant {
    pub value: Vec<u8>,
    pub value_type: ObjectType,
}

/// What a function node stands for.
#[derive(Clone, Copy, Debug, PartialEq, Eq, Structural)]
pub enum FunctionKind {
    /// A function of the program, by its index among the definitions.
    Normal(usize),
    /// A function that the compiler provides.
    Builtin,
}

#[derive(Clone, Debug, PartialEq, Eq)]
pub enum NodeObject {
    /// A variable, with its type.
    Variable(ObjectType),
    Instr(Instruction),
    Const(Constant),
    Function(FunctionKind),
}

impl NodeObject {
    /// The type of the value this node stands for.
    pub open spec fn spec_get_type(&self) -> ObjectType {
        match self {
            NodeObject::Variable(typ) => *typ,
            NodeObject::Instr(ins) => ins.res_type,
            NodeObject::Const(c) => c.value_type,
            NodeObject::Function(_) => ObjectType::Function,
        }
    }

    #[verifier::when_used_as_spec(spec_get_type)]
    pub fn get_type(&self) -> (typ: ObjectType)
        ensures
            typ == self.spec_get_type(),
    {
        match self {
            NodeObject::Variable(typ) => *typ,
            NodeObject::Instr(ins) => ins.res_type,
            NodeObject::Const(c) => c.value_type,
            NodeObject::Function(_) => ObjectType::Function,
        }
    }
}

#[derive(Clone, Copy, Debug, PartialEq, Eq, Structural)]
pub enum BlockType {
    Normal,
    /// The head of a loop, where the way in and the way back meet.
    ForJoin,
    /// The block where the two arms of a conditional meet.
    IfJoin,
}

#[derive(Clone, Debug, PartialEq, Eq)]
pub struct BasicBlock {
    pub kind: BlockType,
    pub dominator: Option<BlockId>,
    /// The successor that execution falls through to.
    pub left: Option<BlockId>,
    /// The successor that a conditional jump leads to.
    pub right: Option<BlockId>,
    pub instructions: Vec<NodeId>,
}

impl BasicBlock {
    pub open spec fn spec_is_join(&self) -> bool {
        self.kind == BlockType::ForJoin || self.kind == BlockType::IfJoin
    }

    /// Whether paths meet in this block: it is the head of a loop or the end
    /// of a conditional. Such a block may start with phis.
    #[verifier::when_used_as_spec(spec_is_join)]
    pub fn is_join(&self) -> (r: bool)
        ensures
            r == self.spec_is_join(),
    {
        self.kind == BlockType::ForJoin || self.kind == BlockType::IfJoin
    }
}

/// An array in memory.
#[derive(Clone, Copy, Debug, PartialEq, Eq, Structural)]
pub struct MemArray {
    pub len: u32,
}

/// How a function is run.
#[derive(Clone, Debug, PartialEq, Eq)]
pub enum RuntimeType {
    /// Part of the circuit.
    Acvm,
    /// Unconstrained code, compiled to bytecode.
    Unsafe,
    /// Provided by the host under this name.
    Oracle(String),
}

/// A function definition.
#[derive(Clone, Debug)]
pub struct SsaFunction {
    pub entry_block: BlockId,
    /// The parameters, in order.
    pub arguments: Vec<NodeId>,
    pub result_types: Vec<ObjectType>,
    pub kind: RuntimeType,
    /// The bytecode of the body, once it is compiled.
    pub obj: BrilligArtefact,
}

/// The graph: every node, block, array and function definition of a program.
#[derive(Clone, Debug)]
pub struct SsaContext {
    pub nodes: Vec<NodeObject>,
    pub blocks: Vec<BasicBlock>,
    pub mem: Vec<MemArray>,
    pub functions: Vec<SsaFunction>,
}

impl SsaContext {
    pub open spec fn spec_try_get_node(&self, id: NodeId) -> Option<NodeObject> {
        if id.0 < self.nodes@.len() {
            Some(self.nodes@[id.0 as int])
        } else {
            None
        }
    }

    /// The node an identifier names.
    pub fn try_get_node(&self, id: NodeId) -> (r: Option<&NodeObject>)
        ensures
            match r {
                Some(node) => self.spec_try_get_node(id) == Some(*node),
                None => self.spec_try_get_node(id) is None,
            },
    {
        if id.0 < self.nodes.len() {
            Some(&self.nodes[id.0])
        } else {
            None
        }
    }

    pub open spec fn spec_try_get_instruction(&self, id: NodeId) -> Option<Instruction> {
        match self.spec_try_get_node(id) {
            Some(NodeObject::Instr(ins)) => Some(ins),
            _ => None,
        }
    }

    /// The instruction an identifier names, if it names one.
    pub fn try_get_instruction(&self, id: NodeId) -> (r: Option<&Instruction>)
        ensures
            match r {
                Some(ins) => self.spec_try_get_instruction(id) == Some(*ins),
                None => self.spec_try_get_instruction(id) is None,
            },
    {
        match self.try_get_node(id) {
            Some(NodeObject::Instr(ins)) => Some(ins),
            _ => None,
        }
    }

    pub open spec fn spec_object_type(&self, id: NodeId) -> Option<ObjectType> {
        match self.spec_try_get_node(id) {
            Some(node) => Some(node.spec_get_type()),
            None => None,
        }
    }

    /// The type of a node.
    pub fn object_type(&self, id: NodeId) -> (r: Option<ObjectType>)
        ensures
            r == self.spec_object_type(id),
    {
        match self.try_get_node(id) {
            Some(node) => Some(node.get_type()),
            None => None,
        }
    }

    pub open spec fn spec_deref(&self, id: NodeId) -> Option<ArrayId> {
        match self.spec_object_type(id) {
            Some(ObjectType::ArrayPointer(array)) => Some(array),
            _ => None,
        }
    }

    /// The array a node points to, if it points to one.
    pub fn deref(&self, id: NodeId) -> (r: Option<ArrayId>)
        ensures
            r == self.spec_deref(id),
    {
        match self.object_type(id) {
            Some(ObjectType::ArrayPointer(array)) => Some(array),
            _ => None,
        }
    }

    pub open spec fn spec_array_len(&self, array: ArrayId) -> Option<u32> {
        if array.0 < self.mem@.len() {
            Some(self.mem@[array.0 as int].len)
        } else {
            None
        }
    }

    /// The number of elements of an array.
    pub fn array_len(&self, array: ArrayId) -> (r: Option<u32>)
        ensures
            r == self.spec_array_len(array),
    {
        if (array.0 as usize) < self.mem.len() {
            Some(self.mem[array.0 as usize].len)
        } else {
            None
        }
    }

    pub open spec fn spec_block(&self, id: BlockId) -> Option<BasicBlock> {
        if id.0 < self.blocks@.len() {
            Some(self.blocks@[id.0 as int])
        } else {
            None
        }
    }

    /// The block an identifier names.
    pub fn block(&self, id: BlockId) -> (r: Option<&BasicBlock>)
        ensures
            match r {
                Some(block) => self.spec_block(id) == Some(*block),
                None => self.spec_block(id) is None,
            },
    {
        if id.0 < self.blocks.len() {
            Some(&self.blocks[id.0])
        } else {
            None
        }
    }

    pub open spec fn spec_try_get_func_id(&self, id: NodeId) -> Option<usize> {
        match self.spec_try_get_node(id) {
            Some(NodeObject::Function(FunctionKind::Normal(index))) => Some(index),
            _ => None,
        }
    }

    /// The definition a function node refers to, by its index.
    pub fn try_get_func_id(&self, id: NodeId) -> (r: Option<usize>)
        ensures
            r == self.spec_try_get_func_id(id),
    {
        match self.try_get_node(id) {
            Some(NodeObject::Function(FunctionKind::Normal(index))) => Some(*index),
            _ => None,
        }
    }

    pub open spec fn spec_ssa_func(&self, index: usize) -> Option<SsaFunction> {
        if index < self.functions@.len() {
            Some(self.functions@[index as int])
        } else {
            None
        }
    }

    /// The function definition with this index.
    pub fn ssa_func(&self, index: usize) -> (r: Option<&SsaFunction>)
        ensures
            match r {
                Some(func) => self.spec_ssa_func(index) == Some(*func),
                None => self.spec_ssa_func(index) is None,
            },
    {
        if index < self.functions.len() {
            Some(&self.functions[index])
        } else {
            None
        }
    }

    pub open spec fn spec_try_get_ssa_func(&self, id: NodeId) -> Option<SsaFunction> {
        match self.spec_try_get_func_id(id) {
            Some(index) => self.spec_ssa_func(index),
            None => None,
        }
    }

    /// The definition of the function that a node stands for.
    pub fn try_get_ssa_func(&self, id: NodeId) -> (r: Option<&SsaFunction>)
        ensures
            match r {
                Some(func) => self.spec_try_get_ssa_func(id) == Some(*func),
                None => self.spec_try_get_ssa_func(id) is None,
            },
    {
        match self.try_get_func_id(id) {
            Some(index) => self.ssa_func(index),
            None => None,
        }
    }
}

} // verus!
