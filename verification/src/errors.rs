//! Why a function could not be compiled or linked.

use vstd::prelude::*;

verus! {

/// The class of a construct that the bytecode target does not take.
#[derive(Clone, Copy, Debug, PartialEq, Eq, Structural)]
pub enum Construct {
    /// A cast from or to a signed integer.
    SignedCast,
    /// A cast between types other than unsigned integers and the field.
    Cast,
    /// Addition, subtraction or multiplication with an overflow check.
    CheckedArithmetic,
    /// The remainder of a signed division.
    SignedRemainder,
    /// Bitwise and, or, xor, not.
    Bitwise,
    /// A shift to the left or right.
    Shift,
    /// An assignment that survived into the graph.
    Assign,
    /// A call of a built-in function.
    Intrinsic,
    /// A jump that is not the last instruction of its block.
    MisplacedJump,
    /// A function used as a value.
    FunctionValue,
    /// An operation whose result is not a number.
    NonNumericType,
}

/// An inconsistency in the graph or in the objects handed to the linker.
#[derive(Clone, Copy, Debug, PartialEq, Eq, Structural)]
pub enum Violation {
    /// A node identifier names no node.
    UnknownNode,
    /// A block identifier names no block.
    UnknownBlock,
    /// An array identifier names no array.
    UnknownArray,
    /// A function node names no function definition.
    UnknownFunction,
    /// A block lists a node that is not an instruction.
    NotAnInstruction,
    /// A constant stands where a result register is needed.
    ConstantDestination,
    /// A call starts while the results of another are still collected.
    OverlappingCall,
    /// A result refers to no call, or not to the one that is collected.
    OrphanResult,
    /// The results of a call do not fit the positions its callee declares.
    ResultMismatch,
    /// The register file is exhausted.
    RegisterOverflow,
    /// An operation that only the arithmetic-circuit passes introduce.
    CircuitOnlyOperation,
    /// A block was scheduled a second time.
    BlockRevisited,
    /// No join block follows the head of a conditional.
    MissingJoin,
    /// A jump leads to a block that no linked object holds.
    UnresolvedSymbol,
    /// An object without code was handed to the linker.
    EmptyArtefact,
    /// A placeholder no longer holds the value it was recorded with.
    PlaceholderMismatch,
    /// A recorded position holds no jump and no return-address marker.
    NotAFixup,
    /// A recorded position lies outside the code.
    FixupOutOfRange,
    /// An offset does not fit the machine word.
    OffsetOverflow,
}

/// Why compiling or linking failed.
#[derive(Clone, Copy, Debug, PartialEq, Eq, Structural)]
pub enum CompileError {
    /// The program uses something the target cannot express.
    Unsupported(Construct),
    /// The input contradicts itself: a fault of whoever produced it.
    Internal(Violation),
}

impl CompileError {
    /// The message of this error, as a sequence of characters.
    pub open spec fn spec_message(self) -> Seq<char> {
        match self {
            CompileError::Unsupported(_) => "Operation not supported in unsafe functions"@,
            CompileError::Internal(Violation::OverlappingCall) => "Error calling function"@,
            CompileError::Internal(Violation::UnresolvedSymbol) => "ICE: unresolved symbol"@,
            CompileError::Internal(Violation::EmptyArtefact) => "ICE: unresolved symbol"@,
            CompileError::Internal(_) => "ICE: inconsistent program"@,
        }
    }

    /// A message for the user.
    pub fn message(&self) -> (text: String)
        ensures
            text@ == self.spec_message(),
    {
        match self {
            CompileError::Unsupported(_) => "Operation not supported in unsafe functions".to_owned(),
            CompileError::Internal(Violation::OverlappingCall) => "Error calling function".to_owned(),
            CompileError::Internal(Violation::UnresolvedSymbol) => "ICE: unresolved symbol".to_owned(),
            CompileError::Internal(Violation::EmptyArtefact) => "ICE: unresolved symbol".to_owned(),
            CompileError::Internal(_) => "ICE: inconsistent program".to_owned(),
        }
    }

    /// Whether the fault lies with the program rather than with its producer.
    pub fn is_unsupported(&self) -> (r: bool)
        ensures
            r == (*self is Unsupported),
    {
        match self {
            CompileError::Unsupported(_) => true,
            CompileError::Internal(_) => false,
        }
    }
}

} // verus!
