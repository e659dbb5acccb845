//! The ABI of a program's entry point: the names and types of its parameters.

use vstd::prelude::*;

verus! {

/// Visibility of a field-element parameter.
#[derive(Clone, Copy, Debug, PartialEq, Eq)]
pub enum AbiFEType {
    Public,
    Private,
}

/// Signedness of an integer parameter.
#[derive(Clone, Copy, Debug, PartialEq, Eq)]
pub enum Sign {
    Unsigned,
    Signed,
}

/// Types that may appear in the signature of an entry point.
#[derive(Debug, PartialEq, Eq)]
pub enum AbiType {
    Field(AbiFEType),
    Array { length: u128, typ: Box<AbiType> },
    Integer { sign: Sign, width: u32 },
}

impl AbiType {
    /// A copy of this type, equal to it.
    pub fn duplicate(&self) -> (r: AbiType)
        ensures
            r == *self,
        decreases *self,
    {
        match self {
            AbiType::Field(visibility) => AbiType::Field(*visibility),
            AbiType::Array { length, typ } => AbiType::Array {
                length: *length,
                typ: Box::new(typ.duplicate()),
            },
            AbiType::Integer { sign, width } => AbiType::Integer { sign: *sign, width: *width },
        }
    }

    /// Number of elements a value of this type is made of: the declared length
    /// of an array (cut to the machine word), one for anything else.
    pub open spec fn spec_num_elements(&self) -> usize {
        match self {
            AbiType::Array { length, .. } => *length as usize,
            _ => 1usize,
        }
    }

    pub fn num_elements(&self) -> (n: usize)
        ensures
            n == self.spec_num_elements(),
    {
        match self {
            AbiType::Field(_) | AbiType::Integer { .. } => 1,
            AbiType::Array { length, typ: _ } => #[verifier::truncate]
            (*length as usize),
        }
    }
}

impl Clone for AbiType {
    fn clone(&self) -> (r: Self)
        ensures
            r == *self,
    {
        self.duplicate()
    }
}

/// The parameters of an entry point, in declaration order.
#[derive(Clone, Debug)]
pub struct Abi {
    pub parameters: Vec<(String, AbiType)>,
}

impl Abi {
    /// The parameter names, in declaration order.
    pub fn parameter_names(&self) -> (names: Vec<&String>)
        ensures
            names@.len() == self.parameters@.len(),
            forall|i: int| 0 <= i < names@.len() ==> *#[trigger] names@[i] == self.parameters@[i].0,
    {
        let mut names: Vec<&String> = Vec::new();
        let mut i: usize = 0;
        while i < self.parameters.len()
            invariant
                i <= self.parameters@.len(),
                names@.len() == i,
                forall|j: int| 0 <= j < i ==> *#[trigger] names@[j] == self.parameters@[j].0,
            decreases self.parameters@.len() - i,
        {
            names.push(&self.parameters[i].0);
            i += 1;
        }
        names
    }

    pub fn num_parameters(&self) -> (n: usize)
        ensures
            n == self.parameters@.len(),
    {
        self.parameters.len()
    }
}

} // verus!
