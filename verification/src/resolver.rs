//! From SSA values to operands of the register machine.

use crate::errors::{CompileError, Construct, Violation};
use crate::field::{be_value, field_from_be_bytes_reduce, field_from_i128, field_modulus, FieldValue};
use crate::opcode::{Opcode, OpcodeView, RegisterIndex, RegisterMemIndex, Typ};
use crate::ssa::{ArrayId, NodeId, NodeObject, NumericType, ObjectType, SsaContext};
use crate::state::{yields, BrilligGen, LowerState};
use vstd::prelude::*;

verus! {

/// The constant that holds the address of an array: its identifier.
pub open spec fn array_address(array: ArrayId) -> RegisterMemIndex {
    RegisterMemIndex::Constant(FieldValue::small(array.0 as nat))
}

/// The operand that stands for the value `a`, and the state after resolving
/// it. A variable or the result of an instruction lives in the register with
/// the number of its node, which then counts as used; a variable that points
/// to an array has the address of the array loaded into that register; a
/// constant is embedded, reduced to the field.
pub open spec fn resolve(ctx: &SsaContext, st: LowerState, a: NodeId) -> Result<
    (LowerState, RegisterMemIndex),
    CompileError,
> {
    let register = RegisterMemIndex::Register(RegisterIndex(a.0));
    match ctx.spec_try_get_node(a) {
        None => Err(CompileError::Internal(Violation::UnknownNode)),
        Some(NodeObject::Variable(typ)) => match typ {
            ObjectType::ArrayPointer(array) => Ok(
                (
                    st.raise(a.0).emit(
                        OpcodeView::Mov { destination: register, source: array_address(array) },
                    ),
                    register,
                ),
            ),
            _ => Ok((st.raise(a.0), register)),
        },
        Some(NodeObject::Instr(_)) => Ok((st.raise(a.0), register)),
        Some(NodeObject::Const(c)) => Ok(
            (
                st,
                RegisterMemIndex::Constant(
                    FieldValue::of_nat(be_value(c.value@) % field_modulus()),
                ),
            ),
        ),
        Some(NodeObject::Function(_)) => Err(CompileError::Unsupported(Construct::FunctionValue)),
    }
}

/// The register that stands for the value `a`, which must not be a constant.
pub open spec fn resolve_register(ctx: &SsaContext, st: LowerState, a: NodeId) -> Result<
    (LowerState, RegisterIndex),
    CompileError,
> {
    match resolve(ctx, st, a) {
        Err(e) => Err(e),
        Ok((st1, RegisterMemIndex::Register(index))) => Ok((st1, index)),
        Ok((_, RegisterMemIndex::Constant(_))) => Err(
            CompileError::Internal(Violation::ConstantDestination),
        ),
    }
}

/// The numeric type of the machine that an SSA type denotes.
pub open spec fn spec_object_type_2_typ(object_type: ObjectType) -> Result<Typ, CompileError> {
    match object_type {
        ObjectType::Numeric(NumericType::NativeField) => Ok(Typ::Field),
        ObjectType::Numeric(NumericType::Unsigned(s)) => Ok(Typ::Unsigned { bit_size: s }),
        ObjectType::Numeric(NumericType::Signed(s)) => Ok(Typ::Signed { bit_size: s }),
        _ => Err(CompileError::Unsupported(Construct::NonNumericType)),
    }
}

pub fn object_type_2_typ(object_type: ObjectType) -> (r: Result<Typ, CompileError>)
    ensures
        r == spec_object_type_2_typ(object_type),
{
    match object_type {
        ObjectType::Numeric(NumericType::NativeField) => Ok(Typ::Field),
        ObjectType::Numeric(NumericType::Unsigned(s)) => Ok(Typ::Unsigned { bit_size: s }),
        ObjectType::Numeric(NumericType::Signed(s)) => Ok(Typ::Signed { bit_size: s }),
        _ => Err(CompileError::Unsupported(Construct::NonNumericType)),
    }
}

/// The constant that holds the address of an array.
pub fn array_address_of(array: ArrayId) -> (r: RegisterMemIndex)
    ensures
        r == array_address(array),
{
    RegisterMemIndex::Constant(field_from_i128(array.0 as i128))
}

impl BrilligGen {
    /// Counts register `index` as used.
    fn raise(&mut self, index: usize)
        ensures
            final(self).state() == old(self).state().raise(index),
            final(self).table() == old(self).table(),
    {
        if index > self.max_register {
            self.max_register = index;
        }
    }

    /// Resolves an SSA value to an operand.
    pub fn node_2_register(&mut self, ctx: &SsaContext, a: NodeId) -> (r: Result<
        RegisterMemIndex,
        CompileError,
    >)
        ensures
            yields(resolve(ctx, old(self).state(), a), r, final(self).state()),
            final(self).table() == old(self).table(),
    {
        let register = RegisterMemIndex::Register(RegisterIndex(a.0));
        match ctx.try_get_node(a) {
            None => Err(CompileError::Internal(Violation::UnknownNode)),
            Some(NodeObject::Variable(typ)) => {
                self.raise(a.0);
                match typ {
                    ObjectType::ArrayPointer(array) => {
                        let source = array_address_of(*array);
                        self.push_code(Opcode::Mov { destination: register, source });
                    },
                    _ => {},
                }
                Ok(register)
            },
            Some(NodeObject::Instr(_)) => {
                self.raise(a.0);
                Ok(register)
            },
            Some(NodeObject::Const(c)) => Ok(
                RegisterMemIndex::Constant(field_from_be_bytes_reduce(&c.value)),
            ),
            Some(NodeObject::Function(_)) => Err(
                CompileError::Unsupported(Construct::FunctionValue),
            ),
        }
    }

    /// Resolves an SSA value that takes a result to its register.
    pub fn node_2_result_register(&mut self, ctx: &SsaContext, a: NodeId) -> (r: Result<
        RegisterIndex,
        CompileError,
    >)
        ensures
            yields(resolve_register(ctx, old(self).state(), a), r, final(self).state()),
            final(self).table() == old(self).table(),
    {
        match self.node_2_register(ctx, a) {
            Err(e) => Err(e),
            Ok(operand) => match operand.to_register_index() {
                Some(index) => Ok(index),
                None => Err(CompileError::Internal(Violation::ConstantDestination)),
            },
        }
    }
}

} // verus!
