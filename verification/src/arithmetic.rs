//! Lowering of binary operations and casts.

use crate::errors::{CompileError, Construct, Violation};
use crate::field::{field_one, field_zero, FieldValue};
use crate::opcode;
use crate::opcode::{Comparison, Opcode, OpcodeView, RegisterIndex, RegisterMemIndex, Typ};
use crate::resolver::{object_type_2_typ, resolve, resolve_register, spec_object_type_2_typ};
use crate::ssa::{Binary, BinaryOp, NodeId, NumericType, ObjectType, SsaContext};
use crate::state::{steps, BrilligGen, LowerState};
use vstd::prelude::*;

verus! {

/// The opcode `result = lhs op rhs`.
pub open spec fn binary_opcode(
    result_type: Typ,
    op: opcode::BinaryOp,
    lhs: RegisterMemIndex,
    rhs: RegisterMemIndex,
    result: RegisterIndex,
) -> OpcodeView {
    OpcodeView::BinaryOp { result_type, op, lhs, rhs, result }
}

/// The type of a truth value: one bit, unsigned.
pub open spec fn boolean() -> Typ {
    Typ::Unsigned { bit_size: 1 }
}

/// The code for one binary operation on resolved operands.
///
/// Addition, subtraction, multiplication and division are one opcode each. An
/// unsigned remainder is `lhs - (lhs / rhs) * rhs`, with the quotient and the
/// product in a fresh register. Equality is one comparison, inequality its
/// complement, and an ordered comparison is one opcode, strict or not as the
/// operator is. Checked arithmetic, the signed remainder, bitwise operations
/// and shifts are not taken.
pub open spec fn binary_table(
    st: LowerState,
    operator: BinaryOp,
    result_type: Typ,
    lhs: RegisterMemIndex,
    rhs: RegisterMemIndex,
    result: RegisterIndex,
) -> Result<LowerState, CompileError> {
    match operator {
        BinaryOp::Add => Ok(
            st.emit(binary_opcode(result_type, opcode::BinaryOp::Add, lhs, rhs, result)),
        ),
        BinaryOp::Sub => Ok(
            st.emit(binary_opcode(result_type, opcode::BinaryOp::Sub, lhs, rhs, result)),
        ),
        BinaryOp::Mul => Ok(
            st.emit(binary_opcode(result_type, opcode::BinaryOp::Mul, lhs, rhs, result)),
        ),
        BinaryOp::Udiv | BinaryOp::Sdiv | BinaryOp::Div => Ok(
            st.emit(binary_opcode(result_type, opcode::BinaryOp::Div, lhs, rhs, result)),
        ),
        BinaryOp::Urem => match st.take_tmp() {
            Err(e) => Err(e),
            Ok((st1, q)) => Ok(
                st1.emit(binary_opcode(result_type, opcode::BinaryOp::Div, lhs, rhs, q)).emit(
                    binary_opcode(
                        result_type,
                        opcode::BinaryOp::Mul,
                        RegisterMemIndex::Register(q),
                        rhs,
                        q,
                    ),
                ).emit(
                    binary_opcode(
                        result_type,
                        opcode::BinaryOp::Sub,
                        lhs,
                        RegisterMemIndex::Register(q),
                        result,
                    ),
                ),
            ),
        },
        BinaryOp::Eq => Ok(
            st.emit(
                binary_opcode(boolean(), opcode::BinaryOp::Cmp(Comparison::Eq), lhs, rhs, result),
            ),
        ),
        BinaryOp::Ne => Ok(
            st.emit(
                binary_opcode(boolean(), opcode::BinaryOp::Cmp(Comparison::Eq), lhs, rhs, result),
            ).emit(
                binary_opcode(
                    boolean(),
                    opcode::BinaryOp::Sub,
                    RegisterMemIndex::Constant(FieldValue::small(1)),
                    RegisterMemIndex::Register(result),
                    result,
                ),
            ),
        ),
        BinaryOp::Ule | BinaryOp::Lte | BinaryOp::Sle => Ok(
            st.emit(
                binary_opcode(
                    result_type,
                    opcode::BinaryOp::Cmp(Comparison::Lte),
                    lhs,
                    rhs,
                    result,
                ),
            ),
        ),
        BinaryOp::Ult | BinaryOp::Slt | BinaryOp::Lt => Ok(
            st.emit(
                binary_opcode(result_type, opcode::BinaryOp::Cmp(Comparison::Lt), lhs, rhs, result),
            ),
        ),
        BinaryOp::SafeAdd | BinaryOp::SafeSub | BinaryOp::SafeMul => Err(
            CompileError::Unsupported(Construct::CheckedArithmetic),
        ),
        BinaryOp::Srem => Err(CompileError::Unsupported(Construct::SignedRemainder)),
        BinaryOp::And | BinaryOp::Or | BinaryOp::Xor => Err(
            CompileError::Unsupported(Construct::Bitwise),
        ),
        BinaryOp::Shl | BinaryOp::Shr => Err(CompileError::Unsupported(Construct::Shift)),
        BinaryOp::Assign => Err(CompileError::Unsupported(Construct::Assign)),
    }
}

/// The lowering of the binary operation `binary`, whose result is the node
/// `id` of type `object_type`: both operands are resolved, then the result,
/// then the operation is looked up in the table.
pub open spec fn lower_binary(
    ctx: &SsaContext,
    st: LowerState,
    binary: Binary,
    id: NodeId,
    object_type: ObjectType,
) -> Result<LowerState, CompileError> {
    match resolve(ctx, st, binary.lhs) {
        Err(e) => Err(e),
        Ok((st1, lhs)) => match resolve(ctx, st1, binary.rhs) {
            Err(e) => Err(e),
            Ok((st2, rhs)) => match spec_object_type_2_typ(object_type) {
                Err(e) => Err(e),
                Ok(result_type) => match resolve_register(ctx, st2, id) {
                    Err(e) => Err(e),
                    Ok((st3, result)) => binary_table(
                        st3,
                        binary.operator,
                        result_type,
                        lhs,
                        rhs,
                        result,
                    ),
                },
            },
        },
    }
}

/// How a cast from one type to another is carried out.
pub enum CastRule {
    /// The value is moved as it is.
    Move,
    /// Zero is added in the unsigned type of this width, which fits the value
    /// to the width.
    AddZero(u32),
}

/// The rule for a cast from `from` to `to`. Between unsigned integers a cast
/// that does not widen is a move, and one that widens adds zero at the width
/// of the target; from an unsigned integer to the field is a move, from the
/// field to an unsigned integer adds zero. Casts that involve a signed integer
/// are not taken, nor are casts between other types.
pub open spec fn spec_cast_rule(from: ObjectType, to: ObjectType) -> Result<CastRule, CompileError> {
    match (from, to) {
        (
            ObjectType::Numeric(NumericType::Unsigned(s1)),
            ObjectType::Numeric(NumericType::Unsigned(s2)),
        ) => if s2 <= s1 {
            Ok(CastRule::Move)
        } else {
            Ok(CastRule::AddZero(s2))
        },
        (
            ObjectType::Numeric(NumericType::Unsigned(_)),
            ObjectType::Numeric(NumericType::NativeField),
        ) => Ok(CastRule::Move),
        (
            ObjectType::Numeric(NumericType::NativeField),
            ObjectType::Numeric(NumericType::Unsigned(s2)),
        ) => Ok(CastRule::AddZero(s2)),
        (ObjectType::Numeric(NumericType::Signed(_)), ObjectType::Numeric(_)) => Err(
            CompileError::Unsupported(Construct::SignedCast),
        ),
        (ObjectType::Numeric(_), ObjectType::Numeric(NumericType::Signed(_))) => Err(
            CompileError::Unsupported(Construct::SignedCast),
        ),
        _ => Err(CompileError::Unsupported(Construct::Cast)),
    }
}

pub fn cast_rule(from: ObjectType, to: ObjectType) -> (r: Result<CastRule, CompileError>)
    ensures
        r == spec_cast_rule(from, to),
{
    match (from, to) {
        (
            ObjectType::Numeric(NumericType::Unsigned(s1)),
            ObjectType::Numeric(NumericType::Unsigned(s2)),
        ) => if s2 <= s1 {
            Ok(CastRule::Move)
        } else {
            Ok(CastRule::AddZero(s2))
        },
        (
            ObjectType::Numeric(NumericType::Unsigned(_)),
            ObjectType::Numeric(NumericType::NativeField),
        ) => Ok(CastRule::Move),
        (
            ObjectType::Numeric(NumericType::NativeField),
            ObjectType::Numeric(NumericType::Unsigned(s2)),
        ) => Ok(CastRule::AddZero(s2)),
        (ObjectType::Numeric(NumericType::Signed(_)), ObjectType::Numeric(_)) => Err(
            CompileError::Unsupported(Construct::SignedCast),
        ),
        (ObjectType::Numeric(_), ObjectType::Numeric(NumericType::Signed(_))) => Err(
            CompileError::Unsupported(Construct::SignedCast),
        ),
        _ => Err(CompileError::Unsupported(Construct::Cast)),
    }
}

/// The lowering of a cast of the value `value` to the type `to` of the node
/// `id`: the result and the operand are resolved, then the rule for the two
/// types is carried out.
pub open spec fn lower_cast(
    ctx: &SsaContext,
    st: LowerState,
    value: NodeId,
    id: NodeId,
    to: ObjectType,
) -> Result<LowerState, CompileError> {
    match resolve(ctx, st, id) {
        Err(e) => Err(e),
        Ok((st1, destination)) => match resolve(ctx, st1, value) {
            Err(e) => Err(e),
            Ok((st2, source)) => match ctx.spec_object_type(value) {
                None => Err(CompileError::Internal(Violation::UnknownNode)),
                Some(from) => match spec_cast_rule(from, to) {
                    Err(e) => Err(e),
                    Ok(CastRule::Move) => Ok(st2.emit(OpcodeView::Mov { destination, source })),
                    Ok(CastRule::AddZero(bit_size)) => match destination {
                        RegisterMemIndex::Constant(_) => Err(
                            CompileError::Internal(Violation::ConstantDestination),
                        ),
                        RegisterMemIndex::Register(result) => Ok(
                            st2.emit(
                                binary_opcode(
                                    Typ::Unsigned { bit_size },
                                    opcode::BinaryOp::Add,
                                    source,
                                    RegisterMemIndex::Constant(FieldValue::small(0)),
                                    result,
                                ),
                            ),
                        ),
                    },
                },
            },
        },
    }
}

impl BrilligGen {
    /// Adds the code of one binary operation on resolved operands.
    fn binary_code(
        &mut self,
        operator: BinaryOp,
        result_type: Typ,
        lhs: RegisterMemIndex,
        rhs: RegisterMemIndex,
        result: RegisterIndex,
    ) -> (r: Result<(), CompileError>)
        ensures
            steps(
                binary_table(old(self).state(), operator, result_type, lhs, rhs, result),
                r,
                final(self).state(),
            ),
            final(self).table() == old(self).table(),
    {
        let boolean = Typ::Unsigned { bit_size: 1 };
        match operator {
            BinaryOp::Add => {
                self.push_code(
                    Opcode::BinaryOp { result_type, op: opcode::BinaryOp::Add, lhs, rhs, result },
                );
            },
            BinaryOp::Sub => {
                self.push_code(
                    Opcode::BinaryOp { result_type, op: opcode::BinaryOp::Sub, lhs, rhs, result },
                );
            },
            BinaryOp::Mul => {
                self.push_code(
                    Opcode::BinaryOp { result_type, op: opcode::BinaryOp::Mul, lhs, rhs, result },
                );
            },
            BinaryOp::Udiv | BinaryOp::Sdiv | BinaryOp::Div => {
                self.push_code(
                    Opcode::BinaryOp { result_type, op: opcode::BinaryOp::Div, lhs, rhs, result },
                );
            },
            BinaryOp::Urem => {
                let q = self.get_tmp_register()?;
                self.push_code(
                    Opcode::BinaryOp {
                        result_type,
                        op: opcode::BinaryOp::Div,
                        lhs,
                        rhs,
                        result: q,
                    },
                );
                self.push_code(
                    Opcode::BinaryOp {
                        result_type,
                        op: opcode::BinaryOp::Mul,
                        lhs: RegisterMemIndex::Register(q),
                        rhs,
                        result: q,
                    },
                );
                self.push_code(
                    Opcode::BinaryOp {
                        result_type,
                        op: opcode::BinaryOp::Sub,
                        lhs,
                        rhs: RegisterMemIndex::Register(q),
                        result,
                    },
                );
            },
            BinaryOp::Eq => {
                self.push_code(
                    Opcode::BinaryOp {
                        result_type: boolean,
                        op: opcode::BinaryOp::Cmp(Comparison::Eq),
                        lhs,
                        rhs,
                        result,
                    },
                );
            },
            BinaryOp::Ne => {
                self.push_code(
                    Opcode::BinaryOp {
                        result_type: boolean,
                        op: opcode::BinaryOp::Cmp(Comparison::Eq),
                        lhs,
                        rhs,
                        result,
                    },
                );
                self.push_code(
                    Opcode::BinaryOp {
                        result_type: boolean,
                        op: opcode::BinaryOp::Sub,
                        lhs: RegisterMemIndex::Constant(field_one()),
                        rhs: RegisterMemIndex::Register(result),
                        result,
                    },
                );
            },
            BinaryOp::Ule | BinaryOp::Lte | BinaryOp::Sle => {
                self.push_code(
                    Opcode::BinaryOp {
                        result_type,
                        op: opcode::BinaryOp::Cmp(Comparison::Lte),
                        lhs,
                        rhs,
                        result,
                    },
                );
            },
            BinaryOp::Ult | BinaryOp::Slt | BinaryOp::Lt => {
                self.push_code(
                    Opcode::BinaryOp {
                        result_type,
                        op: opcode::BinaryOp::Cmp(Comparison::Lt),
                        lhs,
                        rhs,
                        result,
                    },
                );
            },
            BinaryOp::SafeAdd | BinaryOp::SafeSub | BinaryOp::SafeMul => {
                return Err(CompileError::Unsupported(Construct::CheckedArithmetic));
            },
            BinaryOp::Srem => {
                return Err(CompileError::Unsupported(Construct::SignedRemainder));
            },
            BinaryOp::And | BinaryOp::Or | BinaryOp::Xor => {
                return Err(CompileError::Unsupported(Construct::Bitwise));
            },
            BinaryOp::Shl | BinaryOp::Shr => {
                return Err(CompileError::Unsupported(Construct::Shift));
            },
            BinaryOp::Assign => {
                return Err(CompileError::Unsupported(Construct::Assign));
            },
        }
        Ok(())
    }

    /// Lowers a binary operation whose result is the node `id`.
    pub fn binary(
        &mut self,
        ctx: &SsaContext,
        binary: &Binary,
        id: NodeId,
        object_type: ObjectType,
    ) -> (r: Result<(), CompileError>)
        ensures
            steps(
                lower_binary(ctx, old(self).state(), *binary, id, object_type),
                r,
                final(self).state(),
            ),
            final(self).table() == old(self).table(),
    {
        let lhs = self.node_2_register(ctx, binary.lhs)?;
        let rhs = self.node_2_register(ctx, binary.rhs)?;
        let result_type = object_type_2_typ(object_type)?;
        let result = self.node_2_result_register(ctx, id)?;
        self.binary_code(binary.operator, result_type, lhs, rhs, result)
    }

    /// Lowers a cast of `value` to the type `to` of the node `id`.
    pub fn cast(&mut self, ctx: &SsaContext, value: NodeId, id: NodeId, to: ObjectType) -> (r:
        Result<(), CompileError>)
        ensures
            steps(lower_cast(ctx, old(self).state(), value, id, to), r, final(self).state()),
            final(self).table() == old(self).table(),
    {
        let destination = self.node_2_register(ctx, id)?;
        let source = self.node_2_register(ctx, value)?;
        let from = match ctx.object_type(value) {
            Some(from) => from,
            None => {
                return Err(CompileError::Internal(Violation::UnknownNode));
            },
        };
        match cast_rule(from, to)? {
            CastRule::Move => {
                self.push_code(Opcode::Mov { destination, source });
            },
            CastRule::AddZero(bit_size) => match destination.to_register_index() {
                None => {
                    return Err(CompileError::Internal(Violation::ConstantDestination));
                },
                Some(result) => {
                    self.push_code(
                        Opcode::BinaryOp {
                            result_type: Typ::Unsigned { bit_size },
                            op: opcode::BinaryOp::Add,
                            lhs: source,
                            rhs: RegisterMemIndex::Constant(field_zero()),
                            result,
                        },
                    );
                },
            },
        }
        Ok(())
    }
}

} // verus!
