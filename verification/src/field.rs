//! Field-element constants, as the plain values that the bytecode embeds.
//!
//! The arithmetic of the field itself stays in `acvm`; a constant is carried
//! here as the two 128-bit halves of its canonical representative. The
//! functions at the end of this file call into `acvm` and are not verified:
//! each states what the call returns. All of them read the element back with
//! `FieldElement::to_be_bytes`, which gives the 32 bytes of the canonical
//! value, the most significant first.

use acvm::FieldElement;
use vstd::prelude::*;

verus! {

/// A field element, as the high and low half of its canonical value.
#[derive(Clone, Copy, Debug, PartialEq, Eq, Structural)]
pub struct FieldValue {
    pub high: u128,
    pub low: u128,
}

/// Two to the power 128.
pub open spec fn half_base() -> nat {
    0x1_0000_0000_0000_0000nat * 0x1_0000_0000_0000_0000nat
}

/// Order of the scalar field of BN254, the field `acvm` computes in.
pub open spec fn field_modulus() -> nat {
    0x30644e72e131a029b85045b68181585dnat * half_base() + 0x2833e84879b9709143e1f593f0000001nat
}

/// The number that a big-endian byte string denotes.
pub open spec fn be_value(bytes: Seq<u8>) -> nat
    decreases bytes.len(),
{
    if bytes.len() == 0 {
        0
    } else {
        be_value(bytes.drop_last()) * 256 + bytes.last() as nat
    }
}

impl FieldValue {
    /// The number this constant stands for.
    pub open spec fn value(self) -> nat {
        self.high as nat * half_base() + self.low as nat
    }

    /// The constant that stands for `n`, for `n` below two to the power 256.
    pub open spec fn of_nat(n: nat) -> FieldValue {
        FieldValue { high: (n / half_base()) as u128, low: (n % half_base()) as u128 }
    }

    /// The constant of a small number.
    pub open spec fn small(n: nat) -> FieldValue {
        FieldValue { high: 0, low: n as u128 }
    }
}

/// Calls `FieldElement::zero`. Claimed: the result is the additive identity,
/// whose canonical value is 0.
#[verifier::external_body]
pub(crate) fn field_zero() -> (r: FieldValue)
    ensures
        r == FieldValue::small(0),
{
    let repr = FieldElement::zero().to_be_bytes();
    FieldValue {
        high: u128::from_be_bytes(repr[0..16].try_into().unwrap()),
        low: u128::from_be_bytes(repr[16..32].try_into().unwrap()),
    }
}

/// Calls `FieldElement::one`. Claimed: the result is the multiplicative
/// identity, whose canonical value is 1.
#[verifier::external_body]
pub(crate) fn field_one() -> (r: FieldValue)
    ensures
        r == FieldValue::small(1),
{
    let repr = FieldElement::one().to_be_bytes();
    FieldValue {
        high: u128::from_be_bytes(repr[0..16].try_into().unwrap()),
        low: u128::from_be_bytes(repr[16..32].try_into().unwrap()),
    }
}

/// Calls `FieldElement::from` on an `i128`. Claimed: a number that is not
/// negative is below the order of the field, so it is its own canonical value.
#[verifier::external_body]
pub(crate) fn field_from_i128(v: i128) -> (r: FieldValue)
    requires
        v >= 0,
    ensures
        r == FieldValue::small(v as nat),
{
    let repr = FieldElement::from(v).to_be_bytes();
    FieldValue {
        high: u128::from_be_bytes(repr[0..16].try_into().unwrap()),
        low: u128::from_be_bytes(repr[16..32].try_into().unwrap()),
    }
}

/// Calls `FieldElement::from_be_bytes_reduce`. Claimed: the bytes are read as
/// a big-endian number, which is reduced modulo the order of the field.
#[verifier::external_body]
pub(crate) fn field_from_be_bytes_reduce(bytes: &Vec<u8>) -> (r: FieldValue)
    ensures
        r == FieldValue::of_nat(be_value(bytes@) % field_modulus()),
{
    let repr = FieldElement::from_be_bytes_reduce(bytes).to_be_bytes();
    FieldValue {
        high: u128::from_be_bytes(repr[0..16].try_into().unwrap()),
        low: u128::from_be_bytes(repr[16..32].try_into().unwrap()),
    }
}

} // verus!
