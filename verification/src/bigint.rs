//! Arbitrary-precision integers for the value model.
//!
//! The virtual machine computes on `num_bigint::BigInt` so that arithmetic is
//! exact. Verus sees that type as opaque; this module declares it and gives
//! each operation the machine needs a contract over `big_value`, the
//! mathematical integer a `BigInt` stands for.

use vstd::prelude::*;

verus! {

#[verifier::external_type_specification]
#[verifier::external_body]
pub struct ExBigInt(num_bigint::BigInt);

/// The mathematical integer that a `BigInt` represents.
pub uninterp spec fn big_value(b: num_bigint::BigInt) -> int;

/// Quotient of truncated division (rounding toward zero), the convention
/// `BigInt` division follows.
pub open spec fn div_trunc(a: int, b: int) -> int
    recommends
        b != 0,
{
    if a >= 0 && b > 0 {
        a / b
    } else if a <= 0 && b < 0 {
        (-a) / (-b)
    } else if a < 0 {
        -((-a) / b)
    } else {
        -(a / (-b))
    }
}

/// Relies on `<i64 as Into<BigInt>>`: `BigInt::from` embeds the machine
/// integer exactly.
#[verifier::external_body]
pub(crate) fn big_from_i64(v: i64) -> (r: num_bigint::BigInt)
    ensures
        big_value(r) == v as int,
{
    num_bigint::BigInt::from(v)
}

/// Relies on `BigInt::clone`: the clone represents the same integer.
#[verifier::external_body]
pub(crate) fn big_clone(a: &num_bigint::BigInt) -> (r: num_bigint::BigInt)
    ensures
        big_value(r) == big_value(*a),
{
    a.clone()
}

/// Relies on `<&BigInt as Add>::add`: exact addition.
#[verifier::external_body]
pub(crate) fn big_add(a: &num_bigint::BigInt, b: &num_bigint::BigInt) -> (r: num_bigint::BigInt)
    ensures
        big_value(r) == big_value(*a) + big_value(*b),
{
    a + b
}

/// Relies on `<&BigInt as Sub>::sub`: exact subtraction.
#[verifier::external_body]
pub(crate) fn big_sub(a: &num_bigint::BigInt, b: &num_bigint::BigInt) -> (r: num_bigint::BigInt)
    ensures
        big_value(r) == big_value(*a) - big_value(*b),
{
    a - b
}

/// Relies on `<&BigInt as Mul>::mul`: exact multiplication.
#[verifier::external_body]
pub(crate) fn big_mul(a: &num_bigint::BigInt, b: &num_bigint::BigInt) -> (r: num_bigint::BigInt)
    ensures
        big_value(r) == big_value(*a) * big_value(*b),
{
    a * b
}

/// Relies on `<&BigInt as Div>::div`: truncated division (the quotient of
/// `Integer::div_rem`). It panics on a zero divisor, which `requires`
/// excludes.
#[verifier::external_body]
pub(crate) fn big_div(a: &num_bigint::BigInt, b: &num_bigint::BigInt) -> (r: num_bigint::BigInt)
    requires
        big_value(*b) != 0,
    ensures
        big_value(r) == div_trunc(big_value(*a), big_value(*b)),
{
    a / b
}

/// Relies on `<&BigInt as Neg>::neg`: exact negation.
#[verifier::external_body]
pub(crate) fn big_neg(a: &num_bigint::BigInt) -> (r: num_bigint::BigInt)
    ensures
        big_value(r) == -big_value(*a),
{
    -a
}

/// Relies on `<BigInt as PartialEq>::eq`, which compares sign and magnitude:
/// two `BigInt`s are `==` exactly when they represent the same integer.
#[verifier::external_body]
pub(crate) fn big_eq(a: &num_bigint::BigInt, b: &num_bigint::BigInt) -> (r: bool)
    ensures
        r == (big_value(*a) == big_value(*b)),
{
    a == b
}

/// Relies on `<BigInt as Ord>::cmp`, which orders by sign and magnitude:
/// `a < b` exactly when the represented integers are so ordered.
#[verifier::external_body]
pub(crate) fn big_lt(a: &num_bigint::BigInt, b: &num_bigint::BigInt) -> (r: bool)
    ensures
        r == (big_value(*a) < big_value(*b)),
{
    a < b
}

/// Relies on `<BigInt as Zero>::is_zero`: true exactly of the representation
/// of zero.
#[verifier::external_body]
pub(crate) fn big_is_zero(a: &num_bigint::BigInt) -> (r: bool)
    ensures
        r == (big_value(*a) == 0),
{
    num_traits::Zero::is_zero(a)
}

} // verus!
