//! Integers of any size. The arithmetic is the big-integer library's; the
//! codec only makes them from machine integers and reads and writes their
//! decimal text.

use crate::xer::text::{decimal_text, decimal_value, is_decimal};
use vstd::prelude::*;

verus! {

/// The big integer: `num_bigint::BigInt`, of which nothing is seen but the
/// value that it holds.
#[verifier::external_type_specification]
#[verifier::external_body]
pub struct ExBigInt(num_bigint::BigInt);

/// The mathematical integer that a big integer holds.
pub uninterp spec fn integer_value(n: num_bigint::BigInt) -> int;

/// `BigInt::from` of an `i128`: the big integer of the same value.
#[verifier::external_body]
pub(crate) fn integer_from_i128(n: i128) -> (big: num_bigint::BigInt)
    ensures
        integer_value(big) == n,
{
    num_bigint::BigInt::from(n)
}

/// `BigInt::to_str_radix` with radix 10: the decimal digits of the value,
/// after a `-` where it is negative.
#[verifier::external_body]
pub(crate) fn integer_to_decimal(n: &num_bigint::BigInt) -> (text: String)
    ensures
        text@ == decimal_text(integer_value(*n)),
{
    n.to_str_radix(10)
}

/// `BigInt::parse_bytes` with radix 10, on decimal digits that a `-` may
/// precede: the big integer that they stand for.
#[verifier::external_body]
pub(crate) fn integer_from_decimal(text: &str) -> (big: num_bigint::BigInt)
    requires
        is_decimal(text@),
    ensures
        integer_value(big) == decimal_value(text@),
{
    num_bigint::BigInt::parse_bytes(text.as_bytes(), 10).unwrap()
}

} // verus!
