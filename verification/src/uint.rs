//! Integers that JavaScript can hold exactly, as `js_int` has them.
//!
//! This crate keeps such an integer as a `u64` that is at most [`MAX_SAFE_UINT`]. The functions
//! of this module hand such values to `js_int` and take its answers back. What they promise is
//! what `js_int` does; it is taken on trust and not proved in this crate.

use vstd::prelude::*;

verus! {

/// The largest integer that JavaScript can hold exactly: 2^53 - 1.
pub const MAX_SAFE_UINT: u64 = 0x001F_FFFF_FFFF_FFFF;

/// The constant `js_int::UInt::MAX`, as a `u64`.
///
/// Taken on trust: it is `MAX_SAFE_UINT`.
#[verifier::external_body]
pub(crate) fn uint_max() -> (max: u64)
    ensures
        max == MAX_SAFE_UINT,
{
    u64::from(js_int::UInt::MAX)
}

/// `js_int::UInt::try_from` on a `usize`, with the `UInt` as a `u64` and the error as `None`.
///
/// Taken on trust: the conversion succeeds just for the numbers up to `MAX_SAFE_UINT`, and
/// keeps the number.
#[verifier::external_body]
pub(crate) fn uint_from_usize(value: usize) -> (r: Option<u64>)
    ensures
        r == if value <= MAX_SAFE_UINT {
            Some(value as u64)
        } else {
            None
        },
{
    js_int::UInt::try_from(value).ok().map(u64::from)
}

/// `js_int::UInt::try_from` on a `u128`, with the `UInt` as a `u64` and the error as `None`.
///
/// Taken on trust: the conversion succeeds just for the numbers up to `MAX_SAFE_UINT`, and
/// keeps the number.
#[verifier::external_body]
pub(crate) fn uint_from_u128(value: u128) -> (r: Option<u64>)
    ensures
        r == if value <= MAX_SAFE_UINT {
            Some(value as u64)
        } else {
            None
        },
{
    js_int::UInt::try_from(value).ok().map(u64::from)
}

/// The `+` of `js_int::UInt`, on two numbers up to `MAX_SAFE_UINT`.
///
/// Taken on trust: it is the sum. Where the sum is beyond `MAX_SAFE_UINT`, `js_int` panics or
/// wraps around, depending on how it was built; this function is not to be called there.
#[verifier::external_body]
pub(crate) fn uint_add(a: u64, b: u64) -> (sum: u64)
    requires
        a <= MAX_SAFE_UINT,
        b <= MAX_SAFE_UINT,
        a + b <= MAX_SAFE_UINT,
    ensures
        sum == a + b,
{
    u64::from(js_int::UInt::new_wrapping(a) + js_int::UInt::new_wrapping(b))
}

} // verus!
