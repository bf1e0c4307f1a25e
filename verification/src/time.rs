//! Points in time, in milliseconds since the Unix epoch.

use vstd::prelude::*;

use crate::uint::MAX_SAFE_UINT;

verus! {

/// `ruma_common::MilliSecondsSinceUnixEpoch::now`, as a `u64`: the current system time in
/// milliseconds since the Unix epoch.
///
/// Taken on trust: it is at most `MAX_SAFE_UINT`, as every such timestamp is. Nothing else is
/// known of it, and two calls may differ. With a system clock set before 1970 or beyond that
/// bound, `ruma_common` panics.
#[verifier::external_body]
pub(crate) fn now() -> (millis: u64)
    ensures
        millis <= MAX_SAFE_UINT,
{
    u64::from(ruma_common::MilliSecondsSinceUnixEpoch::now().get())
}

} // verus!
