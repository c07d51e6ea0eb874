//! Identifiers and timestamps that come from outside the library's logic.

use vstd::prelude::*;

verus! {

/// A bound above every timestamp the clock can give.
pub const MAX_TIMESTAMP: i64 = 10_000_000_000_000;

/// A fresh random identifier: `uuid::Uuid::new_v4()` rendered by `to_string`.
/// Its value is random, so nothing is claimed of it.
#[verifier::external_body]
pub(crate) fn new_uuid() -> (r: String) {
    uuid::Uuid::new_v4().to_string()
}

/// The current Unix time in seconds: `chrono::Utc::now().timestamp()`.
/// Its value depends on the clock; all that is claimed is the range chrono allows:
/// `Utc::now` refuses (panics on) a clock before the Unix epoch, and its dates stop at
/// the year 262142, which is fewer than 10^13 seconds after the epoch.
#[verifier::external_body]
pub(crate) fn now_timestamp() -> (t: i64)
    ensures
        0 <= t < MAX_TIMESTAMP,
{
    chrono::Utc::now().timestamp()
}

} // verus!
