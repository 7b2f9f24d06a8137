//! Wall-clock readings and timestamp rendering.
//!
//! Timestamps are carried through the engine as Unix seconds.
use vstd::prelude::*;

verus! {

/// The compact `%Y%m%d%H%M%S` rendering of a Unix timestamp: a function of
/// the seconds alone.
pub uninterp spec fn compact_ts_of(secs: i64) -> Seq<char>;

/// Relies on chrono's `Utc::now`: the current wall-clock time as Unix
/// seconds. Nothing is promised of the value.
#[verifier::external_body]
pub(crate) fn epoch_now() -> i64 {
    chrono::Utc::now().timestamp()
}

/// Relies on chrono's `DateTime::from_timestamp` and `format`: the compact
/// `%Y%m%d%H%M%S` rendering of a Unix timestamp, which depends on the
/// timestamp alone; seconds outside chrono's representable range render as
/// the empty string.
#[verifier::external_body]
pub(crate) fn format_compact_ts(secs: i64) -> (r: String)
    ensures
        r@ == compact_ts_of(secs),
{
    match chrono::DateTime::from_timestamp(secs, 0) {
        Some(dt) => dt.format("%Y%m%d%H%M%S").to_string(),
        None => String::new(),
    }
}

} // verus!
