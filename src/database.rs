//! How the bar store names intervals.
use crate::constant::{str_eq, Interval};
use vstd::prelude::*;

verus! {

/// The code under which the store keeps bars of an interval; only daily and
/// minute bars are stored.
pub open spec fn storage_code_spec(interval: Interval) -> Option<Seq<char>> {
    match interval {
        Interval::DAILY => Some("d"@),
        Interval::MINUTE => Some("1m"@),
        _ => None,
    }
}

pub fn interval_storage_code(interval: Interval) -> (r: Option<&'static str>)
    ensures
        r matches Some(s) ==> storage_code_spec(interval) == Some(s@),
        r is None ==> storage_code_spec(interval) is None,
{
    match interval {
        Interval::DAILY => Some("d"),
        Interval::MINUTE => Some("1m"),
        _ => None,
    }
}

/// The interval a storage code names, if any.
pub fn interval_from_storage_code(code: &str) -> (r: Option<Interval>)
    ensures
        r matches Some(i) ==> storage_code_spec(i) == Some(code@),
        r is None ==> code@ != "d"@ && code@ != "1m"@,
{
    if str_eq(code, "d") {
        Some(Interval::DAILY)
    } else if str_eq(code, "1m") {
        Some(Interval::MINUTE)
    } else {
        None
    }
}

} // verus!
