//! The decisions of a tree of threads that count themselves: how many
//! children a thread starts, and when a count is reported.

use vstd::prelude::*;

verus! {

/// The children a thread with budget `i` starts: `i` of them, each with budget
/// `i - 10`; none when the budget is used up.
pub fn fan_out(i: i32) -> (r: Option<(i32, i32)>)
    ensures
        i <= 0 ==> r is None,
        i > 0 ==> r == Some((i, (i - 10) as i32)),
{
    if i <= 0 {
        None
    } else {
        Some((i, i - 10))
    }
}

/// Whether a count is a multiple of 100, the counts that are reported.
pub fn is_report_point(c: i32) -> (r: bool)
    ensures
        r == (c % 100 == 0),
{
    c % 100 == 0
}

/// Whether a report point is printed: only when the count last reported
/// (which it replaces) was another one.
pub fn should_print(last_reported: i32, c: i32) -> (r: bool)
    ensures
        r == (last_reported != c),
{
    last_reported != c
}

} // verus!
