//! Two small arithmetic functions, usable in constant expressions.

use vstd::prelude::*;

verus! {

/// `1 + 3 * i`.
pub fn f1(i: i32) -> (r: i32)
    requires
        i32::MIN <= 3 * i,
        1 + 3 * i <= i32::MAX,
    ensures
        r == 1 + 3 * i,
{
    1 + 3 * i
}

/// `f1(i) + i`, that is `1 + 4 * i`.
pub fn a(i: i32) -> (r: i32)
    requires
        i32::MIN <= 3 * i,
        1 + 3 * i <= i32::MAX,
        i32::MIN <= 1 + 4 * i <= i32::MAX,
    ensures
        r == 1 + 4 * i,
{
    let data = f1(i);
    data + i
}

} // verus!
