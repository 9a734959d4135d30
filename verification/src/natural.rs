//! Natural order of names: `2` comes before `10`.

use std::cmp::Ordering;
use vstd::prelude::*;

verus! {

/// What `natord::compare` makes of `left` and `right`: -1 where it answers
/// `Less`, 0 for `Equal`, 1 for `Greater`.
pub uninterp spec fn natural_order(left: Seq<char>, right: Seq<char>) -> int;

/// Calls `natord::compare`, which compares two strings character by
/// character, skips white space and reads each run of decimal digits as one
/// number. The result is given as a sign: -1, 0 or 1.
#[verifier::external_body]
pub(crate) fn natural_compare(left: &str, right: &str) -> (sign: i8)
    ensures
        sign == natural_order(left@, right@),
        -1 <= sign <= 1,
{
    match natord::compare(left, right) {
        Ordering::Less => -1,
        Ordering::Equal => 0,
        Ordering::Greater => 1,
    }
}

} // verus!
