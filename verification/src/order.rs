//! Sibling ordering for directory listings: directories sort strictly
//! before files, and names of the same kind compare in locale-naive
//! natural order, where embedded digit runs compare by numeric value.

use vstd::prelude::*;

verus! {

/// The three-way natural comparison of two names: negative when the
/// first sorts earlier, zero for ties, positive when it sorts later.
pub uninterp spec fn natural_cmp(a: Seq<char>, b: Seq<char>) -> int;

/// Relies on `alphanumeric_sort::compare_str`: a locale-naive natural
/// comparison in which embedded digit runs compare by their numeric
/// value. It is a comparator meant for sorting, so swapping the two
/// arguments flips the sign, and equal strings compare as ties; the
/// result depends on the two strings alone.
#[verifier::external_body]
pub(crate) fn natural_compare(a: &str, b: &str) -> (r: i8)
    ensures
        r as int == natural_cmp(a@, b@),
        natural_cmp(b@, a@) == -(r as int),
        a@ == b@ ==> r == 0,
{
    match alphanumeric_sort::compare_str(a, b) {
        core::cmp::Ordering::Less => -1,
        core::cmp::Ordering::Equal => 0,
        core::cmp::Ordering::Greater => 1,
    }
}

/// The sibling order on (kind, name) keys: a directory sorts before any
/// file, and within one kind the natural comparison decides.
pub open spec fn key_le(a_dir: bool, a_name: Seq<char>, b_dir: bool, b_name: Seq<char>) -> bool {
    (a_dir && !b_dir) || (a_dir == b_dir && natural_cmp(a_name, b_name) <= 0)
}

/// Decides the sibling order on two keys. The order is total: when the
/// first key does not sort up to the second, the second sorts up to the
/// first.
pub fn key_le_exec(a_dir: bool, a_name: &str, b_dir: bool, b_name: &str) -> (r: bool)
    ensures
        r == key_le(a_dir, a_name@, b_dir, b_name@),
        !r ==> key_le(b_dir, b_name@, a_dir, a_name@),
{
    if a_dir && !b_dir {
        true
    } else if !a_dir && b_dir {
        false
    } else {
        let c = natural_compare(a_name, b_name);
        c <= 0
    }
}

} // verus!
