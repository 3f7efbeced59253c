//! Strings compared and searched by their characters.

use vstd::prelude::*;
use vstd::std_specs::iter::IteratorSpec;
use vstd::string::*;

verus! {

/// The character sequences of a list of strings, in the same order.
pub open spec fn texts(strings: Seq<String>) -> Seq<Seq<char>> {
    strings.map_values(|s: String| s@)
}

/// Whether two string slices hold the same characters.
pub fn same_text(a: &str, b: &str) -> (same: bool)
    ensures
        same == (a@ == b@),
{
    let len = a.unicode_len();
    if b.unicode_len() != len {
        return false;
    }
    let mut left = a.chars();
    let mut right = b.chars();
    let mut at: usize = 0;
    while at < len
        invariant
            at <= len == a@.len() == b@.len(),
            left.remaining() == a@.skip(at as int),
            right.remaining() == b@.skip(at as int),
            forall|j: int| 0 <= j < at ==> a@[j] == b@[j],
        decreases len - at,
    {
        let x = left.next();
        let y = right.next();
        if x != y {
            return false;
        }
        at += 1;
    }
    assert(a@ =~= b@);
    true
}

/// Whether `name` occurs in `names`.
pub fn listed(names: &Vec<String>, name: &str) -> (found: bool)
    ensures
        found == texts(names@).contains(name@),
{
    let mut at: usize = 0;
    while at < names.len()
        invariant
            at <= names.len(),
            forall|j: int| 0 <= j < at ==> texts(names@)[j] != name@,
        decreases names.len() - at,
    {
        if same_text(names[at].as_str(), name) {
            assert(texts(names@)[at as int] == name@);
            return true;
        }
        at += 1;
    }
    false
}

} // verus!
