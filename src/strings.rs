//! Sorting of strings, through the standard library.
use vstd::prelude::*;

verus! {

/// The characters of each string.
pub open spec fn string_views(s: Seq<String>) -> Seq<Seq<char>> {
    s.map_values(|x: String| x@)
}

/// The strings of `s` in ascending order, as `slice::sort` arranges them.
pub uninterp spec fn sorted_strings(s: Seq<Seq<char>>) -> Seq<Seq<char>>;

/// Relies on `slice::sort`: the order it gives depends on the strings alone,
/// and it only rearranges them.
#[verifier::external_body]
pub(crate) fn sort_strings(v: Vec<String>) -> (r: Vec<String>)
    ensures
        string_views(r@) == sorted_strings(string_views(v@)),
        string_views(r@).to_multiset() == string_views(v@).to_multiset(),
{
    let mut v = v;
    v.sort();
    v
}

} // verus!
