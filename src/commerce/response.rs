use vstd::prelude::*;

use crate::strings::{sort_strings, sorted_strings, string_views};

verus! {

/// The administrators of the site.
#[derive(Debug, Clone, PartialEq, Eq)]
pub struct AdminListResponse {
    pub admins: Vec<String>,
}

/// `s` without elements equal to the one before them.
pub open spec fn dedup_spec(s: Seq<Seq<char>>) -> Seq<Seq<char>>
    decreases s.len(),
{
    if s.len() <= 1 {
        s
    } else if s.last() == s[s.len() - 2] {
        dedup_spec(s.drop_last())
    } else {
        dedup_spec(s.drop_last()).push(s.last())
    }
}

proof fn lemma_dedup_last(s: Seq<Seq<char>>)
    requires
        s.len() > 0,
    ensures
        dedup_spec(s).len() > 0,
        dedup_spec(s).last() == s.last(),
    decreases s.len(),
{
    if s.len() > 1 {
        lemma_dedup_last(s.drop_last());
    }
}

/// `v` without strings equal to the one before them.
fn dedup_strings(v: Vec<String>) -> (r: Vec<String>)
    ensures
        string_views(r@) == dedup_spec(string_views(v@)),
{
    let ghost views = string_views(v@);
    let mut out: Vec<String> = Vec::new();
    let mut i: usize = 0;
    while i < v.len()
        invariant
            i <= v@.len(),
            views == string_views(v@),
            string_views(out@) == dedup_spec(views.take(i as int)),
        decreases v.len() - i,
    {
        proof {
            assert(views.take(i + 1).drop_last() =~= views.take(i as int));
            assert(views.take(i + 1).last() == v@[i as int]@);
            if i > 0 {
                lemma_dedup_last(views.take(i as int));
                assert(views.take(i + 1)[i - 1] == views.take(i as int).last());
            }
        }
        if i == 0 || v[i] != v[i - 1] {
            out.push(v[i].clone());
            proof {
                assert(string_views(out@) =~= dedup_spec(views.take(i as int)).push(v@[i as int]@));
            }
        }
        i += 1;
    }
    proof {
        assert(views.take(v@.len() as int) =~= views);
    }
    out
}

impl AdminListResponse {
    /// The canonical form of the list: sorted, without duplicates, so that
    /// two lists naming the same admins compare equal.
    pub fn canonical(self) -> (r: Self)
        ensures
            string_views(r.admins@) == dedup_spec(sorted_strings(string_views(self.admins@))),
    {
        let sorted = sort_strings(self.admins);
        AdminListResponse { admins: dedup_strings(sorted) }
    }
}

} // verus!
