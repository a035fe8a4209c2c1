//! What filtering a sequence keeps, and where.

use vstd::prelude::*;

verus! {

/// Where in `s` the items stand that `s.filter(keep)` keeps.
pub open spec fn kept_places<A>(s: Seq<A>, keep: spec_fn(A) -> bool) -> Seq<int>
    decreases s.len(),
{
    if s.len() == 0 {
        Seq::empty()
    } else if keep(s.last()) {
        kept_places(s.drop_last(), keep).push(s.len() - 1)
    } else {
        kept_places(s.drop_last(), keep)
    }
}

/// Filtering selects items without changing their order: the kept items
/// stand at increasing places of the original, and each passes the test.
pub proof fn lemma_filter_selects<A>(s: Seq<A>, keep: spec_fn(A) -> bool)
    ensures
        kept_places(s, keep).len() == s.filter(keep).len(),
        forall|k: int|
            0 <= k < s.filter(keep).len() ==> {
                &&& 0 <= #[trigger] kept_places(s, keep)[k] < s.len()
                &&& s.filter(keep)[k] == s[kept_places(s, keep)[k]]
                &&& keep(s.filter(keep)[k])
            },
        forall|k: int, l: int|
            0 <= k < l < s.filter(keep).len() ==> #[trigger] kept_places(s, keep)[k]
                < #[trigger] kept_places(s, keep)[l],
    decreases s.len(),
{
    reveal(Seq::filter);
    if s.len() > 0 {
        lemma_filter_selects(s.drop_last(), keep);
    }
}

/// Filtering by a test that every item passes changes nothing.
pub proof fn lemma_filter_keeps_all<A>(s: Seq<A>, keep: spec_fn(A) -> bool)
    requires
        forall|i: int| 0 <= i < s.len() ==> keep(#[trigger] s[i]),
    ensures
        s.filter(keep) == s,
    decreases s.len(),
{
    reveal(Seq::filter);
    if s.len() > 0 {
        lemma_filter_keeps_all(s.drop_last(), keep);
        assert(s.drop_last().push(s.last()) =~= s);
    }
}

} // verus!
