//! Keeping each position of a sequence of points once.

use vstd::prelude::*;
use crate::point::LyonPoint;

verus! {

/// `p` lies at the position of one of the points of `s`.
pub open spec fn occurs(p: LyonPoint, s: Seq<LyonPoint>) -> bool {
    exists|j: int| 0 <= j < s.len() && (#[trigger] s[j]).coincides_with(p)
}

/// The points of `s` in order, without those that lie at the position of an
/// earlier one.
pub open spec fn distinct(s: Seq<LyonPoint>) -> Seq<LyonPoint>
    decreases s.len(),
{
    if s.len() == 0 {
        s
    } else {
        let d = distinct(s.drop_last());
        if occurs(s.last(), d) {
            d
        } else {
            d.push(s.last())
        }
    }
}

/// No two points of `s` lie at the same position.
pub open spec fn pairwise_distinct(s: Seq<LyonPoint>) -> bool {
    forall|i: int, j: int|
        0 <= i < j < s.len() ==> !(#[trigger] s[i]).coincides_with(#[trigger] s[j])
}

/// What holds of the distinct positions of `s`: there are no more of them
/// than points in `s`, no two lie at the same position, each of them is a
/// point of `s`, and every point of `s` lies at the position of one of them.
pub proof fn lemma_distinct(s: Seq<LyonPoint>)
    ensures
        distinct(s).len() <= s.len(),
        pairwise_distinct(distinct(s)),
        forall|j: int| 0 <= j < distinct(s).len() ==> s.contains(#[trigger] distinct(s)[j]),
        forall|i: int| 0 <= i < s.len() ==> occurs(#[trigger] s[i], distinct(s)),
    decreases s.len(),
{
    if s.len() > 0 {
        let front = s.drop_last();
        let d = distinct(front);
        let e = distinct(s);
        lemma_distinct(front);
        assert forall|j: int| 0 <= j < e.len() implies s.contains(#[trigger] e[j]) by {
            if j < d.len() {
                let i = choose|i: int| 0 <= i < front.len() && front[i] == d[j];
                assert(s[i] == e[j]);
            } else {
                assert(s[s.len() - 1] == e[j]);
            }
        }
        assert forall|i: int| 0 <= i < s.len() implies occurs(#[trigger] s[i], e) by {
            if i < front.len() {
                assert(front[i] == s[i]);
                let j = choose|j: int| 0 <= j < d.len() && (#[trigger] d[j]).coincides_with(s[i]);
                assert(e[j] == d[j]);
            } else if !occurs(s.last(), d) {
                assert(e[d.len() as int] == s[i]);
            }
        }
    }
}

/// Where no two points lie at the same position, all of them are kept.
pub proof fn lemma_distinct_of_distinct(s: Seq<LyonPoint>)
    requires
        pairwise_distinct(s),
    ensures
        distinct(s) == s,
    decreases s.len(),
{
    if s.len() > 0 {
        let front = s.drop_last();
        assert(pairwise_distinct(front)) by {
            assert forall|i: int, j: int| 0 <= i < j < front.len() implies !(#[trigger] front[i]).coincides_with(
                #[trigger] front[j],
            ) by {
                assert(front[i] == s[i] && front[j] == s[j]);
            }
        }
        lemma_distinct_of_distinct(front);
        if occurs(s.last(), front) {
            let j = choose|j: int| 0 <= j < front.len() && (#[trigger] front[j]).coincides_with(s.last());
            assert(s[j].coincides_with(s[s.len() - 1]));
        }
        assert(front.push(s.last()) == s);
    }
}

} // verus!
