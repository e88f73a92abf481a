//! Specificity score of a route pattern.

use core::cmp::Ordering;
use vstd::prelude::*;

verus! {

/// How unspecific a pattern is: the number of `**` segments, then the number
/// of `*` segments. Scores compare lexicographically, and the lower score is
/// the more specific pattern.
#[derive(Copy, Clone, Debug, PartialEq, Eq, Structural, Ord, Hash)]
pub struct Precedence {
    pub multi_wildcards: usize,
    pub wildcards: usize,
}

impl Precedence {
    /// Strict lexicographic order on `(multi_wildcards, wildcards)`.
    pub open spec fn spec_lt(self, other: Precedence) -> bool {
        self.multi_wildcards < other.multi_wildcards || (self.multi_wildcards
            == other.multi_wildcards && self.wildcards < other.wildcards)
    }

    /// Non-strict lexicographic order on `(multi_wildcards, wildcards)`.
    pub open spec fn spec_le(self, other: Precedence) -> bool {
        self.spec_lt(other) || self == other
    }

    /// The comparison of two scores as an `Ordering`.
    pub open spec fn compare(self, other: Precedence) -> Ordering {
        if self.spec_lt(other) {
            Ordering::Less
        } else if self == other {
            Ordering::Equal
        } else {
            Ordering::Greater
        }
    }

    /// Whether this score sorts at or before `other`.
    pub fn le(&self, other: &Precedence) -> (r: bool)
        ensures
            r == self.spec_le(*other),
    {
        self.multi_wildcards < other.multi_wildcards || (self.multi_wildcards
            == other.multi_wildcards && self.wildcards <= other.wildcards)
    }
}

impl Default for Precedence {
    fn default() -> (r: Precedence)
        ensures
            r == (Precedence { multi_wildcards: 0, wildcards: 0 }),
    {
        Precedence { multi_wildcards: 0, wildcards: 0 }
    }
}

impl PartialOrd for Precedence {
    fn partial_cmp(&self, other: &Precedence) -> (r: Option<Ordering>) {
        if self.multi_wildcards < other.multi_wildcards {
            Some(Ordering::Less)
        } else if self.multi_wildcards > other.multi_wildcards {
            Some(Ordering::Greater)
        } else if self.wildcards < other.wildcards {
            Some(Ordering::Less)
        } else if self.wildcards > other.wildcards {
            Some(Ordering::Greater)
        } else {
            Some(Ordering::Equal)
        }
    }
}

impl vstd::std_specs::cmp::PartialOrdSpecImpl for Precedence {
    open spec fn obeys_partial_cmp_spec() -> bool {
        true
    }

    open spec fn partial_cmp_spec(&self, other: &Precedence) -> Option<Ordering> {
        Some(self.compare(*other))
    }
}

/// The order on scores is a strict total order.
pub proof fn lemma_precedence_total_order(a: Precedence, b: Precedence, c: Precedence)
    ensures
        !a.spec_lt(a),
        a.spec_lt(b) && b.spec_lt(c) ==> a.spec_lt(c),
        a.spec_lt(b) || a == b || b.spec_lt(a),
        a.spec_le(b) <==> !b.spec_lt(a),
{
}

/// A score without wildcards is below every score with a single-segment
/// wildcard and no multi-segment one, which is below every score with a
/// multi-segment wildcard; among equal multi-segment counts the fewer
/// single-segment wildcards come first.
pub proof fn lemma_precedence_classes(literal: Precedence, single: Precedence, multi: Precedence)
    requires
        literal.multi_wildcards == 0 && literal.wildcards == 0,
        single.multi_wildcards == 0 && single.wildcards >= 1,
        multi.multi_wildcards >= 1,
    ensures
        literal.spec_lt(single),
        single.spec_lt(multi),
        literal.spec_lt(multi),
        forall|more: Precedence|
            more.multi_wildcards == multi.multi_wildcards && more.wildcards > multi.wildcards
                ==> multi.spec_lt(more),
{
}

/// Where a route with score `score` goes into the order `front` of routes
/// with scores `scores`: behind the last route that sorts at or before it.
pub open spec fn insert_at(scores: Seq<Precedence>, front: Seq<int>, score: Precedence) -> int
    decreases front.len(),
{
    if front.len() == 0 {
        0
    } else if scores[front.last()].spec_le(score) {
        front.len() as int
    } else {
        insert_at(scores, front.drop_last(), score)
    }
}

/// The order in which routes with the given scores are tried: the positions
/// of the routes, those with lower scores first, and among equal scores the
/// earlier route first.
pub open spec fn ordered(scores: Seq<Precedence>) -> Seq<int>
    decreases scores.len(),
{
    if scores.len() == 0 {
        Seq::empty()
    } else {
        let front = ordered(scores.drop_last());
        front.insert(insert_at(scores, front, scores.last()), scores.len() - 1)
    }
}

/// Whether the route at position `a` is tried before the route at position
/// `b`: its score is lower, or the scores are equal and it comes first.
pub open spec fn tried_before(scores: Seq<Precedence>, a: int, b: int) -> bool {
    scores[a].spec_lt(scores[b]) || (scores[a] == scores[b] && a < b)
}

proof fn lemma_insert_at_bounds(scores: Seq<Precedence>, front: Seq<int>, score: Precedence)
    ensures
        0 <= insert_at(scores, front, score) <= front.len(),
        forall|k: int|
            insert_at(scores, front, score) <= k < front.len() ==> score.spec_lt(
                scores[#[trigger] front[k]],
            ),
        insert_at(scores, front, score) > 0 ==> scores[front[insert_at(scores, front, score)
            - 1]].spec_le(score),
    decreases front.len(),
{
    if front.len() > 0 && !scores[front.last()].spec_le(score) {
        lemma_insert_at_bounds(scores, front.drop_last(), score);
        let p = insert_at(scores, front, score);
        assert forall|k: int| p <= k < front.len() implies score.spec_lt(
            scores[#[trigger] front[k]],
        ) by {
            if k < front.len() - 1 {
                assert(front[k] == front.drop_last()[k]);
            }
        }
        if p > 0 {
            assert(front[p - 1] == front.drop_last()[p - 1]);
        }
    }
}

/// The order of `n` routes holds each of the positions `0` to `n - 1` once,
/// and each route in it is tried before those behind it.
pub proof fn lemma_ordered(scores: Seq<Precedence>)
    ensures
        ordered(scores).len() == scores.len(),
        forall|k: int| 0 <= k < scores.len() ==> 0 <= #[trigger] ordered(scores)[k] < scores.len(),
        forall|i: int| 0 <= i < scores.len() ==> ordered(scores).contains(i),
        forall|k: int, l: int|
            0 <= k < l < scores.len() ==> tried_before(
                scores,
                #[trigger] ordered(scores)[k],
                #[trigger] ordered(scores)[l],
            ),
    decreases scores.len(),
{
    if scores.len() > 0 {
        let shorter = scores.drop_last();
        let front = ordered(shorter);
        let last = scores.len() - 1;
        lemma_ordered(shorter);
        lemma_insert_at_bounds(scores, front, scores.last());
        let p = insert_at(scores, front, scores.last());
        let all = ordered(scores);
        assert(all == front.insert(p, last));
        assert forall|k: int| 0 <= k < front.len() implies scores[#[trigger] front[k]]
            == shorter[front[k]] by {}
        assert forall|i: int| 0 <= i < scores.len() implies all.contains(i) by {
            if i == last {
                assert(all[p] == i);
            } else {
                assert(front.contains(i));
                let k = choose|k: int| 0 <= k < front.len() && front[k] == i;
                if k < p {
                    assert(all[k] == i);
                } else {
                    assert(all[k + 1] == i);
                }
            }
        }
        assert forall|k: int, l: int| 0 <= k < l < scores.len() implies tried_before(
            scores,
            #[trigger] all[k],
            #[trigger] all[l],
        ) by {
            if l < p {
                assert(all[k] == front[k] && all[l] == front[l]);
                assert(tried_before(shorter, front[k], front[l]));
            } else if l == p {
                assert(all[k] == front[k]);
                assert(all[l] == last);
                if k < p - 1 {
                    assert(tried_before(shorter, front[k], front[p - 1]));
                }
                assert(scores[front[p - 1]].spec_le(scores.last()));
            } else if k < p {
                assert(all[k] == front[k] && all[l] == front[l - 1]);
                if k < l - 1 {
                    assert(tried_before(shorter, front[k], front[l - 1]));
                }
            } else if k == p {
                assert(all[l] == front[l - 1]);
                assert(scores.last().spec_lt(scores[front[l - 1]]));
            } else {
                assert(all[k] == front[k - 1] && all[l] == front[l - 1]);
                assert(tried_before(shorter, front[k - 1], front[l - 1]));
            }
        }
    }
}

} // verus!
