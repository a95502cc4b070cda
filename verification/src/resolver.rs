//! Nearest-hit resolution: of all the intersections that the primitives of a
//! scene report for one ray, which one the ray meets first.

use vstd::prelude::*;
use crate::scene::Intersection;

verus! {

/// The report at position `k` is a hit.
pub open spec fn hit_at(reports: Seq<Option<Intersection>>, k: int) -> bool {
    0 <= k < reports.len() && reports[k] is Some
}

/// The hit at position `k` is the nearest of the hits from position `from` on:
/// none of them is nearer, and those after it are strictly farther.
pub open spec fn is_nearest_from(reports: Seq<Option<Intersection>>, from: int, k: int) -> bool {
    &&& from <= k
    &&& hit_at(reports, k)
    &&& forall|j: int|
        from <= j && #[trigger] hit_at(reports, j) ==> reports[k]->0.distance
            <= reports[j]->0.distance
    &&& forall|j: int|
        k < j && #[trigger] hit_at(reports, j) ==> reports[k]->0.distance
            < reports[j]->0.distance
}

/// The hit at position `k` is the nearest of all: no hit is nearer, and of
/// several hits at the same smallest distance it is the last.
pub open spec fn is_nearest(reports: Seq<Option<Intersection>>, k: int) -> bool {
    is_nearest_from(reports, 0, k)
}

/// The nearest of the reported hits, or `None` where nothing was hit.
pub open spec fn nearest(reports: Seq<Option<Intersection>>) -> Option<Intersection> {
    if exists|k: int| is_nearest(reports, k) {
        reports[choose|k: int| is_nearest(reports, k)]
    } else {
        None
    }
}

/// At most one position holds the nearest hit.
pub proof fn lemma_nearest_unique(reports: Seq<Option<Intersection>>, k1: int, k2: int)
    requires
        is_nearest(reports, k1),
        is_nearest(reports, k2),
    ensures
        k1 == k2,
{
    if k1 < k2 {
        assert(hit_at(reports, k2));
        assert(hit_at(reports, k1));
    } else if k2 < k1 {
        assert(hit_at(reports, k1));
        assert(hit_at(reports, k2));
    }
}

/// Where position `k` holds the nearest hit, `nearest` is that hit.
pub proof fn lemma_nearest_is(reports: Seq<Option<Intersection>>, k: int)
    requires
        is_nearest(reports, k),
    ensures
        nearest(reports) == reports[k],
        nearest(reports) is Some,
{
    let c = choose|c: int| is_nearest(reports, c);
    lemma_nearest_unique(reports, k, c);
}

/// Where a hit is reported from position `from` on, one of those hits is the
/// nearest of them.
proof fn lemma_nearest_from_exists(reports: Seq<Option<Intersection>>, from: int)
    requires
        0 <= from <= reports.len(),
    ensures
        (exists|j: int| from <= j && hit_at(reports, j)) ==> exists|k: int|
            is_nearest_from(reports, from, k),
    decreases reports.len() - from,
{
    if from < reports.len() {
        let next = from + 1;
        lemma_nearest_from_exists(reports, next);
        if exists|j: int| next <= j && hit_at(reports, j) {
            let k = choose|k: int| is_nearest_from(reports, next, k);
            if reports[from] is Some && reports[k]->0.distance > reports[from]->0.distance {
                assert(is_nearest_from(reports, from, from));
            } else {
                assert(is_nearest_from(reports, from, k));
            }
        } else if exists|j: int| from <= j && hit_at(reports, j) {
            let j = choose|j: int| from <= j && hit_at(reports, j);
            assert(j == from) by {
                if next <= j {
                    assert(hit_at(reports, j));
                }
            }
            assert forall|j2: int| from < j2 implies !hit_at(reports, j2) by {
                if hit_at(reports, j2) {
                    assert(next <= j2 && hit_at(reports, j2));
                }
            }
            assert(is_nearest_from(reports, from, from));
        }
    }
}

/// A ray has a nearest hit exactly where some primitive reports a hit. The
/// nearest hit is one of the reports, and no reported hit is nearer.
pub proof fn lemma_nearest_is_minimal(reports: Seq<Option<Intersection>>)
    ensures
        nearest(reports) is Some <==> exists|j: int| hit_at(reports, j),
        nearest(reports) is Some ==> reports.contains(nearest(reports)),
        forall|j: int| #[trigger]
            hit_at(reports, j) ==> nearest(reports) is Some && nearest(reports)->0.distance
                <= reports[j]->0.distance,
{
    lemma_nearest_from_exists(reports, 0);
    if exists|j: int| hit_at(reports, j) {
        let j = choose|j: int| hit_at(reports, j);
        assert(0 <= j && hit_at(reports, j));
        let k = choose|k: int| is_nearest_from(reports, 0, k);
        assert(is_nearest(reports, k));
        lemma_nearest_is(reports, k);
        assert(reports[k] == nearest(reports));
    } else {
        assert forall|k: int| !is_nearest(reports, k) by {
            if is_nearest(reports, k) {
                assert(hit_at(reports, k));
            }
        }
    }
}

/// The distance of the nearest hit does not depend on the order in which the
/// primitives are listed: two lists that hold the same reports, in any order,
/// have their nearest hit at the same distance, or both have none.
pub proof fn lemma_nearest_distance_order_independent(
    a: Seq<Option<Intersection>>,
    b: Seq<Option<Intersection>>,
)
    requires
        a.to_multiset() == b.to_multiset(),
    ensures
        nearest(a) is Some <==> nearest(b) is Some,
        nearest(a) is Some ==> nearest(a)->0.distance == nearest(b)->0.distance,
{
    a.to_multiset_ensures();
    b.to_multiset_ensures();
    lemma_nearest_is_minimal(a);
    lemma_nearest_is_minimal(b);
    if nearest(a) is Some {
        let x = nearest(a);
        assert(a.to_multiset().count(x) > 0);
        assert(b.contains(x));
        let jb = choose|jb: int| 0 <= jb < b.len() && b[jb] == x;
        assert(hit_at(b, jb));
    }
    if nearest(b) is Some {
        let y = nearest(b);
        assert(b.to_multiset().count(y) > 0);
        assert(a.contains(y));
        let ja = choose|ja: int| 0 <= ja < a.len() && a[ja] == y;
        assert(hit_at(a, ja));
    }
}

/// Where no two different hits lie at the same distance, the nearest hit
/// itself does not depend on the order in which the primitives are listed.
pub proof fn lemma_nearest_order_independent(
    a: Seq<Option<Intersection>>,
    b: Seq<Option<Intersection>>,
)
    requires
        a.to_multiset() == b.to_multiset(),
        forall|i: int, j: int|
            #![trigger hit_at(a, i), hit_at(a, j)]
            hit_at(a, i) && hit_at(a, j) && a[i]->0.distance == a[j]->0.distance ==> a[i]
                == a[j],
    ensures
        nearest(a) == nearest(b),
{
    a.to_multiset_ensures();
    b.to_multiset_ensures();
    lemma_nearest_is_minimal(a);
    lemma_nearest_is_minimal(b);
    lemma_nearest_distance_order_independent(a, b);
    if nearest(a) is Some {
        let x = nearest(a);
        let y = nearest(b);
        let i = choose|i: int| 0 <= i < a.len() && a[i] == x;
        assert(b.to_multiset().count(y) > 0);
        assert(a.contains(y));
        let j = choose|j: int| 0 <= j < a.len() && a[j] == y;
        assert(hit_at(a, i) && hit_at(a, j));
    }
}

/// Picks the nearest of the hits that the primitives report for one ray.
///
/// Every report is looked at. Of several hits at the same smallest distance
/// the last one in the list is returned.
pub fn intersect_nodes(reports: &Vec<Option<Intersection>>) -> (hit: Option<Intersection>)
    ensures
        hit == nearest(reports@),
        hit is None <==> forall|j: int| 0 <= j < reports.len() ==> reports[j] is None,
        hit is Some ==> exists|k: int| is_nearest(reports@, k) && reports[k] == hit,
{
    let mut best: Option<Intersection> = None;
    let ghost mut at: int = reports.len() as int;
    let mut i: usize = reports.len();
    while i > 0
        invariant
            i <= reports.len(),
            best is None ==> forall|j: int| i <= j ==> !#[trigger] hit_at(reports@, j),
            best is Some ==> is_nearest_from(reports@, i as int, at) && reports[at] == best,
        decreases i,
    {
        i = i - 1;
        let report: Option<Intersection> = reports[i];
        match report {
            Some(new) => {
                assert(hit_at(reports@, i as int));
                match best {
                    Some(old) => {
                        if old.distance > new.distance {
                            best = Some(new);
                            proof {
                                at = i as int;
                            }
                        }
                    },
                    None => {
                        best = Some(new);
                        proof {
                            at = i as int;
                        }
                    },
                }
            },
            None => {},
        }
    }
    proof {
        if best is Some {
            lemma_nearest_is(reports@, at);
        } else {
            assert forall|k: int| !is_nearest(reports@, k) by {
                if is_nearest(reports@, k) {
                    assert(hit_at(reports@, k));
                }
            }
            assert forall|j: int| 0 <= j < reports.len() implies reports[j] is None by {
                assert(!hit_at(reports@, j));
            }
        }
    }
    best
}

} // verus!
