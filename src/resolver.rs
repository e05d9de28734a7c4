//! Picking the active zone under the cursor.

use vstd::prelude::*;

use crate::config::{zone_views, Zone, ZoneView};
use crate::geometry::{area, contains, squared_distance};

verus! {

/// Zone `i` of `zones` contains the cursor.
pub open spec fn is_candidate(zones: Seq<ZoneView>, px: int, py: int, i: int) -> bool {
    0 <= i < zones.len() && contains(zones[i], px, py)
}

/// Zone `i` is a better match for the cursor than zone `j`: nearer center,
/// or equally near and smaller.
pub open spec fn better(zones: Seq<ZoneView>, px: int, py: int, i: int, j: int) -> bool {
    let di = squared_distance(zones[i], px, py);
    let dj = squared_distance(zones[j], px, py);
    di < dj || (di == dj && area(zones[i]) < area(zones[j]))
}

/// Among the first `n` zones, `i` is the active one: a candidate that no
/// candidate beats, and the first such.
pub open spec fn is_best_upto(zones: Seq<ZoneView>, px: int, py: int, n: int, i: int) -> bool {
    &&& 0 <= i < n <= zones.len()
    &&& is_candidate(zones, px, py, i)
    &&& forall|j: int| 0 <= j < n && is_candidate(zones, px, py, j) ==> !better(zones, px, py, j, i)
    &&& forall|j: int| 0 <= j < i && is_candidate(zones, px, py, j) ==> better(zones, px, py, i, j)
}

/// Zone `i` is the active zone for the cursor at `(px, py)`.
pub open spec fn is_best(zones: Seq<ZoneView>, px: int, py: int, i: int) -> bool {
    is_best_upto(zones, px, py, zones.len() as int, i)
}

/// The active zone for the cursor at `(px, py)`: among the zones that contain
/// the cursor, the one whose center is nearest, ties going to the smaller
/// area and then to the earlier zone; `None` when no zone contains it.
pub open spec fn active_zone(zones: Seq<ZoneView>, px: int, py: int) -> Option<int> {
    if exists|i: int| is_best(zones, px, py, i) {
        Some(choose|i: int| is_best(zones, px, py, i))
    } else {
        None
    }
}

/// An index as an optional integer.
pub open spec fn index_of(r: Option<usize>) -> Option<int> {
    match r {
        Some(i) => Some(i as int),
        None => None,
    }
}

/// There is at most one active zone.
pub proof fn lemma_best_unique(zones: Seq<ZoneView>, px: int, py: int, i: int, j: int)
    requires
        is_best(zones, px, py, i),
        is_best(zones, px, py, j),
    ensures
        i == j,
{
}

/// A candidate exists exactly when there is an active zone.
pub proof fn lemma_active_iff_candidate(zones: Seq<ZoneView>, px: int, py: int)
    ensures
        active_zone(zones, px, py) is Some <==> exists|i: int| is_candidate(zones, px, py, i),
        active_zone(zones, px, py) matches Some(i) ==> is_best(zones, px, py, i),
{
    if exists|i: int| is_candidate(zones, px, py, i) {
        let k = choose|i: int| is_candidate(zones, px, py, i);
        let b = best_exists(zones, px, py, zones.len() as int, k);
        assert(is_best(zones, px, py, b));
    }
}

proof fn best_exists(zones: Seq<ZoneView>, px: int, py: int, n: int, k: int) -> (b: int)
    requires
        0 <= k < n <= zones.len(),
        is_candidate(zones, px, py, k),
    ensures
        is_best_upto(zones, px, py, n, b),
    decreases n,
{
    if n - 1 == k && !exists|j: int| 0 <= j < k && is_candidate(zones, px, py, j) {
        k
    } else {
        let k2 = if n - 1 == k {
            choose|j: int| 0 <= j < k && is_candidate(zones, px, py, j)
        } else {
            k
        };
        let b = best_exists(zones, px, py, n - 1, k2);
        if is_candidate(zones, px, py, n - 1) && better(zones, px, py, n - 1, b) {
            n - 1
        } else {
            b
        }
    }
}

/// A candidate strictly nearer than every other candidate is the active zone,
/// and it stays the active zone whatever the order of the zones: in any
/// reordering of the same zones, the active zone is that same zone.
pub proof fn unique_nearest_wins(
    zones: Seq<ZoneView>,
    reordered: Seq<ZoneView>,
    px: int,
    py: int,
    i: int,
)
    requires
        is_candidate(zones, px, py, i),
        forall|j: int|
            is_candidate(zones, px, py, j) && j != i ==> squared_distance(zones[i], px, py)
                < squared_distance(zones[j], px, py),
        reordered.to_multiset() == zones.to_multiset(),
    ensures
        active_zone(zones, px, py) == Some(i),
        active_zone(reordered, px, py) matches Some(k) && reordered[k] == zones[i],
{
    broadcast use vstd::seq_lib::to_multiset_contains;

    assert(is_best(zones, px, py, i));
    lemma_active_iff_candidate(zones, px, py);
    lemma_best_unique(zones, px, py, i, active_zone(zones, px, py)->0);
    // The nearest zone occurs in the reordering too.
    assert(zones.contains(zones[i]));
    assert(reordered.to_multiset().count(zones[i]) > 0);
    let k0 = choose|k: int| 0 <= k < reordered.len() && reordered[k] == zones[i];
    assert(is_candidate(reordered, px, py, k0));
    lemma_active_iff_candidate(reordered, px, py);
    let k = active_zone(reordered, px, py)->0;
    // Every zone of the reordering is one of the given zones.
    assert(reordered.contains(reordered[k]));
    assert(zones.to_multiset().count(reordered[k]) > 0);
    let m = choose|m: int| 0 <= m < zones.len() && zones[m] == reordered[k];
    assert(!better(reordered, px, py, k0, k));
    assert(is_candidate(zones, px, py, m));
    if m != i {
        assert(squared_distance(zones[i], px, py) < squared_distance(zones[m], px, py));
    }
}

/// When two candidates are equally near the cursor, and nearer than every
/// other candidate, the one with the smaller area is the active zone.
pub proof fn smaller_area_breaks_tie(zones: Seq<ZoneView>, px: int, py: int, i: int, j: int)
    requires
        is_candidate(zones, px, py, i),
        is_candidate(zones, px, py, j),
        squared_distance(zones[i], px, py) == squared_distance(zones[j], px, py),
        area(zones[i]) < area(zones[j]),
        forall|k: int|
            is_candidate(zones, px, py, k) && k != i && k != j ==> squared_distance(zones[i], px, py)
                < squared_distance(zones[k], px, py),
    ensures
        active_zone(zones, px, py) == Some(i),
{
    assert(is_best(zones, px, py, i));
    lemma_active_iff_candidate(zones, px, py);
    lemma_best_unique(zones, px, py, i, active_zone(zones, px, py)->0);
}

/// The active zone among `zones` for the cursor at `(x, y)`.
pub fn resolve(zones: &Vec<Zone>, x: i16, y: i16) -> (r: Option<usize>)
    ensures
        index_of(r) == active_zone(zone_views(zones@), x as int, y as int),
{
    let ghost views = zone_views(zones@);
    let mut best: Option<usize> = None;
    let mut best_dist: u64 = 0;
    let mut best_area: u32 = 0;
    let mut i: usize = 0;
    while i < zones.len()
        invariant
            i <= zones.len(),
            views == zone_views(zones@),
            match best {
                Some(b) => {
                    &&& is_best_upto(views, x as int, y as int, i as int, b as int)
                    &&& best_dist as int == squared_distance(views[b as int], x as int, y as int)
                    &&& best_area as int == area(views[b as int])
                },
                None => forall|j: int| 0 <= j < i ==> !is_candidate(views, x as int, y as int, j),
            },
        decreases zones.len() - i,
    {
        let zone = &zones[i];
        if zone.is_inside(x, y) {
            let dist = zone.get_sqr_dist_to(x, y);
            let zone_area = zone.get_area();
            let take = match best {
                Some(_) => dist < best_dist || (dist == best_dist && zone_area < best_area),
                None => true,
            };
            if take {
                best = Some(i);
                best_dist = dist;
                best_area = zone_area;
            }
        }
        i += 1;
    }
    proof {
        lemma_active_iff_candidate(views, x as int, y as int);
        if let Some(b) = best {
            lemma_best_unique(views, x as int, y as int, b as int,
                active_zone(views, x as int, y as int)->0);
        }
    }
    best
}

} // verus!
