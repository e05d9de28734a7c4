//! Building a session's zone list: every zone of every assigned layout moved
//! into desktop coordinates, behind one background rectangle per monitor,
//! then ordered for drawing.

use vstd::prelude::*;

use crate::config::{monitor_valid, monitor_views, zone_views, Monitor, MonitorView, Zone, ZoneView};
use crate::geometry::area;

verus! {

/// The background rectangle covering monitor `m`.
pub open spec fn background(m: MonitorView) -> ZoneView {
    ZoneView { name: Seq::empty(), x: m.x, y: m.y, width: m.width, height: m.height }
}

/// Zone `z` of monitor `m`, moved into desktop coordinates.
pub open spec fn placed(z: ZoneView, m: MonitorView) -> ZoneView {
    ZoneView { name: z.name, x: z.x + m.x, y: z.y + m.y, width: z.width, height: z.height }
}

/// What monitor `m` adds to the session: its background, then the zones of
/// its layout in desktop coordinates.
pub open spec fn monitor_zones(m: MonitorView) -> Seq<ZoneView> {
    seq![background(m)] + match m.config {
        Some(c) => c.zones.map_values(|z: ZoneView| placed(z, m)),
        None => Seq::empty(),
    }
}

/// The zones of all monitors, monitor by monitor.
pub open spec fn flatten(ms: Seq<MonitorView>) -> Seq<ZoneView>
    decreases ms.len(),
{
    if ms.len() == 0 {
        Seq::empty()
    } else {
        flatten(ms.drop_last()) + monitor_zones(ms.last())
    }
}

/// Every zone of every assigned layout, in desktop coordinates, each
/// monitor's zones preceded by a background rectangle covering it.
pub fn flatten_zones(monitors: &Vec<Monitor>) -> (r: Vec<Zone>)
    requires
        forall|i: int| 0 <= i < monitors.len() ==> #[trigger] monitor_valid(monitors@[i]@),
    ensures
        zone_views(r@) == flatten(monitor_views(monitors@)),
{
    let ghost ms = monitor_views(monitors@);
    let mut out: Vec<Zone> = Vec::new();
    let mut i: usize = 0;
    while i < monitors.len()
        invariant
            i <= monitors.len(),
            ms == monitor_views(monitors@),
            forall|i: int| 0 <= i < monitors.len() ==> #[trigger] monitor_valid(monitors@[i]@),
            zone_views(out@) == flatten(ms.subrange(0, i as int)),
        decreases monitors.len() - i,
    {
        let m = &monitors[i];
        assert(monitor_valid(m@));
        let ghost before = zone_views(out@);
        out.push(
            Zone {
                name: String::new(),
                x: m.x,
                y: m.y,
                width: m.width as i16,
                height: m.height as i16,
            },
        );
        assert(zone_views(out@) =~= before + seq![background(m@)]);
        let ghost mid = zone_views(out@);
        if let Some(c) = &m.config {
            let mut j: usize = 0;
            while j < c.zones.len()
                invariant
                    j <= c.zones.len(),
                    m@.config == Some(c@),
                    monitor_valid(m@),
                    zone_views(out@) == mid + c@.zones.subrange(0, j as int).map_values(
                        |z: ZoneView| placed(z, m@),
                    ),
                decreases c.zones.len() - j,
            {
                let z = &c.zones[j];
                assert(c@.zones[j as int] == z@);
                assert(m@.config->0 == c@);
                assert(crate::config::zone_valid(c@.zones[j as int], m@));
                let ghost prev = zone_views(out@);
                out.push(
                    Zone {
                        name: z.name.clone(),
                        x: z.x + m.x,
                        y: z.y + m.y,
                        width: z.width,
                        height: z.height,
                    },
                );
                assert(c@.zones.subrange(0, j + 1) =~= c@.zones.subrange(0, j as int).push(z@));
                assert(zone_views(out@) =~= prev.push(placed(z@, m@)));
                j += 1;
            }
            assert(c@.zones.subrange(0, j as int) =~= c@.zones);
        }
        assert(ms.subrange(0, i + 1).drop_last() =~= ms.subrange(0, i as int));
        assert(ms[i as int] == m@);
        assert(zone_views(out@) =~= flatten(ms.subrange(0, i + 1)));
        i += 1;
    }
    assert(ms.subrange(0, i as int) =~= ms);
    out
}

/// `p` lists each of `0 .. n` exactly once.
pub open spec fn is_permutation(p: Seq<int>, n: int) -> bool {
    &&& p.len() == n
    &&& forall|k: int| 0 <= k < n ==> 0 <= #[trigger] p[k] < n
    &&& forall|a: int, b: int| 0 <= a < b < n ==> p[a] != p[b]
}

/// `out` is `src` rearranged by `p`, largest area first, zones of equal area
/// in the order they had in `src`.
pub open spec fn draws_as(src: Seq<Zone>, out: Seq<Zone>, p: Seq<int>) -> bool {
    &&& is_permutation(p, src.len() as int)
    &&& out.len() == src.len()
    &&& forall|k: int| 0 <= k < out.len() ==> #[trigger] out[k] == src[p[k]]
    &&& forall|a: int, b: int|
        0 <= a < b < out.len() ==> area(#[trigger] out[a]@) >= area(#[trigger] out[b]@)
    &&& forall|a: int, b: int|
        0 <= a < b < out.len() && area(#[trigger] out[a]@) == area(#[trigger] out[b]@) ==> p[a]
            < p[b]
}

/// `out` holds the zones of `src` in drawing order: largest area first, a
/// stable rearrangement.
pub open spec fn is_draw_order(src: Seq<Zone>, out: Seq<Zone>) -> bool {
    exists|p: Seq<int>| draws_as(src, out, p)
}

/// The zones in drawing order: largest area first, so that a zone nested in
/// a larger one is drawn over it; zones of equal area keep their order.
pub fn order_by_area(zones: &Vec<Zone>) -> (r: Vec<Zone>)
    requires
        forall|k: int| 0 <= k < zones.len() ==> #[trigger] zones@[k].width >= 0 && zones@[k].height >= 0,
    ensures
        is_draw_order(zones@, r@),
{
    let mut out: Vec<Zone> = Vec::new();
    let ghost mut perm: Seq<int> = Seq::empty();
    let mut i: usize = 0;
    while i < zones.len()
        invariant
            i <= zones.len(),
            forall|k: int| 0 <= k < zones.len() ==> #[trigger] zones@[k].width >= 0 && zones@[k].height >= 0,
            forall|k: int| 0 <= k < out.len() ==> #[trigger] out@[k].width >= 0 && out@[k].height >= 0,
            draws_as(zones@.subrange(0, i as int), out@, perm),
        decreases zones.len() - i,
    {
        let ghost src = zones@.subrange(0, i as int);
        let ghost src2 = zones@.subrange(0, i + 1);
        let z = zones[i].duplicate();
        let a = z.get_area();
        let mut p: usize = 0;
        while p < out.len() && out[p].get_area() >= a
            invariant
                p <= out.len(),
                a as int == area(z@),
                forall|k: int| 0 <= k < out.len() ==> #[trigger] out@[k].width >= 0 && out@[k].height >= 0,
                forall|k: int| 0 <= k < p ==> area(#[trigger] out@[k]@) >= a,
            decreases out.len() - p,
        {
            p += 1;
        }
        assert(forall|k: int| p <= k < out.len() ==> area(#[trigger] out@[k]@) < a) by {
            assert forall|k: int| p <= k < out.len() implies area(#[trigger] out@[k]@) < a by {
                if p < k {
                    assert(area(out@[p as int]@) >= area(out@[k]@));
                }
            }
        }
        let ghost old_out = out@;
        let ghost old_perm = perm;
        out.insert(p, z);
        proof {
            perm = old_perm.insert(p as int, i as int);
            assert(forall|k: int| 0 <= k < src.len() ==> src2[k] == src[k]);
            assert(src2[i as int] == z);
            assert forall|k: int| 0 <= k < out@.len() implies #[trigger] out@[k] == src2[perm[k]] by {
                if k < p {
                    assert(out@[k] == old_out[k]);
                } else if k > p {
                    assert(out@[k] == old_out[k - 1]);
                }
            }
            assert forall|a1: int, b1: int| 0 <= a1 < b1 < out@.len() implies area(
                #[trigger] out@[a1]@,
            ) >= area(#[trigger] out@[b1]@) by {
                if a1 < p && b1 > p {
                    assert(out@[b1] == old_out[b1 - 1]);
                } else if a1 > p {
                    assert(out@[a1] == old_out[a1 - 1]);
                    assert(out@[b1] == old_out[b1 - 1]);
                }
            }
            assert forall|a1: int, b1: int|
                0 <= a1 < b1 < out@.len() && area(#[trigger] out@[a1]@) == area(
                    #[trigger] out@[b1]@,
                ) implies perm[a1] < perm[b1] by {
                if a1 < p && b1 > p {
                    assert(out@[b1] == old_out[b1 - 1]);
                } else if a1 > p {
                    assert(out@[a1] == old_out[a1 - 1]);
                    assert(out@[b1] == old_out[b1 - 1]);
                } else if a1 == p {
                    assert(out@[b1] == old_out[b1 - 1]);
                }
            }
            assert forall|a1: int, b1: int| 0 <= a1 < b1 < perm.len() implies perm[a1]
                != perm[b1] by {
                if a1 < p && b1 > p {
                    assert(perm[b1] == old_perm[b1 - 1]);
                } else if a1 > p {
                    assert(perm[a1] == old_perm[a1 - 1]);
                    assert(perm[b1] == old_perm[b1 - 1]);
                }
            }
            assert(draws_as(src2, out@, perm));
        }
        i += 1;
    }
    assert(zones@.subrange(0, i as int) =~= zones@);
    out
}

} // verus!
