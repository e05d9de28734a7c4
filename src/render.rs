//! What the overlay draws: for every zone a dark fill framed by light
//! borders, then the active zone filled light. Painting is modelled on a
//! canvas of shades, which is what makes a redraw free of accumulated state.

use vstd::prelude::*;

use crate::config::{zone_views, Zone, ZoneView};
use crate::resolver::index_of;

verus! {

/// The two shades of the overlay.
#[derive(Clone, Copy, Debug, PartialEq, Eq, Structural)]
pub enum Shade {
    Dark,
    Light,
}

/// A filled rectangle in overlay coordinates: it paints the pixels `(px, py)`
/// with `x <= px < x + width` and `y <= py < y + height`.
#[derive(Clone, Copy, Debug, PartialEq, Eq, Structural)]
pub struct FillRect {
    pub shade: Shade,
    pub x: i32,
    pub y: i32,
    pub width: i32,
    pub height: i32,
}

/// The fill of the given shade and rectangle.
pub open spec fn fill(shade: Shade, x: int, y: int, width: int, height: int) -> FillRect {
    FillRect { shade, x: x as i32, y: y as i32, width: width as i32, height: height as i32 }
}

/// How zone `z` is drawn with borders `t` pixels wide: a dark background,
/// then the top, left, right and bottom borders.
pub open spec fn zone_fills(z: ZoneView, t: int) -> Seq<FillRect> {
    seq![
        fill(Shade::Dark, z.x, z.y, z.width, z.height),
        fill(Shade::Light, z.x, z.y, z.width, t),
        fill(Shade::Light, z.x, z.y, t, z.height),
        fill(Shade::Light, z.x + z.width - t, z.y, t, z.height),
        fill(Shade::Light, z.x, z.y + z.height - t, z.width, t),
    ]
}

/// The fills of all zones, in order.
pub open spec fn all_fills(zones: Seq<ZoneView>, t: int) -> Seq<FillRect>
    decreases zones.len(),
{
    if zones.len() == 0 {
        Seq::empty()
    } else {
        all_fills(zones.drop_last(), t) + zone_fills(zones.last(), t)
    }
}

/// The whole overlay: every zone, then the active zone (if any) filled light.
pub open spec fn overlay_plan(zones: Seq<ZoneView>, active: Option<int>, t: int) -> Seq<FillRect> {
    all_fills(zones, t) + match active {
        Some(i) => if 0 <= i < zones.len() {
            seq![fill(Shade::Light, zones[i].x, zones[i].y, zones[i].width, zones[i].height)]
        } else {
            Seq::empty()
        },
        None => Seq::empty(),
    }
}

/// The fills that draw `zones` with borders `line_thickness` pixels wide,
/// highlighting zone `active`.
pub fn draw_zones(zones: &Vec<Zone>, active: Option<usize>, line_thickness: u16) -> (r: Vec<FillRect>)
    requires
        active matches Some(i) ==> i < zones.len(),
    ensures
        r@ == overlay_plan(zone_views(zones@), index_of(active), line_thickness as int),
{
    let ghost views = zone_views(zones@);
    let t = line_thickness as i32;
    let mut out: Vec<FillRect> = Vec::new();
    let mut i: usize = 0;
    while i < zones.len()
        invariant
            i <= zones.len(),
            t == line_thickness as i32,
            views == zone_views(zones@),
            out@ == all_fills(views.subrange(0, i as int), t as int),
        decreases zones.len() - i,
    {
        let z = &zones[i];
        let (x, y, w, h) = (z.x as i32, z.y as i32, z.width as i32, z.height as i32);
        let ghost before = out@;
        out.push(FillRect { shade: Shade::Dark, x, y, width: w, height: h });
        out.push(FillRect { shade: Shade::Light, x, y, width: w, height: t });
        out.push(FillRect { shade: Shade::Light, x, y, width: t, height: h });
        out.push(FillRect { shade: Shade::Light, x: x + w - t, y, width: t, height: h });
        out.push(FillRect { shade: Shade::Light, x, y: y + h - t, width: w, height: t });
        assert(views.subrange(0, i + 1).drop_last() =~= views.subrange(0, i as int));
        assert(views[i as int] == z@);
        assert(out@ =~= before + zone_fills(z@, t as int));
        i += 1;
    }
    assert(views.subrange(0, i as int) =~= views);
    if let Some(a) = active {
        let z = &zones[a];
        out.push(
            FillRect {
                shade: Shade::Light,
                x: z.x as i32,
                y: z.y as i32,
                width: z.width as i32,
                height: z.height as i32,
            },
        );
    }
    assert(out@ =~= overlay_plan(views, index_of(active), t as int));
    out
}

/// Fill `f` paints the pixel `(px, py)`.
pub open spec fn covers(f: FillRect, px: int, py: int) -> bool {
    f.x <= px < f.x + f.width && f.y <= py < f.y + f.height
}

/// The shade of pixel `(px, py)` after painting `fills` in order over
/// `canvas`: that of the last fill that covers it, else the canvas's own.
pub open spec fn shade_at(canvas: spec_fn(int, int) -> Shade, fills: Seq<FillRect>, px: int, py: int) -> Shade
    decreases fills.len(),
{
    if fills.len() == 0 {
        canvas(px, py)
    } else if covers(fills.last(), px, py) {
        fills.last().shade
    } else {
        shade_at(canvas, fills.drop_last(), px, py)
    }
}

/// The canvas after painting `fills` in order over `canvas`.
pub open spec fn paint(canvas: spec_fn(int, int) -> Shade, fills: Seq<FillRect>) -> spec_fn(int, int) -> Shade {
    |px: int, py: int| shade_at(canvas, fills, px, py)
}

/// Some fill of `fills` paints the pixel `(px, py)`.
pub open spec fn covered(fills: Seq<FillRect>, px: int, py: int) -> bool {
    exists|k: int| 0 <= k < fills.len() && covers(fills[k], px, py)
}

proof fn lemma_shade_at_cover(
    c1: spec_fn(int, int) -> Shade,
    c2: spec_fn(int, int) -> Shade,
    fills: Seq<FillRect>,
    px: int,
    py: int,
)
    ensures
        covered(fills, px, py) ==> shade_at(c1, fills, px, py) == shade_at(c2, fills, px, py),
        !covered(fills, px, py) ==> shade_at(c1, fills, px, py) == c1(px, py),
    decreases fills.len(),
{
    if fills.len() > 0 {
        let rest = fills.drop_last();
        lemma_shade_at_cover(c1, c2, rest, px, py);
        if !covers(fills.last(), px, py) {
            if covered(fills, px, py) {
                let k = choose|k: int| 0 <= k < fills.len() && covers(fills[k], px, py);
                assert(rest[k] == fills[k]);
            }
            if covered(rest, px, py) {
                let k = choose|k: int| 0 <= k < rest.len() && covers(rest[k], px, py);
                assert(fills[k] == rest[k]);
            }
        } else {
            assert(covers(fills[fills.len() - 1], px, py));
        }
    }
}

/// Painting the same fills a second time changes nothing.
pub proof fn lemma_paint_twice(canvas: spec_fn(int, int) -> Shade, fills: Seq<FillRect>)
    ensures
        paint(paint(canvas, fills), fills) == paint(canvas, fills),
{
    let once = paint(canvas, fills);
    assert forall|px: int, py: int| #[trigger] paint(once, fills)(px, py) == once(px, py) by {
        lemma_shade_at_cover(once, canvas, fills, px, py);
    }
    assert(paint(once, fills) =~= once);
}

/// Redrawing the overlay with the same zones, active zone and border width
/// shows exactly what one drawing shows: drawing leaves no state behind that
/// a second drawing would add to.
pub proof fn redraw_is_idempotent(
    canvas: spec_fn(int, int) -> Shade,
    zones: Seq<ZoneView>,
    active: Option<int>,
    line_thickness: int,
)
    ensures
        ({
            let plan = overlay_plan(zones, active, line_thickness);
            paint(paint(canvas, plan), plan) == paint(canvas, plan)
        }),
{
    lemma_paint_twice(canvas, overlay_plan(zones, active, line_thickness));
}

} // verus!
