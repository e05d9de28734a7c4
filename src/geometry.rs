//! Rectangle geometry on zones: containment, center, area, squared distance.

use vstd::prelude::*;

use crate::config::{Monitor, Zone, ZoneView};

verus! {

/// `px` and `py` lie in the closed rectangle of `z`, and `z` is selectable
/// (its name is not empty).
pub open spec fn contains(z: ZoneView, px: int, py: int) -> bool {
    &&& z.name.len() > 0
    &&& z.x <= px <= z.x + z.width
    &&& z.y <= py <= z.y + z.height
}

/// Half of `n`, rounded toward zero.
pub open spec fn half(n: int) -> int {
    if n >= 0 {
        n / 2
    } else {
        -((-n) / 2)
    }
}

/// The center of `z`: its origin plus half its extent on each axis.
pub open spec fn center(z: ZoneView) -> (int, int) {
    (z.x + half(z.width), z.y + half(z.height))
}

/// The area of `z`.
pub open spec fn area(z: ZoneView) -> int {
    z.width * z.height
}

/// The squared Euclidean distance from `(px, py)` to the center of `z`.
pub open spec fn squared_distance(z: ZoneView, px: int, py: int) -> int {
    let (cx, cy) = center(z);
    (px - cx) * (px - cx) + (py - cy) * (py - cy)
}

impl Zone {
    /// Whether the point `(x, y)` lies in this zone, edges included. A
    /// background zone (empty name) contains no point.
    pub fn is_inside(&self, x: i16, y: i16) -> (r: bool)
        ensures
            r == contains(self@, x as int, y as int),
    {
        let x = x as i32;
        let y = y as i32;
        !self.name.as_str().is_empty() && self.x as i32 <= x && x <= self.x as i32 + self.width as i32
            && self.y as i32 <= y && y <= self.y as i32 + self.height as i32
    }

    /// The center of this zone; the halves are rounded toward zero.
    pub fn get_center_point(&self) -> (r: (i32, i32))
        ensures
            (r.0 as int, r.1 as int) == center(self@),
    {
        (self.x as i32 + self.width as i32 / 2, self.y as i32 + self.height as i32 / 2)
    }

    /// The squared distance from `(x, y)` to the center of this zone.
    pub fn get_sqr_dist_to(&self, x: i16, y: i16) -> (r: u64)
        ensures
            r as int == squared_distance(self@, x as int, y as int),
    {
        let (cx, cy) = self.get_center_point();
        let dx = x as i64 - cx as i64;
        let dy = y as i64 - cy as i64;
        assert(-0x20000 <= dx <= 0x20000 && -0x20000 <= dy <= 0x20000);
        assert(0 <= dx * dx <= 0x4_0000_0000) by (nonlinear_arith)
            requires
                -0x20000 <= dx <= 0x20000,
        ;
        assert(0 <= dy * dy <= 0x4_0000_0000) by (nonlinear_arith)
            requires
                -0x20000 <= dy <= 0x20000,
        ;
        (dx * dx + dy * dy) as u64
    }

    /// The area of this zone.
    pub fn get_area(&self) -> (r: u32)
        requires
            self.width >= 0,
            self.height >= 0,
        ensures
            r as int == area(self@),
    {
        assert(self.width as u32 * self.height as u32 <= 0x7fff * 0x7fff) by (nonlinear_arith)
            requires
                0 <= self.width <= 0x7fff,
                0 <= self.height <= 0x7fff,
        ;
        self.width as u32 * self.height as u32
    }
}

impl Monitor {
    /// Whether the desktop point `(x, y)` lies on this monitor, edges included.
    pub fn coords_inside(&self, x: i16, y: i16) -> (r: bool)
        ensures
            r == (self.x <= x <= self.x + self.width && self.y <= y <= self.y + self.height),
    {
        self.x <= x && x as i32 <= self.x as i32 + self.width as i32 && self.y <= y && y as i32
            <= self.y as i32 + self.height as i32
    }

    /// The desktop point `(x, y)` relative to this monitor's origin.
    pub fn to_local_space(&self, x: i16, y: i16) -> (r: (i32, i32))
        ensures
            r.0 == x - self.x,
            r.1 == y - self.y,
    {
        (x as i32 - self.x as i32, y as i32 - self.y as i32)
    }
}

} // verus!
