//! The axis-aligned rectangular bounding region: well-formedness,
//! containment and boundary predicates for rational vertices, and the
//! counter-clockwise corner polygon that cell clipping starts from.

use vstd::prelude::*;
use crate::geom::{Vertex, COORD_LIMIT};

verus! {

/// An axis-aligned rectangle given by two opposite corners.
/// It is valid only when it has strictly positive width and height.
#[derive(Clone, Copy, PartialEq, Eq, Structural, Debug)]
pub struct BoundingRegion {
    pub x1: i64,
    pub y1: i64,
    pub x2: i64,
    pub y2: i64,
}

impl BoundingRegion {
    /// Strictly positive width and height.
    pub open spec fn wf(self) -> bool {
        self.x1 < self.x2 && self.y1 < self.y2
    }

    /// Runtime check for `wf`.
    pub fn is_valid(&self) -> (b: bool)
        ensures
            b == self.wf(),
    {
        self.x1 < self.x2 && self.y1 < self.y2
    }

    /// The equivalent center-and-half-extent form of a region: the
    /// rectangle centered at `(cx, cy)` reaching `half_width` to each
    /// side and `half_height` up and down. `None` when a corner leaves
    /// the `i64` range.
    pub fn centered(cx: i64, cy: i64, half_width: i64, half_height: i64) -> (r: Option<
        BoundingRegion,
    >)
        ensures
            r matches Some(b) ==> {
                &&& b.x1 == cx - half_width
                &&& b.y1 == cy - half_height
                &&& b.x2 == cx + half_width
                &&& b.y2 == cy + half_height
            },
            i64::MIN <= cx - half_width <= i64::MAX && i64::MIN <= cy - half_height <= i64::MAX
                && i64::MIN <= cx + half_width <= i64::MAX && i64::MIN <= cy + half_height
                <= i64::MAX ==> r is Some,
    {
        let x1 = match cx.checked_sub(half_width) {
            Some(v) => v,
            None => {
                return None;
            },
        };
        let y1 = match cy.checked_sub(half_height) {
            Some(v) => v,
            None => {
                return None;
            },
        };
        let x2 = match cx.checked_add(half_width) {
            Some(v) => v,
            None => {
                return None;
            },
        };
        let y2 = match cy.checked_add(half_height) {
            Some(v) => v,
            None => {
                return None;
            },
        };
        Some(BoundingRegion { x1, y1, x2, y2 })
    }
}

/// The region's corners are on the supported grid range.
pub open spec fn region_in_grid(r: BoundingRegion) -> bool {
    &&& -COORD_LIMIT <= r.x1 <= COORD_LIMIT
    &&& -COORD_LIMIT <= r.x2 <= COORD_LIMIT
    &&& -COORD_LIMIT <= r.y1 <= COORD_LIMIT
    &&& -COORD_LIMIT <= r.y2 <= COORD_LIMIT
}

/// `v` lies inside the region or on its boundary.
pub open spec fn in_region(v: Vertex, r: BoundingRegion) -> bool {
    &&& r.x1 * v.d <= v.xn <= r.x2 * v.d
    &&& r.y1 * v.d <= v.yn <= r.y2 * v.d
}

/// `v` lies exactly on one of the region's four boundary edges.
pub open spec fn on_boundary(v: Vertex, r: BoundingRegion) -> bool {
    ||| v.xn == r.x1 * v.d
    ||| v.xn == r.x2 * v.d
    ||| v.yn == r.y1 * v.d
    ||| v.yn == r.y2 * v.d
}

/// The four corners of the region in counter-clockwise order, starting at
/// the lower-left corner. This is the clipped cell of a diagram with a
/// single site, and the polygon every cell is cut down from.
pub open spec fn region_corners(r: BoundingRegion) -> Seq<Vertex> {
    seq![
        Vertex { xn: r.x1 as i128, yn: r.y1 as i128, d: 1i128 },
        Vertex { xn: r.x2 as i128, yn: r.y1 as i128, d: 1i128 },
        Vertex { xn: r.x2 as i128, yn: r.y2 as i128, d: 1i128 },
        Vertex { xn: r.x1 as i128, yn: r.y2 as i128, d: 1i128 },
    ]
}

/// Build the corner polygon of `r`.
pub fn corner_polygon(r: &BoundingRegion) -> (p: Vec<Vertex>)
    ensures
        p@ == region_corners(*r),
{
    let mut p: Vec<Vertex> = Vec::new();
    p.push(Vertex { xn: r.x1 as i128, yn: r.y1 as i128, d: 1i128 });
    p.push(Vertex { xn: r.x2 as i128, yn: r.y1 as i128, d: 1i128 });
    p.push(Vertex { xn: r.x2 as i128, yn: r.y2 as i128, d: 1i128 });
    p.push(Vertex { xn: r.x1 as i128, yn: r.y2 as i128, d: 1i128 });
    proof {
        assert(p@ =~= region_corners(*r));
    }
    p
}

} // verus!
