//! Shared planar geometry: fixed-point 2D points, squared distances, and
//! axis-aligned rectangles. Coordinates are thousandths of a pixel (screen
//! space) or of a world unit (world space).

use vstd::prelude::*;

verus! {

/// Largest coordinate magnitude accepted by the planar helpers; keeps every
/// squared distance within `i64`.
pub const COORD_LIMIT: i64 = 1_000_000_000;

/// A 2D point, in thousandths of a pixel or of a world unit.
#[derive(Clone, Copy, Debug, PartialEq, Eq, Structural)]
pub struct Point2 {
    pub x: i64,
    pub y: i64,
}

/// An axis-aligned rectangle with `min` at its lower-left corner.
#[derive(Clone, Copy, Debug, PartialEq, Eq, Structural)]
pub struct Rect {
    pub min: Point2,
    pub max: Point2,
}

/// Both coordinates of `p` lie within `COORD_LIMIT`.
pub open spec fn in_range(p: Point2) -> bool {
    &&& -COORD_LIMIT <= p.x <= COORD_LIMIT
    &&& -COORD_LIMIT <= p.y <= COORD_LIMIT
}

/// Squared Euclidean distance between `a` and `b`.
pub open spec fn dist_sq_spec(a: Point2, b: Point2) -> int {
    (a.x - b.x) * (a.x - b.x) + (a.y - b.y) * (a.y - b.y)
}

/// `p` lies inside `rect` (boundary included).
pub open spec fn rect_contains(rect: Rect, p: Point2) -> bool {
    &&& rect.min.x <= p.x <= rect.max.x
    &&& rect.min.y <= p.y <= rect.max.y
}

/// Squared Euclidean distance between `a` and `b`.
pub fn dist_sq(a: Point2, b: Point2) -> (d: i64)
    requires
        in_range(a),
        in_range(b),
    ensures
        d == dist_sq_spec(a, b),
{
    let dx = a.x - b.x;
    let dy = a.y - b.y;
    proof {
        assert(dx * dx <= 4_000_000_000_000_000_000 && dx * dx >= 0) by (nonlinear_arith)
            requires
                -2_000_000_000 <= dx <= 2_000_000_000,
        ;
        assert(dy * dy <= 4_000_000_000_000_000_000 && dy * dy >= 0) by (nonlinear_arith)
            requires
                -2_000_000_000 <= dy <= 2_000_000_000,
        ;
    }
    dx * dx + dy * dy
}

/// The axis-aligned rectangle spanned by two opposite corners, in either
/// order.
pub fn rect_from_corners(a: Point2, b: Point2) -> (rect: Rect)
    ensures
        rect.min.x == if a.x <= b.x { a.x } else { b.x },
        rect.min.y == if a.y <= b.y { a.y } else { b.y },
        rect.max.x == if a.x <= b.x { b.x } else { a.x },
        rect.max.y == if a.y <= b.y { b.y } else { a.y },
{
    let min_x = if a.x <= b.x { a.x } else { b.x };
    let max_x = if a.x <= b.x { b.x } else { a.x };
    let min_y = if a.y <= b.y { a.y } else { b.y };
    let max_y = if a.y <= b.y { b.y } else { a.y };
    Rect { min: Point2 { x: min_x, y: min_y }, max: Point2 { x: max_x, y: max_y } }
}

/// Whether `p` lies inside `rect` (boundary included).
pub fn point_in_rect(rect: Rect, p: Point2) -> (r: bool)
    ensures
        r == rect_contains(rect, p),
{
    rect.min.x <= p.x && p.x <= rect.max.x && rect.min.y <= p.y && p.y <= rect.max.y
}

} // verus!
