//! Axial hex coordinates and their exact fixed-point world positions.
//!
//! A hexagon has size `HEX_SIZE_MILLI` (thousandths of a world unit). A cell
//! at axial address `(q, r)` sits at world `x = H*sqrt(3)*(q + r/2)` and
//! `y = H*1.5*r`; both are represented exactly by the integer constants
//! `HEX_COL_HALF_STEP` (half of one column step) and `HEX_ROW_STEP`, so the
//! conversions are deterministic and the inverse recovers every cell address
//! exactly at cell centers.

use vstd::prelude::*;

verus! {

use vstd::arithmetic::div_mod::lemma_fundamental_div_mod_converse;
use vstd::arithmetic::div_mod::lemma_div_is_ordered;

/// Size of one hexagon, in thousandths of a world unit.
pub const HEX_SIZE_MILLI: i64 = 30000;

/// Half of the horizontal step between hex columns: `HEX_SIZE * sqrt(3) / 2`,
/// in thousandths of a world unit, rounded to the nearest integer.
pub const HEX_COL_HALF_STEP: i64 = 25981;

/// Vertical step between hex rows: `HEX_SIZE * 3 / 2`, in thousandths of a
/// world unit.
pub const HEX_ROW_STEP: i64 = 45000;

/// Radius, in hex rings, of the generated grid.
pub const GRID_RADIUS: i32 = 58;

/// Largest axial coordinate magnitude accepted by the conversions; keeps all
/// fixed-point arithmetic within `i64`.
pub const AXIAL_LIMIT: i64 = 1_000_000;

/// Largest world coordinate magnitude accepted by the inverse conversion.
pub const WORLD_LIMIT: i64 = 100_000_000_000;

/// Largest hex coordinate magnitude accepted by `hex_distance`; keeps the
/// result within `i32`.
pub const HEX_DIST_LIMIT: i64 = 500_000_000;

/// A position in the game world, in thousandths of a world unit per axis.
#[derive(Clone, Copy, Debug, PartialEq, Eq, Structural)]
pub struct WorldPosition {
    pub x: i64,
    pub y: i64,
    pub z: i64,
}

/// World x coordinate of the center of cell `(q, r)`.
pub open spec fn world_x_of(q: int, r: int) -> int {
    (HEX_COL_HALF_STEP as int) * (2 * q + r)
}

/// World y coordinate of the center of cell `(q, r)`.
pub open spec fn world_y_of(r: int) -> int {
    (HEX_ROW_STEP as int) * r
}

/// Nearest integer to `n / d` for `d > 0`, ties rounded away from zero.
pub open spec fn round_div_spec(n: int, d: int) -> int
    recommends
        d > 0,
{
    if n >= 0 {
        (n + d / 2) / d
    } else {
        -((-n + d / 2) / d)
    }
}

/// The axial cell whose center is nearest to world point `(x, y)`.
pub open spec fn nearest_axial(x: int, y: int) -> (int, int) {
    let r = round_div_spec(y, HEX_ROW_STEP as int);
    let q = round_div_spec(x - (HEX_COL_HALF_STEP as int) * r, 2 * (HEX_COL_HALF_STEP as int));
    (q, r)
}

/// Hex (axial) distance between cells `(q1, r1)` and `(q2, r2)`.
pub open spec fn hex_dist(q1: int, r1: int, q2: int, r2: int) -> int {
    (abs_val(q1 - q2) + abs_val(r1 - r2) + abs_val(q1 + r1 - q2 - r2)) / 2
}

/// Absolute value.
pub open spec fn abs_val(x: int) -> int {
    if x < 0 {
        -x
    } else {
        x
    }
}

/// Rounding an exact multiple of the divisor recovers the multiplier.
pub proof fn lemma_round_div_exact(k: int, d: int)
    requires
        d > 0,
    ensures
        round_div_spec(k * d, d) == k,
{
    if k >= 0 {
        assert(k * d >= 0) by (nonlinear_arith)
            requires
                k >= 0,
                d > 0,
        ;
        lemma_fundamental_div_mod_converse(k * d + d / 2, d, k, d / 2);
    } else {
        assert(k * d < 0 && -(k * d) == (-k) * d) by (nonlinear_arith)
            requires
                k < 0,
                d > 0,
        ;
        lemma_fundamental_div_mod_converse((-k) * d + d / 2, d, -k, d / 2);
    }
}

/// The rounded quotient is bounded whenever the dividend is.
pub proof fn lemma_round_div_bound(n: int, d: int, b: int)
    requires
        d > 0,
        b >= 0,
        -(b * d) <= n <= b * d,
    ensures
        -b <= round_div_spec(n, d) <= b,
{
    lemma_fundamental_div_mod_converse(b * d + d / 2, d, b, d / 2);
    if n >= 0 {
        lemma_div_is_ordered(n + d / 2, b * d + d / 2, d);
        assert((n + d / 2) / d >= 0) by {
            lemma_div_is_ordered(0, n + d / 2, d);
        }
    } else {
        lemma_div_is_ordered(-n + d / 2, b * d + d / 2, d);
        assert((-n + d / 2) / d >= 0) by {
            lemma_div_is_ordered(0, -n + d / 2, d);
        }
    }
}

/// Nearest integer to `n / d`, ties rounded away from zero.
pub(crate) fn round_div(n: i64, d: i64) -> (r: i64)
    requires
        0 < d,
        -0x2000_0000_0000_0000 < n < 0x2000_0000_0000_0000,
        d < 0x2000_0000_0000_0000,
    ensures
        r == round_div_spec(n as int, d as int),
{
    if n >= 0 {
        (n + d / 2) / d
    } else {
        -((-n + d / 2) / d)
    }
}

/// World position of the center of the hex cell at axial address `(q, r)`.
pub fn axial_to_world(q: i32, r: i32) -> (p: WorldPosition)
    requires
        -AXIAL_LIMIT <= q as int <= AXIAL_LIMIT,
        -AXIAL_LIMIT <= r as int <= AXIAL_LIMIT,
    ensures
        p.x == world_x_of(q as int, r as int),
        p.y == world_y_of(r as int),
        p.z == 0,
{
    let qi = q as i64;
    let ri = r as i64;
    WorldPosition { x: HEX_COL_HALF_STEP * (2 * qi + ri), y: HEX_ROW_STEP * ri, z: 0 }
}

/// Axial address of the hex cell whose center is nearest to `p`.
///
/// Exact at cell centers; between centers the result is the nearest cell, so
/// the conversion is lossy there by design.
pub fn world_to_axial(p: WorldPosition) -> (qr: (i32, i32))
    requires
        -WORLD_LIMIT <= p.x <= WORLD_LIMIT,
        -WORLD_LIMIT <= p.y <= WORLD_LIMIT,
    ensures
        (qr.0 as int, qr.1 as int) == nearest_axial(p.x as int, p.y as int),
{
    let r = round_div(p.y, HEX_ROW_STEP);
    proof {
        lemma_round_div_bound(p.y as int, HEX_ROW_STEP as int, 3_000_000);
    }
    let q = round_div(p.x - HEX_COL_HALF_STEP * r, 2 * HEX_COL_HALF_STEP);
    proof {
        lemma_round_div_bound(
            p.x - HEX_COL_HALF_STEP * r,
            2 * HEX_COL_HALF_STEP as int,
            4_000_000,
        );
    }
    (q as i32, r as i32)
}

/// Distance in hex steps between the cells `(q1, r1)` and `(q2, r2)`.
pub fn hex_distance(q1: i32, r1: i32, q2: i32, r2: i32) -> (d: i32)
    requires
        -HEX_DIST_LIMIT <= q1 as int <= HEX_DIST_LIMIT,
        -HEX_DIST_LIMIT <= r1 as int <= HEX_DIST_LIMIT,
        -HEX_DIST_LIMIT <= q2 as int <= HEX_DIST_LIMIT,
        -HEX_DIST_LIMIT <= r2 as int <= HEX_DIST_LIMIT,
    ensures
        d == hex_dist(q1 as int, r1 as int, q2 as int, r2 as int),
{
    let dq = q1 as i64 - q2 as i64;
    let dr = r1 as i64 - r2 as i64;
    let ds = dq + dr;
    let adq = if dq < 0 { -dq } else { dq };
    let adr = if dr < 0 { -dr } else { dr };
    let ads = if ds < 0 { -ds } else { ds };
    ((adq + adr + ads) / 2) as i32
}

/// Converting a cell address to its world position and back recovers the
/// address exactly, for every cell within `AXIAL_LIMIT`.
pub proof fn lemma_world_round_trip(q: int, r: int)
    requires
        -AXIAL_LIMIT <= q <= AXIAL_LIMIT,
        -AXIAL_LIMIT <= r <= AXIAL_LIMIT,
    ensures
        nearest_axial(world_x_of(q, r), world_y_of(r)) == (q, r),
{
    lemma_round_div_exact(r, HEX_ROW_STEP as int);
    assert(world_y_of(r) == r * (HEX_ROW_STEP as int)) by (nonlinear_arith);
    assert(world_x_of(q, r) - (HEX_COL_HALF_STEP as int) * r == q * (2 * (
    HEX_COL_HALF_STEP as int))) by (nonlinear_arith);
    lemma_round_div_exact(q, 2 * (HEX_COL_HALF_STEP as int));
}

/// Hex distance is symmetric in its two cell arguments.
pub proof fn lemma_hex_distance_symmetric(q1: int, r1: int, q2: int, r2: int)
    ensures
        hex_dist(q1, r1, q2, r2) == hex_dist(q2, r2, q1, r1),
{
}

/// The hex distance from any cell to itself is zero.
pub proof fn lemma_hex_distance_zero(q: int, r: int)
    ensures
        hex_dist(q, r, q, r) == 0,
{
}

} // verus!
