//! Procedural terrain generation over a hex grid of a given radius.
//!
//! The grid holds one cell per axial address `(q, r)` with `q` in
//! `[-radius, radius]` and `max(-radius, -q-radius) <= r <= min(radius,
//! -q+radius)`: `3*radius^2 + 3*radius + 1` cells, enumerated column by
//! column. Generation runs in two passes: first every cell is classified
//! from its noise samples, then isolated cells (disagreeing with at least
//! five of their present neighbors) are reassigned to their neighbors' most
//! frequent terrain. The second pass reads only first-pass results, so a
//! reassignment never cascades.

use vstd::prelude::*;

verus! {

use crate::coords::WorldPosition;
use crate::coords::abs_val;
use crate::coords::axial_to_world;
use crate::coords::world_x_of;
use crate::coords::world_y_of;
use crate::terrain::Terrain;
use crate::terrain::TerrainClass;
use crate::terrain::classify;
use crate::terrain::classify_terrain;
use crate::terrain::find_terrain;
use crate::terrain::lookup_class;

/// Largest grid radius accepted by the generator.
pub const MAX_RADIUS: i32 = 200;

/// Largest noise sample magnitude accepted (a nominal sample lies within
/// one thousand).
pub const SAMPLE_LIMIT: i64 = 1_000_000_000;

/// Largest number of texture variants a catalog entry may hold.
pub const VARIANT_LIMIT: usize = 1_000_000;

/// The noise samples of one cell, in fixed-point thousandths.
#[derive(Clone, Copy, Debug, PartialEq, Eq, Structural)]
pub struct CellSample {
    /// Low-frequency biome field.
    pub biome: i64,
    /// Relief field; high values raise mountains.
    pub relief: i64,
    /// Turbulent feature field; bands place decorations, rocks and forests.
    pub feature: i64,
    /// Independent sample that picks the texture variant.
    pub variant: i64,
}

/// A generated tile: its sequential id, cell address, world position,
/// terrain, and which texture variant of that terrain it shows.
#[derive(Clone, Copy, Debug, PartialEq, Eq, Structural)]
pub struct Tile {
    pub id: usize,
    pub q: i32,
    pub r: i32,
    pub position: WorldPosition,
    pub terrain: TerrainClass,
    /// Index into the terrain's texture variants; always in bounds.
    pub texture_variant: usize,
}

/// Generation fails when the banding produces a terrain class the catalog
/// does not know, or one whose catalog entry offers no texture variant.
#[derive(Clone, Copy, Debug, PartialEq, Eq, Structural)]
pub enum GenError {
    /// No catalog entry has this class.
    UnknownTerrain(TerrainClass),
    /// The first catalog entry of this class has no texture variants.
    EmptyVariantList(TerrainClass),
}

/// Smallest row coordinate of column `q`: `max(-radius, -q-radius)`.
pub open spec fn row_lo(radius: int, q: int) -> int {
    if q <= 0 {
        -q - radius
    } else {
        -radius
    }
}

/// Largest row coordinate of column `q`: `min(radius, -q+radius)`.
pub open spec fn row_hi(radius: int, q: int) -> int {
    if q >= 0 {
        radius - q
    } else {
        radius
    }
}

/// Number of cells in column `q`.
pub open spec fn row_len(radius: int, q: int) -> int {
    row_hi(radius, q) - row_lo(radius, q) + 1
}

/// Whether the grid of the given radius has a cell at `(q, r)`.
pub open spec fn in_grid(radius: int, q: int, r: int) -> bool {
    &&& -radius <= q <= radius
    &&& row_lo(radius, q) <= r <= row_hi(radius, q)
}

/// The cells of column `q`, by increasing row.
pub open spec fn row_seq(radius: int, q: int) -> Seq<(int, int)> {
    Seq::new(row_len(radius, q) as nat, |i: int| (q, row_lo(radius, q) + i))
}

/// The cells of all columns before `q`, column by column.
pub open spec fn cells_upto(radius: int, q: int) -> Seq<(int, int)>
    decreases q + radius,
{
    if q <= -radius {
        Seq::empty()
    } else {
        cells_upto(radius, q - 1) + row_seq(radius, q - 1)
    }
}

/// All cells of the grid, column by column, by increasing row within a
/// column.
pub open spec fn grid_cells_spec(radius: int) -> Seq<(int, int)> {
    cells_upto(radius, radius + 1)
}

/// How many cells the grid of the given radius has.
pub open spec fn total_cells(radius: int) -> int {
    3 * radius * radius + 3 * radius + 1
}

/// Number of cells in all columns before `q`.
pub open spec fn cells_before(radius: int, q: int) -> int
    decreases q + radius,
{
    if q <= -radius {
        0
    } else {
        cells_before(radius, q - 1) + row_len(radius, q - 1)
    }
}

/// Position of cell `(q, r)` in the grid enumeration.
pub open spec fn cell_index(radius: int, q: int, r: int) -> int {
    cells_before(radius, q) + (r - row_lo(radius, q))
}

proof fn lemma_upto_len(radius: int, q: int)
    requires
        radius >= 0,
        q <= radius + 1,
    ensures
        cells_upto(radius, q).len() == cells_before(radius, q),
        cells_before(radius, q) >= 0,
    decreases q + radius,
{
    if q <= -radius {
    } else {
        lemma_upto_len(radius, q - 1);
        assert(row_len(radius, q - 1) >= 0);
    }
}

/// Twice the number of cells in all columns before `q`, in closed form.
spec fn twice_prefix(radius: int, q: int) -> int {
    if q <= 0 {
        (q + radius) * (3 * radius + q + 1)
    } else {
        (radius + 1) * (3 * radius + 2) + (q - 1) * (4 * radius + 2 - q)
    }
}

proof fn lemma_cells_before_closed(radius: int, q: int)
    requires
        radius >= 0,
        -radius <= q <= radius + 1,
    ensures
        2 * cells_before(radius, q) == twice_prefix(radius, q),
    decreases q + radius,
{
    if q <= -radius {
        assert((q + radius) * (3 * radius + q + 1) == 0) by (nonlinear_arith)
            requires
                q == -radius,
        ;
    } else {
        lemma_cells_before_closed(radius, q - 1);
        let cb_prev = cells_before(radius, q - 1);
        let rl = row_len(radius, q - 1);
        assert(cells_before(radius, q) == cb_prev + rl);
        if q <= 0 {
            assert(rl == 2 * radius + q);
            assert(2 * cb_prev == (q - 1 + radius) * (3 * radius + q));
            assert(2 * (cb_prev + rl) == (q + radius) * (3 * radius + q + 1)) by (nonlinear_arith)
                requires
                    2 * cb_prev == (q - 1 + radius) * (3 * radius + q),
                    rl == 2 * radius + q,
            ;
        } else if q == 1 {
            assert(rl == 2 * radius + 1);
            assert(2 * cb_prev == radius * (3 * radius + 1));
            assert(2 * (cb_prev + rl) == (radius + 1) * (3 * radius + 2)) by (nonlinear_arith)
                requires
                    2 * cb_prev == radius * (3 * radius + 1),
                    rl == 2 * radius + 1,
            ;
            assert(twice_prefix(radius, 1) == (radius + 1) * (3 * radius + 2) + 0 * (4 * radius
                + 1));
            assert(0 * (4 * radius + 1) == 0) by (nonlinear_arith);
        } else {
            assert(rl == 2 * radius - q + 2);
            assert(2 * cb_prev == (radius + 1) * (3 * radius + 2) + (q - 2) * (4 * radius + 3 - q));
            assert(2 * (cb_prev + rl) == (radius + 1) * (3 * radius + 2) + (q - 1) * (4 * radius + 2
                - q)) by (nonlinear_arith)
                requires
                    2 * cb_prev == (radius + 1) * (3 * radius + 2) + (q - 2) * (4 * radius + 3 - q),
                    rl == 2 * radius - q + 2,
            ;
        }
    }
}

/// The grid of radius `R` has exactly `3*R^2 + 3*R + 1` cells.
pub proof fn lemma_grid_cell_count(radius: int)
    requires
        radius >= 0,
    ensures
        grid_cells_spec(radius).len() == total_cells(radius),
{
    lemma_upto_len(radius, radius + 1);
    lemma_cells_before_closed(radius, radius + 1);
    assert((radius + 1) * (3 * radius + 2) + radius * (4 * radius + 2 - (radius + 1)) == 2 * (3
        * radius * radius + 3 * radius + 1)) by (nonlinear_arith);
}

proof fn lemma_at_index_upto(radius: int, q: int, r: int, bound: int)
    requires
        radius >= 0,
        in_grid(radius, q, r),
        q < bound <= radius + 1,
    ensures
        0 <= cell_index(radius, q, r) < cells_before(radius, bound),
        cells_upto(radius, bound)[cell_index(radius, q, r)] == (q, r),
    decreases bound + radius,
{
    lemma_upto_len(radius, bound);
    lemma_upto_len(radius, bound - 1);
    lemma_upto_len(radius, q);
    if bound == q + 1 {
        assert(cells_upto(radius, bound) == cells_upto(radius, q) + row_seq(radius, q));
        let off = r - row_lo(radius, q);
        assert(0 <= off < row_len(radius, q));
        assert(row_seq(radius, q)[off] == (q, r));
    } else {
        lemma_at_index_upto(radius, q, r, bound - 1);
        assert(row_len(radius, bound - 1) >= 0);
        assert(cells_upto(radius, bound) == cells_upto(radius, bound - 1) + row_seq(
            radius,
            bound - 1,
        ));
    }
}

/// Every cell of the grid appears in the enumeration, at `cell_index`.
pub proof fn lemma_cell_at_index(radius: int, q: int, r: int)
    requires
        radius >= 0,
        in_grid(radius, q, r),
    ensures
        0 <= cell_index(radius, q, r) < total_cells(radius),
        grid_cells_spec(radius)[cell_index(radius, q, r)] == (q, r),
{
    lemma_at_index_upto(radius, q, r, radius + 1);
    lemma_grid_cell_count(radius);
    lemma_upto_len(radius, radius + 1);
}

proof fn lemma_index_at_cell_upto(radius: int, k: int, bound: int)
    requires
        radius >= 0,
        -radius <= bound <= radius + 1,
        0 <= k < cells_before(radius, bound),
    ensures
        in_grid(radius, cells_upto(radius, bound)[k].0, cells_upto(radius, bound)[k].1),
        cell_index(
            radius,
            cells_upto(radius, bound)[k].0,
            cells_upto(radius, bound)[k].1,
        ) == k,
    decreases bound + radius,
{
    lemma_upto_len(radius, bound);
    lemma_upto_len(radius, bound - 1);
    assert(bound > -radius);
    assert(cells_upto(radius, bound) == cells_upto(radius, bound - 1) + row_seq(
        radius,
        bound - 1,
    ));
    if k < cells_before(radius, bound - 1) {
        lemma_index_at_cell_upto(radius, k, bound - 1);
    } else {
        let q = bound - 1;
        let off = k - cells_before(radius, q);
        assert(0 <= off < row_len(radius, q));
        assert(cells_upto(radius, bound)[k] == row_seq(radius, q)[off]);
        assert(row_seq(radius, q)[off] == (q, row_lo(radius, q) + off));
    }
}

/// The cell at position `k` of the enumeration is a grid cell whose
/// `cell_index` is `k`.
pub proof fn lemma_index_at_cell(radius: int, k: int)
    requires
        radius >= 0,
        0 <= k < total_cells(radius),
    ensures
        in_grid(radius, grid_cells_spec(radius)[k].0, grid_cells_spec(radius)[k].1),
        cell_index(
            radius,
            grid_cells_spec(radius)[k].0,
            grid_cells_spec(radius)[k].1,
        ) == k,
{
    lemma_grid_cell_count(radius);
    lemma_upto_len(radius, radius + 1);
    lemma_index_at_cell_upto(radius, k, radius + 1);
}

/// How many cells the grid of the given radius has.
pub fn cell_count(radius: i32) -> (n: usize)
    requires
        0 <= radius <= MAX_RADIUS,
    ensures
        n == total_cells(radius as int),
        n == grid_cells_spec(radius as int).len(),
{
    proof {
        lemma_grid_cell_count(radius as int);
    }
    let r = radius as i64;
    proof {
        assert(0 <= 3 * (r as int) * (r as int) <= 120_000 && 0 <= (3 * (r as int)) * (r as int)
            <= 120_000) by (nonlinear_arith)
            requires
                0 <= r as int <= 200,
        ;
    }
    (3 * r * r + 3 * r + 1) as usize
}

/// The cells of the grid, column by column, by increasing row within a
/// column.
pub fn grid_cells(radius: i32) -> (cells: Vec<(i32, i32)>)
    requires
        0 <= radius <= MAX_RADIUS,
    ensures
        cells@.len() == total_cells(radius as int),
        forall|k: int|
            0 <= k < cells@.len() ==> ((#[trigger] cells@[k]).0 as int, cells@[k].1 as int)
                == grid_cells_spec(radius as int)[k],
{
    let ghost rad = radius as int;
    let mut cells: Vec<(i32, i32)> = Vec::new();
    let mut q: i32 = -radius;
    while q <= radius
        invariant
            0 <= radius <= MAX_RADIUS,
            rad == radius as int,
            -radius <= q as int <= rad + 1,
            cells@.len() == cells_before(rad, q as int),
            forall|k: int|
                0 <= k < cells@.len() ==> ((#[trigger] cells@[k]).0 as int, cells@[k].1 as int)
                    == grid_cells_spec(rad)[k],
        decreases radius + 1 - q,
    {
        let lo = if q <= 0 { -q - radius } else { -radius };
        let hi = if q >= 0 { radius - q } else { radius };
        let mut r: i32 = lo;
        while r <= hi
            invariant
                0 <= radius <= MAX_RADIUS,
                rad == radius as int,
                -radius <= q as int <= radius,
                lo as int == row_lo(rad, q as int),
                hi as int == row_hi(rad, q as int),
                lo as int <= r as int <= hi as int + 1,
                cells@.len() == cell_index(rad, q as int, r as int),
                forall|k: int|
                    0 <= k < cells@.len() ==> ((#[trigger] cells@[k]).0 as int, cells@[k].1 as int)
                        == grid_cells_spec(rad)[k],
            decreases hi + 1 - r,
        {
            proof {
                lemma_cell_at_index(rad, q as int, r as int);
                lemma_grid_cell_count(rad);
            }
            cells.push((q, r));
            r = r + 1;
        }
        q = q + 1;
    }
    proof {
        lemma_upto_len(rad, rad + 1);
        lemma_grid_cell_count(rad);
    }
    cells
}

proof fn lemma_cells_before_mono(radius: int, a: int, b: int)
    requires
        radius >= 0,
        -radius <= a <= b <= radius + 1,
    ensures
        cells_before(radius, a) <= cells_before(radius, b),
    decreases b - a,
{
    if a < b {
        lemma_cells_before_mono(radius, a, b - 1);
        assert(row_len(radius, b - 1) >= 0);
    }
}

proof fn lemma_cells_before_le_total(radius: int, q: int)
    requires
        radius >= 0,
        -radius <= q <= radius + 1,
    ensures
        0 <= cells_before(radius, q) <= total_cells(radius),
    decreases q + radius,
{
    lemma_upto_len(radius, q);
    lemma_cells_before_mono(radius, q, radius + 1);
    lemma_grid_cell_count(radius);
    lemma_upto_len(radius, radius + 1);
}

/// Whether the grid of the given radius has a cell at `(q, r)`.
pub fn in_grid_cell(radius: i32, q: i32, r: i32) -> (b: bool)
    requires
        0 <= radius <= MAX_RADIUS,
        -1000 <= q as int <= 1000,
        -1000 <= r as int <= 1000,
    ensures
        b == in_grid(radius as int, q as int, r as int),
{
    if q < -radius || q > radius {
        return false;
    }
    let lo = if q <= 0 { -q - radius } else { -radius };
    let hi = if q >= 0 { radius - q } else { radius };
    lo <= r && r <= hi
}

/// Position of cell `(q, r)` in the grid enumeration.
fn cell_index_of(radius: i32, q: i32, r: i32) -> (k: usize)
    requires
        0 <= radius <= MAX_RADIUS,
        in_grid(radius as int, q as int, r as int),
    ensures
        k as int == cell_index(radius as int, q as int, r as int),
        k < total_cells(radius as int),
{
    let ghost rad = radius as int;
    let mut acc: usize = 0;
    let mut col: i32 = -radius;
    while col < q
        invariant
            0 <= radius <= MAX_RADIUS,
            rad == radius as int,
            -radius <= col as int <= q as int,
            in_grid(rad, q as int, r as int),
            acc as int == cells_before(rad, col as int),
        decreases q - col,
    {
        let lo = if col <= 0 { -col - radius } else { -radius };
        let hi = if col >= 0 { radius - col } else { radius };
        proof {
            assert(lo as int == row_lo(rad, col as int));
            assert(hi as int == row_hi(rad, col as int));
            assert(row_len(rad, col as int) >= 1);
            lemma_cells_before_le_total(rad, col as int + 1);
            assert(total_cells(rad) <= 200_000) by (nonlinear_arith)
                requires
                    0 <= rad <= 200,
            ;
            assert(cells_before(rad, col as int + 1) == cells_before(rad, col as int) + row_len(
                rad,
                col as int,
            ));
        }
        acc = acc + (hi - lo + 1) as usize;
        col = col + 1;
    }
    let lo = if q <= 0 { -q - radius } else { -radius };
    proof {
        assert(lo as int == row_lo(rad, q as int));
        lemma_cell_at_index(rad, q as int, r as int);
        lemma_cells_before_le_total(rad, q as int);
        assert(total_cells(rad) <= 200_000) by (nonlinear_arith)
            requires
                0 <= rad <= 200,
        ;
    }
    acc + (r - lo) as usize
}

/// Axial address of neighbor `n` (of six) of cell `(q, r)`.
pub open spec fn neighbor_cell(q: int, r: int, n: int) -> (int, int) {
    if n == 0 {
        (q + 1, r)
    } else if n == 1 {
        (q + 1, r - 1)
    } else if n == 2 {
        (q, r - 1)
    } else if n == 3 {
        (q - 1, r)
    } else if n == 4 {
        (q - 1, r + 1)
    } else {
        (q, r + 1)
    }
}

/// First-pass terrain of neighbor `n` of cell `(q, r)`, when the neighbor is
/// present in the grid.
pub open spec fn neighbor_class(
    radius: int,
    base: Seq<TerrainClass>,
    q: int,
    r: int,
    n: int,
) -> Option<TerrainClass> {
    let nqr = neighbor_cell(q, r, n);
    if in_grid(radius, nqr.0, nqr.1) {
        Some(base[cell_index(radius, nqr.0, nqr.1)])
    } else {
        None
    }
}

/// Among the first `n` neighbors of `(q, r)`, how many are present in the
/// grid.
pub open spec fn present_neighbors(radius: int, q: int, r: int, n: int) -> int
    decreases n,
{
    if n <= 0 {
        0
    } else {
        present_neighbors(radius, q, r, n - 1) + {
            let nqr = neighbor_cell(q, r, n - 1);
            if in_grid(radius, nqr.0, nqr.1) {
                1int
            } else {
                0int
            }
        }
    }
}

/// Among the first `n` neighbors of `(q, r)`, how many are present with a
/// terrain different from the cell's own.
pub open spec fn differing_neighbors(
    radius: int,
    base: Seq<TerrainClass>,
    q: int,
    r: int,
    n: int,
) -> int
    decreases n,
{
    if n <= 0 {
        0
    } else {
        differing_neighbors(radius, base, q, r, n - 1) + match neighbor_class(
            radius,
            base,
            q,
            r,
            n - 1,
        ) {
            Some(c) => if c != base[cell_index(radius, q, r)] {
                1int
            } else {
                0int
            },
            None => 0int,
        }
    }
}

/// Among the first `n` neighbors of `(q, r)`, how many are present with
/// terrain `c`.
pub open spec fn neighbor_class_count(
    radius: int,
    base: Seq<TerrainClass>,
    q: int,
    r: int,
    c: TerrainClass,
    n: int,
) -> int
    decreases n,
{
    if n <= 0 {
        0
    } else {
        neighbor_class_count(radius, base, q, r, c, n - 1) + if neighbor_class(
            radius,
            base,
            q,
            r,
            n - 1,
        ) == Some(c) {
            1int
        } else {
            0int
        }
    }
}

/// The most frequent terrain among the first `n` present neighbors of
/// `(q, r)`, with its count over all six; ties go to the terrain seen first
/// in the neighbor scan.
pub open spec fn best_neighbor_upto(
    radius: int,
    base: Seq<TerrainClass>,
    q: int,
    r: int,
    n: int,
) -> Option<(TerrainClass, int)>
    decreases n,
{
    if n <= 0 {
        None
    } else {
        let prev = best_neighbor_upto(radius, base, q, r, n - 1);
        match neighbor_class(radius, base, q, r, n - 1) {
            None => prev,
            Some(c) => {
                let cnt = neighbor_class_count(radius, base, q, r, c, 6);
                match prev {
                    None => Some((c, cnt)),
                    Some(p) => if cnt > p.1 {
                        Some((c, cnt))
                    } else {
                        prev
                    },
                }
            },
        }
    }
}

/// Second-pass terrain of the cell at `(q, r)`: its first-pass terrain,
/// unless at least five present neighbors disagree with it, in which case
/// the cell takes its neighbors' most frequent terrain (ties to the first
/// seen in the scan).
pub open spec fn smoothed_class(
    radius: int,
    base: Seq<TerrainClass>,
    q: int,
    r: int,
) -> TerrainClass {
    let own = base[cell_index(radius, q, r)];
    if differing_neighbors(radius, base, q, r, 6) >= 5 {
        match best_neighbor_upto(radius, base, q, r, 6) {
            Some(p) => p.0,
            None => own,
        }
    } else {
        own
    }
}

/// First-pass terrain of neighbor `n` of cell `(q, r)`, when present.
fn neighbor_class_at(radius: i32, base: &Vec<TerrainClass>, q: i32, r: i32, n: usize) -> (c:
    Option<TerrainClass>)
    requires
        0 <= radius <= MAX_RADIUS,
        in_grid(radius as int, q as int, r as int),
        base@.len() == total_cells(radius as int),
        n < 6,
    ensures
        c == neighbor_class(radius as int, base@, q as int, r as int, n as int),
{
    let (nq, nr): (i32, i32) = if n == 0 {
        (q + 1, r)
    } else if n == 1 {
        (q + 1, r - 1)
    } else if n == 2 {
        (q, r - 1)
    } else if n == 3 {
        (q - 1, r)
    } else if n == 4 {
        (q - 1, r + 1)
    } else {
        (q, r + 1)
    };
    if in_grid_cell(radius, nq, nr) {
        let idx = cell_index_of(radius, nq, nr);
        Some(base[idx])
    } else {
        None
    }
}

/// How many of the six neighbors of `(q, r)` are present with terrain `c`.
fn count_neighbor_class(radius: i32, base: &Vec<TerrainClass>, q: i32, r: i32, c: TerrainClass)
    -> (cnt: usize)
    requires
        0 <= radius <= MAX_RADIUS,
        in_grid(radius as int, q as int, r as int),
        base@.len() == total_cells(radius as int),
    ensures
        cnt as int == neighbor_class_count(radius as int, base@, q as int, r as int, c, 6),
{
    let mut cnt: usize = 0;
    let mut n: usize = 0;
    while n < 6
        invariant
            0 <= radius <= MAX_RADIUS,
            in_grid(radius as int, q as int, r as int),
            base@.len() == total_cells(radius as int),
            n <= 6,
            cnt <= n,
            cnt as int == neighbor_class_count(radius as int, base@, q as int, r as int, c, n as int),
        decreases 6 - n,
    {
        match neighbor_class_at(radius, base, q, r, n) {
            Some(nc) => {
                if nc == c {
                    cnt = cnt + 1;
                }
            },
            None => {},
        }
        n = n + 1;
    }
    cnt
}

/// Second-pass terrain of the cell at `(q, r)`.
fn smooth_cell(radius: i32, base: &Vec<TerrainClass>, q: i32, r: i32) -> (c: TerrainClass)
    requires
        0 <= radius <= MAX_RADIUS,
        in_grid(radius as int, q as int, r as int),
        base@.len() == total_cells(radius as int),
    ensures
        c == smoothed_class(radius as int, base@, q as int, r as int),
{
    let own_idx = cell_index_of(radius, q, r);
    let own = base[own_idx];
    let mut diff: usize = 0;
    let mut n: usize = 0;
    while n < 6
        invariant
            0 <= radius <= MAX_RADIUS,
            in_grid(radius as int, q as int, r as int),
            base@.len() == total_cells(radius as int),
            own == base@[cell_index(radius as int, q as int, r as int)],
            n <= 6,
            diff <= n,
            diff as int == differing_neighbors(radius as int, base@, q as int, r as int, n as int),
        decreases 6 - n,
    {
        match neighbor_class_at(radius, base, q, r, n) {
            Some(nc) => {
                if nc != own {
                    diff = diff + 1;
                }
            },
            None => {},
        }
        n = n + 1;
    }
    if diff >= 5 {
        let mut best_class: Option<TerrainClass> = None;
        let mut best_cnt: usize = 0;
        let mut m: usize = 0;
        while m < 6
            invariant
                0 <= radius <= MAX_RADIUS,
                in_grid(radius as int, q as int, r as int),
                base@.len() == total_cells(radius as int),
                m <= 6,
                best_neighbor_upto(radius as int, base@, q as int, r as int, m as int)
                    == match best_class {
                    None => None::<(TerrainClass, int)>,
                    Some(bc) => Some((bc, best_cnt as int)),
                },
            decreases 6 - m,
        {
            match neighbor_class_at(radius, base, q, r, m) {
                Some(nc) => {
                    let cnt = count_neighbor_class(radius, base, q, r, nc);
                    match best_class {
                        None => {
                            best_class = Some(nc);
                            best_cnt = cnt;
                        },
                        Some(_) => {
                            if cnt > best_cnt {
                                best_class = Some(nc);
                                best_cnt = cnt;
                            }
                        },
                    }
                },
                None => {},
            }
            m = m + 1;
        }
        match best_class {
            Some(bc) => bc,
            None => own,
        }
    } else {
        own
    }
}

/// Second pass over the whole grid: reassign every isolated cell (at least
/// five present neighbors of a different terrain) to its neighbors' most
/// frequent terrain. Reads only first-pass terrains, so no reassignment
/// cascades.
pub fn smooth_terrains(radius: i32, cells: &Vec<(i32, i32)>, base: &Vec<TerrainClass>) -> (out:
    Vec<TerrainClass>)
    requires
        0 <= radius <= MAX_RADIUS,
        cells@.len() == total_cells(radius as int),
        forall|k: int|
            0 <= k < cells@.len() ==> ((#[trigger] cells@[k]).0 as int, cells@[k].1 as int)
                == grid_cells_spec(radius as int)[k],
        base@.len() == total_cells(radius as int),
    ensures
        out@.len() == total_cells(radius as int),
        forall|k: int|
            0 <= k < out@.len() ==> #[trigger] out@[k] == smoothed_class(
                radius as int,
                base@,
                grid_cells_spec(radius as int)[k].0,
                grid_cells_spec(radius as int)[k].1,
            ),
{
    let ghost rad = radius as int;
    let total = cells.len();
    let mut out: Vec<TerrainClass> = Vec::new();
    let mut k: usize = 0;
    while k < total
        invariant
            0 <= radius <= MAX_RADIUS,
            rad == radius as int,
            total == cells@.len(),
            cells@.len() == total_cells(rad),
            base@.len() == total_cells(rad),
            forall|j: int|
                0 <= j < cells@.len() ==> ((#[trigger] cells@[j]).0 as int, cells@[j].1 as int)
                    == grid_cells_spec(rad)[j],
            k <= total,
            out@.len() == k,
            forall|j: int|
                0 <= j < k ==> #[trigger] out@[j] == smoothed_class(
                    rad,
                    base@,
                    grid_cells_spec(rad)[j].0,
                    grid_cells_spec(rad)[j].1,
                ),
        decreases total - k,
    {
        let (q, r) = cells[k];
        proof {
            lemma_index_at_cell(rad, k as int);
        }
        let c = smooth_cell(radius, base, q, r);
        out.push(c);
        k = k + 1;
    }
    out
}

/// First-pass terrains of all cells, from their samples.
pub open spec fn base_seq(samples: Seq<CellSample>) -> Seq<TerrainClass> {
    samples.map_values(
        |s: CellSample| classify(s.biome as int, s.relief as int, s.feature as int),
    )
}

/// The terrain of the tile at position `k` of the enumeration: the two-pass
/// result of classifying every cell and smoothing isolated ones.
pub open spec fn tile_class(radius: int, samples: Seq<CellSample>, k: int) -> TerrainClass {
    smoothed_class(
        radius,
        base_seq(samples),
        grid_cells_spec(radius)[k].0,
        grid_cells_spec(radius)[k].1,
    )
}

/// Texture variant picked by sample `v` among `n` variants:
/// `|v| * n / 1000 mod n`, in bounds for every sample value.
pub open spec fn variant_of(v: int, n: int) -> int {
    (abs_val(v) * n / 1000) % n
}

/// The catalog can supply terrain `c`: it has an entry for it, with at least
/// one texture variant.
pub open spec fn catalog_supplies(entries: Seq<Terrain>, c: TerrainClass) -> bool {
    &&& lookup_class(entries, c) >= 0
    &&& entries[lookup_class(entries, c)].texture_variants.len() > 0
}

/// The error generation reports for a terrain the catalog cannot supply.
pub open spec fn gen_error_for(entries: Seq<Terrain>, c: TerrainClass) -> GenError {
    if lookup_class(entries, c) < 0 {
        GenError::UnknownTerrain(c)
    } else {
        GenError::EmptyVariantList(c)
    }
}

/// First pass: classify every cell from its noise samples.
pub fn assign_base_terrains(samples: &Vec<CellSample>) -> (out: Vec<TerrainClass>)
    ensures
        out@ == base_seq(samples@),
{
    let mut out: Vec<TerrainClass> = Vec::new();
    let mut k: usize = 0;
    while k < samples.len()
        invariant
            k <= samples@.len(),
            out@.len() == k,
            forall|j: int|
                0 <= j < k ==> #[trigger] out@[j] == classify(
                    samples@[j].biome as int,
                    samples@[j].relief as int,
                    samples@[j].feature as int,
                ),
        decreases samples.len() - k,
    {
        let s = samples[k];
        out.push(classify_terrain(s.biome, s.relief, s.feature));
        k = k + 1;
    }
    proof {
        assert(out@ =~= base_seq(samples@));
    }
    out
}

/// Generate the terrain of a grid of the given radius: one tile per cell,
/// with sequential ids, the cell's world position, its two-pass terrain, and
/// an in-bounds texture variant. Fails, at the first cell in enumeration
/// order whose terrain the catalog cannot supply, with an error naming that
/// terrain; succeeds exactly when the catalog supplies every cell's terrain.
pub fn generate(radius: i32, terrains: &Vec<Terrain>, samples: &Vec<CellSample>) -> (res: Result<
    Vec<Tile>,
    GenError,
>)
    requires
        0 <= radius <= MAX_RADIUS,
        samples@.len() == total_cells(radius as int),
        forall|k: int|
            0 <= k < samples@.len() ==> -SAMPLE_LIMIT <= (#[trigger] samples@[k]).variant
                <= SAMPLE_LIMIT,
        forall|j: int|
            0 <= j < terrains@.len() ==> (#[trigger] terrains@[j].texture_variants@.len())
                <= VARIANT_LIMIT,
    ensures
        res is Ok <==> forall|k: int|
            0 <= k < total_cells(radius as int) ==> catalog_supplies(
                terrains@,
                #[trigger] tile_class(radius as int, samples@, k),
            ),
        res matches Ok(tiles) ==> {
            &&& tiles@.len() == total_cells(radius as int)
            &&& forall|k: int| 0 <= k < tiles@.len() ==> (#[trigger] tiles@[k]).id == k
            &&& forall|k: int|
                0 <= k < tiles@.len() ==> ((#[trigger] tiles@[k]).q as int, tiles@[k].r as int)
                    == grid_cells_spec(radius as int)[k]
            &&& forall|k: int|
                0 <= k < tiles@.len() ==> (#[trigger] tiles@[k]).position == (WorldPosition {
                    x: world_x_of(tiles@[k].q as int, tiles@[k].r as int) as i64,
                    y: world_y_of(tiles@[k].r as int) as i64,
                    z: 0,
                })
            &&& forall|k: int|
                0 <= k < tiles@.len() ==> (#[trigger] tiles@[k]).terrain == tile_class(
                    radius as int,
                    samples@,
                    k,
                )
            &&& forall|k: int|
                0 <= k < tiles@.len() ==> (#[trigger] tiles@[k]).texture_variant as int
                    == variant_of(
                    samples@[k].variant as int,
                    terrains@[lookup_class(terrains@, tiles@[k].terrain)].texture_variants@.len()
                        as int,
                ) && tiles@[k].texture_variant < terrains@[lookup_class(
                    terrains@,
                    tiles@[k].terrain,
                )].texture_variants@.len()
        },
        res matches Err(e) ==> exists|k: int|
            {
                &&& 0 <= k < total_cells(radius as int)
                &&& !catalog_supplies(terrains@, #[trigger] tile_class(radius as int, samples@, k))
                &&& forall|j: int|
                    0 <= j < k ==> catalog_supplies(
                        terrains@,
                        #[trigger] tile_class(radius as int, samples@, j),
                    )
                &&& e == gen_error_for(terrains@, tile_class(radius as int, samples@, k))
            },
{
    let ghost rad = radius as int;
    let cells = grid_cells(radius);
    let base = assign_base_terrains(samples);
    let smoothed = smooth_terrains(radius, &cells, &base);
    proof {
        assert(forall|k: int|
            0 <= k < smoothed@.len() ==> #[trigger] smoothed@[k] == tile_class(rad, samples@, k));
    }
    let total = cells.len();
    let mut tiles: Vec<Tile> = Vec::new();
    let mut k: usize = 0;
    while k < total
        invariant
            0 <= radius <= MAX_RADIUS,
            rad == radius as int,
            total == cells@.len(),
            cells@.len() == total_cells(rad),
            smoothed@.len() == total_cells(rad),
            samples@.len() == total_cells(rad),
            forall|j: int|
                0 <= j < samples@.len() ==> -SAMPLE_LIMIT <= (#[trigger] samples@[j]).variant
                    <= SAMPLE_LIMIT,
            forall|j: int|
                0 <= j < terrains@.len() ==> (#[trigger] terrains@[j].texture_variants@.len())
                    <= VARIANT_LIMIT,
            forall|j: int|
                0 <= j < cells@.len() ==> ((#[trigger] cells@[j]).0 as int, cells@[j].1 as int)
                    == grid_cells_spec(rad)[j],
            forall|j: int|
                0 <= j < smoothed@.len() ==> #[trigger] smoothed@[j] == tile_class(
                    rad,
                    samples@,
                    j,
                ),
            k <= total,
            tiles@.len() == k,
            forall|j: int|
                0 <= j < k ==> catalog_supplies(
                    terrains@,
                    #[trigger] tile_class(rad, samples@, j),
                ),
            forall|j: int| 0 <= j < k ==> (#[trigger] tiles@[j]).id == j,
            forall|j: int|
                0 <= j < k ==> ((#[trigger] tiles@[j]).q as int, tiles@[j].r as int)
                    == grid_cells_spec(rad)[j],
            forall|j: int|
                0 <= j < k ==> (#[trigger] tiles@[j]).position == (WorldPosition {
                    x: world_x_of(tiles@[j].q as int, tiles@[j].r as int) as i64,
                    y: world_y_of(tiles@[j].r as int) as i64,
                    z: 0,
                }),
            forall|j: int|
                0 <= j < k ==> (#[trigger] tiles@[j]).terrain == tile_class(rad, samples@, j),
            forall|j: int|
                0 <= j < k ==> (#[trigger] tiles@[j]).texture_variant as int == variant_of(
                    samples@[j].variant as int,
                    terrains@[lookup_class(terrains@, tiles@[j].terrain)].texture_variants@.len()
                        as int,
                ) && tiles@[j].texture_variant < terrains@[lookup_class(
                    terrains@,
                    tiles@[j].terrain,
                )].texture_variants@.len(),
        decreases total - k,
    {
        let class = smoothed[k];
        match find_terrain(terrains, class) {
            None => {
                proof {
                    assert(!catalog_supplies(terrains@, tile_class(rad, samples@, k as int)));
                }
                return Err(GenError::UnknownTerrain(class));
            },
            Some(ti) => {
                let count = terrains[ti].texture_variants.len();
                if count == 0 {
                    proof {
                        assert(!catalog_supplies(terrains@, tile_class(rad, samples@, k as int)));
                    }
                    return Err(GenError::EmptyVariantList(class));
                }
                let v = samples[k].variant;
                let av: i64 = if v < 0 {
                    -v
                } else {
                    v
                };
                proof {
                    assert(0 <= av * (count as i64) <= 1_000_000_000_000_000_000) by (
                    nonlinear_arith)
                        requires
                            0 <= av <= SAMPLE_LIMIT,
                            0 <= count <= VARIANT_LIMIT,
                    ;
                }
                let variant = ((av * count as i64) / 1000 % count as i64) as usize;
                let (q, r) = cells[k];
                proof {
                    lemma_index_at_cell(rad, k as int);
                }
                let position = axial_to_world(q, r);
                tiles.push(
                    Tile { id: k, q, r, position, terrain: class, texture_variant: variant },
                );
            },
        }
        k = k + 1;
    }
    Ok(tiles)
}

/// What smoothing reassigns an isolated cell to really is a most frequent
/// terrain among its present neighbors: no present neighbor's terrain occurs
/// more often than the chosen one.
pub proof fn lemma_smoothing_target_is_most_frequent(
    radius: int,
    base: Seq<TerrainClass>,
    q: int,
    r: int,
)
    requires
        best_neighbor_upto(radius, base, q, r, 6) is Some,
    ensures
        ({
            let p = best_neighbor_upto(radius, base, q, r, 6)->0;
            &&& p.1 == neighbor_class_count(radius, base, q, r, p.0, 6)
            &&& forall|n: int|
                0 <= n < 6 ==> match #[trigger] neighbor_class(radius, base, q, r, n) {
                    Some(c) => neighbor_class_count(radius, base, q, r, c, 6) <= p.1,
                    None => true,
                }
        }),
{
    lemma_best_neighbor_upto_props(radius, base, q, r, 6);
}

proof fn lemma_best_neighbor_upto_props(
    radius: int,
    base: Seq<TerrainClass>,
    q: int,
    r: int,
    n: int,
)
    requires
        0 <= n <= 6,
    ensures
        best_neighbor_upto(radius, base, q, r, n) matches Some(p) ==> {
            &&& p.1 == neighbor_class_count(radius, base, q, r, p.0, 6)
            &&& forall|m: int|
                0 <= m < n ==> match #[trigger] neighbor_class(radius, base, q, r, m) {
                    Some(c) => neighbor_class_count(radius, base, q, r, c, 6) <= p.1,
                    None => true,
                }
        },
        best_neighbor_upto(radius, base, q, r, n) is None ==> forall|m: int|
            0 <= m < n ==> (#[trigger] neighbor_class(radius, base, q, r, m)) is None,
    decreases n,
{
    if n > 0 {
        lemma_best_neighbor_upto_props(radius, base, q, r, n - 1);
    }
}

/// An isolated cell takes its neighbors' terrain: when every neighbor of
/// `(q, r)` present in the grid has the same terrain `c`, the cell's own
/// first-pass terrain differs from `c`, and at least five neighbors are
/// present, smoothing reassigns the cell to `c`.
pub proof fn lemma_isolated_cell_takes_neighbor_terrain(
    radius: int,
    base: Seq<TerrainClass>,
    q: int,
    r: int,
    c: TerrainClass,
)
    requires
        radius >= 0,
        in_grid(radius, q, r),
        forall|n: int|
            0 <= n < 6 ==> (#[trigger] neighbor_class(radius, base, q, r, n)) is Some
                ==> neighbor_class(radius, base, q, r, n) == Some(c),
        present_neighbors(radius, q, r, 6) >= 5,
        base[cell_index(radius, q, r)] != c,
    ensures
        smoothed_class(radius, base, q, r) == c,
{
    lemma_all_neighbors_same(radius, base, q, r, c, 6);
}

proof fn lemma_all_neighbors_same(
    radius: int,
    base: Seq<TerrainClass>,
    q: int,
    r: int,
    c: TerrainClass,
    n: int,
)
    requires
        radius >= 0,
        in_grid(radius, q, r),
        0 <= n <= 6,
        forall|m: int|
            0 <= m < 6 ==> (#[trigger] neighbor_class(radius, base, q, r, m)) is Some
                ==> neighbor_class(radius, base, q, r, m) == Some(c),
        base[cell_index(radius, q, r)] != c,
    ensures
        differing_neighbors(radius, base, q, r, n) == present_neighbors(radius, q, r, n),
        present_neighbors(radius, q, r, n) > 0 ==> best_neighbor_upto(radius, base, q, r, n)
            == Some((c, neighbor_class_count(radius, base, q, r, c, 6))),
        present_neighbors(radius, q, r, n) == 0 ==> best_neighbor_upto(radius, base, q, r, n)
            is None,
        present_neighbors(radius, q, r, n) >= 0,
    decreases n,
{
    if n > 0 {
        lemma_all_neighbors_same(radius, base, q, r, c, n - 1);
    }
}

} // verus!
