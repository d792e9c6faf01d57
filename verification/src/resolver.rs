//! Selection resolution: find the entity under the pointer, honoring
//! per-kind hit radii adjusted for camera zoom and rotation, ranked by
//! screen-space distance with camera depth as the tie-breaker; and collect
//! the entities inside a drag rectangle.
//!
//! The caller projects entity positions to screen space and condenses the
//! camera's zoom and rotation compensation into one scale factor (thousandths;
//! 1000 is the identity), so that resolution itself is exact integer
//! arithmetic.

use vstd::prelude::*;

verus! {

use crate::geometry::Point2;
use crate::geometry::Rect;
use crate::geometry::dist_sq;
use crate::geometry::dist_sq_spec;
use crate::geometry::in_range;
use crate::geometry::point_in_rect;
use crate::geometry::rect_contains;

/// Base hit radius of a tile, in thousandths of a pixel (1.5 hex sizes).
pub const TILE_HIT_RADIUS: i64 = 45000;

/// Base hit radius of a unit or building, in thousandths of a pixel (0.4 hex
/// sizes).
pub const UNIT_HIT_RADIUS: i64 = 12000;

/// Base hit radius of a UI element, in thousandths of a pixel (0.2 hex
/// sizes).
pub const UI_HIT_RADIUS: i64 = 6000;

/// Radius within which an entity reads as hovered, in thousandths of a
/// pixel.
pub const HOVER_RADIUS: i64 = 50000;

/// Largest accepted camera scale factor, in thousandths.
pub const MAX_VIEW_SCALE: i64 = 1_000_000;

/// The kind of an entity participating in pointer interaction.
#[derive(Clone, Copy, Debug, PartialEq, Eq, Structural)]
pub enum SelectableType {
    Unit,
    Tile,
    Building,
    UI,
}

impl Default for SelectableType {
    /// Unit, the most common interactive kind.
    fn default() -> (k: SelectableType)
        ensures
            k == SelectableType::Unit,
    {
        SelectableType::Unit
    }
}

/// Pointer-interaction state attached to an entity.
#[derive(Clone, Copy, Debug, PartialEq, Eq, Structural)]
pub struct Selectable {
    pub is_selected: bool,
    pub is_hovered: bool,
    pub selectable_type: SelectableType,
}

impl Selectable {
    /// A deselected, unhovered entity of the given kind.
    pub fn new(selectable_type: SelectableType) -> (s: Selectable)
        ensures
            s == (Selectable { is_selected: false, is_hovered: false, selectable_type }),
    {
        Selectable { is_selected: false, is_hovered: false, selectable_type }
    }
}

impl Default for Selectable {
    /// A deselected, unhovered entity of the default kind.
    fn default() -> (s: Selectable)
        ensures
            s == (Selectable {
                is_selected: false,
                is_hovered: false,
                selectable_type: SelectableType::Unit,
            }),
    {
        Selectable { is_selected: false, is_hovered: false, selectable_type: SelectableType::Unit }
    }
}

/// A hit threshold together with the kind's selection priority.
#[derive(Clone, Copy, Debug, PartialEq, Eq, Structural)]
pub struct SelectionThreshold {
    /// Hit radius, in thousandths of a pixel.
    pub threshold: i64,
    /// Larger wins when the caller ranks kinds.
    pub priority: i32,
}

/// Base hit radius of a kind, in thousandths of a pixel: tiles largest,
/// units and buildings medium, UI elements smallest.
pub open spec fn base_hit_radius(kind: SelectableType) -> int {
    match kind {
        SelectableType::Tile => TILE_HIT_RADIUS as int,
        SelectableType::Unit => UNIT_HIT_RADIUS as int,
        SelectableType::Building => UNIT_HIT_RADIUS as int,
        SelectableType::UI => UI_HIT_RADIUS as int,
    }
}

/// Selection priority of a kind.
pub open spec fn kind_priority(kind: SelectableType) -> int {
    match kind {
        SelectableType::Tile => 0,
        SelectableType::Unit => 2,
        SelectableType::Building => 2,
        SelectableType::UI => 1,
    }
}

/// The hit radius of a kind under a camera scale factor (thousandths): the
/// base radius scaled proportionally.
pub open spec fn scaled_hit_radius(kind: SelectableType, scale_milli: int) -> int {
    base_hit_radius(kind) * scale_milli / 1000
}

/// The hit threshold of a kind under the camera scale factor that the caller
/// derived from zoom and rotation compensation.
pub fn get_threshold(kind: SelectableType, scale_milli: i64) -> (t: SelectionThreshold)
    requires
        0 < scale_milli <= MAX_VIEW_SCALE,
    ensures
        t.threshold == scaled_hit_radius(kind, scale_milli as int),
        t.priority == kind_priority(kind),
        0 <= t.threshold <= 45_000_000,
{
    let (base, priority): (i64, i32) = match kind {
        SelectableType::Tile => (TILE_HIT_RADIUS, 0),
        SelectableType::Unit => (UNIT_HIT_RADIUS, 2),
        SelectableType::Building => (UNIT_HIT_RADIUS, 2),
        SelectableType::UI => (UI_HIT_RADIUS, 1),
    };
    proof {
        assert(0 <= base * scale_milli <= 45_000_000_000) by (nonlinear_arith)
            requires
                0 < scale_milli <= MAX_VIEW_SCALE,
                0 <= base <= TILE_HIT_RADIUS,
        ;
    }
    SelectionThreshold { threshold: (base * scale_milli) / 1000, priority }
}

/// An entity offered to selection resolution: its id, its position projected
/// to screen space, its camera depth (smaller is nearer), and its kind.
#[derive(Clone, Copy, Debug, PartialEq, Eq, Structural)]
pub struct Candidate {
    pub id: u64,
    pub screen_pos: Point2,
    pub depth: i64,
    pub kind: SelectableType,
}

/// The candidate's screen distance to the cursor is strictly inside its
/// scaled hit radius.
pub open spec fn click_qualifies(c: Candidate, cursor: Point2, scale_milli: int) -> bool {
    dist_sq_spec(c.screen_pos, cursor) < scaled_hit_radius(c.kind, scale_milli) * scaled_hit_radius(
        c.kind,
        scale_milli,
    )
}

/// The candidate's screen distance to the cursor is strictly inside the
/// hover radius.
pub open spec fn hover_qualifies(c: Candidate, cursor: Point2) -> bool {
    dist_sq_spec(c.screen_pos, cursor) < HOVER_RADIUS * HOVER_RADIUS
}

/// Candidate `i` of `cands` ranks at least as well as candidate `j` for a
/// click at `cursor`: closer on screen, or as close and nearer to the
/// camera, or equal on both and listed first.
pub open spec fn ranks_before(cands: Seq<Candidate>, cursor: Point2, i: int, j: int) -> bool {
    let di = dist_sq_spec(cands[i].screen_pos, cursor);
    let dj = dist_sq_spec(cands[j].screen_pos, cursor);
    ||| di < dj
    ||| (di == dj && cands[i].depth < cands[j].depth)
    ||| (di == dj && cands[i].depth == cands[j].depth && i <= j)
}

/// All candidate screen positions are in range.
pub open spec fn candidates_in_range(cands: Seq<Candidate>) -> bool {
    forall|i: int| 0 <= i < cands.len() ==> in_range(#[trigger] cands[i].screen_pos)
}

/// Resolve a click at `cursor`: among the candidates within their scaled hit
/// radius, pick the one nearest on screen, breaking ties by camera depth and
/// then by position in the list. Returns its index, or nothing when no
/// candidate is in radius.
pub fn resolve_click(cursor: Point2, cands: &Vec<Candidate>, scale_milli: i64) -> (r: Option<
    usize,
>)
    requires
        in_range(cursor),
        candidates_in_range(cands@),
        0 < scale_milli <= MAX_VIEW_SCALE,
    ensures
        r is None <==> forall|j: int|
            0 <= j < cands@.len() ==> !click_qualifies(cands@[j], cursor, scale_milli as int),
        r matches Some(i) ==> 0 <= i < cands@.len() && click_qualifies(
            cands@[i as int],
            cursor,
            scale_milli as int,
        ) && forall|j: int|
            0 <= j < cands@.len() && #[trigger] click_qualifies(cands@[j], cursor, scale_milli as int)
                ==> ranks_before(cands@, cursor, i as int, j),
{
    let mut best: Option<usize> = None;
    let mut best_dist: i64 = 0;
    let mut best_depth: i64 = 0;
    let mut i: usize = 0;
    while i < cands.len()
        invariant
            i <= cands.len(),
            in_range(cursor),
            candidates_in_range(cands@),
            0 < scale_milli <= MAX_VIEW_SCALE,
            best is None ==> forall|j: int|
                0 <= j < i ==> !click_qualifies(cands@[j], cursor, scale_milli as int),
            best matches Some(b) ==> 0 <= b < i,
            best matches Some(b) ==> click_qualifies(cands@[b as int], cursor, scale_milli as int),
            best matches Some(b) ==> best_dist == dist_sq_spec(cands@[b as int].screen_pos, cursor),
            best matches Some(b) ==> best_depth == cands@[b as int].depth,
            best matches Some(b) ==> forall|j: int|
                0 <= j < i && #[trigger] click_qualifies(cands@[j], cursor, scale_milli as int)
                    ==> ranks_before(cands@, cursor, b as int, j),
        decreases cands.len() - i,
    {
        let c = cands[i];
        let t = get_threshold(c.kind, scale_milli);
        let d = dist_sq(c.screen_pos, cursor);
        proof {
            assert(t.threshold * t.threshold <= 0x7fff_ffff_ffff_ffff) by (nonlinear_arith)
                requires
                    0 <= t.threshold <= 45_000_000,
            ;
        }
        if d < t.threshold * t.threshold {
            match best {
                None => {
                    best = Some(i);
                    best_dist = d;
                    best_depth = c.depth;
                },
                Some(_) => {
                    if d < best_dist || (d == best_dist && c.depth < best_depth) {
                        best = Some(i);
                        best_dist = d;
                        best_depth = c.depth;
                    }
                },
            }
        }
        i = i + 1;
    }
    best
}

/// Resolve the hover at `cursor`: among the candidates within the fixed
/// hover radius, pick the one nearest on screen, breaking ties by camera
/// depth and then by position in the list. Returns its index, or nothing
/// when no candidate is in radius.
pub fn resolve_hover(cursor: Point2, cands: &Vec<Candidate>) -> (r: Option<usize>)
    requires
        in_range(cursor),
        candidates_in_range(cands@),
    ensures
        r is None <==> forall|j: int| 0 <= j < cands@.len() ==> !hover_qualifies(cands@[j], cursor),
        r matches Some(i) ==> 0 <= i < cands@.len() && hover_qualifies(cands@[i as int], cursor)
            && forall|j: int|
            0 <= j < cands@.len() && #[trigger] hover_qualifies(cands@[j], cursor) ==> ranks_before(
                cands@,
                cursor,
                i as int,
                j,
            ),
{
    let mut best: Option<usize> = None;
    let mut best_dist: i64 = 0;
    let mut best_depth: i64 = 0;
    let mut i: usize = 0;
    while i < cands.len()
        invariant
            i <= cands.len(),
            in_range(cursor),
            candidates_in_range(cands@),
            best is None ==> forall|j: int| 0 <= j < i ==> !hover_qualifies(cands@[j], cursor),
            best matches Some(b) ==> 0 <= b < i,
            best matches Some(b) ==> hover_qualifies(cands@[b as int], cursor),
            best matches Some(b) ==> best_dist == dist_sq_spec(cands@[b as int].screen_pos, cursor),
            best matches Some(b) ==> best_depth == cands@[b as int].depth,
            best matches Some(b) ==> forall|j: int|
                0 <= j < i && #[trigger] hover_qualifies(cands@[j], cursor) ==> ranks_before(
                    cands@,
                    cursor,
                    b as int,
                    j,
                ),
        decreases cands.len() - i,
    {
        let c = cands[i];
        let d = dist_sq(c.screen_pos, cursor);
        if d < HOVER_RADIUS * HOVER_RADIUS {
            match best {
                None => {
                    best = Some(i);
                    best_dist = d;
                    best_depth = c.depth;
                },
                Some(_) => {
                    if d < best_dist || (d == best_dist && c.depth < best_depth) {
                        best = Some(i);
                        best_dist = d;
                        best_depth = c.depth;
                    }
                },
            }
        }
        i = i + 1;
    }
    best
}

/// Mark the winning entity, and only it, as hovered; every other entity is
/// unhovered this frame. Selection flags and kinds are untouched.
pub fn apply_hover_flags(selectables: &mut Vec<Selectable>, winner: Option<usize>)
    ensures
        final(selectables)@.len() == old(selectables)@.len(),
        forall|i: int|
            0 <= i < old(selectables)@.len() ==> #[trigger] final(selectables)@[i] == (Selectable {
                is_hovered: match winner {
                    Some(w) => w as int == i,
                    None => false,
                },
                ..old(selectables)@[i]
            }),
{
    let n = selectables.len();
    let mut out: Vec<Selectable> = Vec::new();
    let mut i: usize = 0;
    while i < n
        invariant
            n == old(selectables)@.len(),
            *selectables == *old(selectables),
            i <= n,
            out@.len() == i,
            forall|j: int|
                0 <= j < i ==> #[trigger] out@[j] == (Selectable {
                    is_hovered: match winner {
                        Some(w) => w as int == j,
                        None => false,
                    },
                    ..old(selectables)@[j]
                }),
        decreases n - i,
    {
        let c = selectables[i];
        let hovered = match winner {
            Some(w) => w == i,
            None => false,
        };
        out.push(
            Selectable {
                is_selected: c.is_selected,
                is_hovered: hovered,
                selectable_type: c.selectable_type,
            },
        );
        i = i + 1;
    }
    *selectables = out;
}

/// Mark the winning entity, and only it, as selected; every other entity is
/// deselected this frame. Hover flags and kinds are untouched.
pub fn apply_selection_flags(selectables: &mut Vec<Selectable>, winner: Option<usize>)
    ensures
        final(selectables)@.len() == old(selectables)@.len(),
        forall|i: int|
            0 <= i < old(selectables)@.len() ==> #[trigger] final(selectables)@[i] == (Selectable {
                is_selected: match winner {
                    Some(w) => w as int == i,
                    None => false,
                },
                ..old(selectables)@[i]
            }),
{
    let n = selectables.len();
    let mut out: Vec<Selectable> = Vec::new();
    let mut i: usize = 0;
    while i < n
        invariant
            n == old(selectables)@.len(),
            *selectables == *old(selectables),
            i <= n,
            out@.len() == i,
            forall|j: int|
                0 <= j < i ==> #[trigger] out@[j] == (Selectable {
                    is_selected: match winner {
                        Some(w) => w as int == j,
                        None => false,
                    },
                    ..old(selectables)@[j]
                }),
        decreases n - i,
    {
        let c = selectables[i];
        let selected = match winner {
            Some(w) => w == i,
            None => false,
        };
        out.push(
            Selectable {
                is_selected: selected,
                is_hovered: c.is_hovered,
                selectable_type: c.selectable_type,
            },
        );
        i = i + 1;
    }
    *selectables = out;
}

/// The ids of `items` whose world position lies in `rect`, in their given
/// order.
pub open spec fn ids_in_rect(rect: Rect, items: Seq<(u64, Point2)>) -> Seq<u64>
    decreases items.len(),
{
    if items.len() == 0 {
        Seq::empty()
    } else {
        let prefix = ids_in_rect(rect, items.drop_last());
        if rect_contains(rect, items.last().1) {
            prefix.push(items.last().0)
        } else {
            prefix
        }
    }
}

/// What the drag rectangle collects: exactly the ids listed with a position
/// inside the rectangle.
pub proof fn lemma_ids_in_rect_membership(rect: Rect, items: Seq<(u64, Point2)>)
    ensures
        forall|id: u64|
            #[trigger] ids_in_rect(rect, items).contains(id) <==> exists|j: int|
                0 <= j < items.len() && (#[trigger] items[j]).0 == id && rect_contains(
                    rect,
                    items[j].1,
                ),
    decreases items.len(),
{
    if items.len() > 0 {
        lemma_ids_in_rect_membership(rect, items.drop_last());
        let prefix = ids_in_rect(rect, items.drop_last());
        assert forall|id: u64| #[trigger] ids_in_rect(rect, items).contains(id) implies exists|
            j: int,
        |
            0 <= j < items.len() && (#[trigger] items[j]).0 == id && rect_contains(
                rect,
                items[j].1,
            ) by {
            if prefix.contains(id) {
                let j = choose|j: int|
                    0 <= j < items.drop_last().len() && (#[trigger] items.drop_last()[j]).0 == id
                        && rect_contains(rect, items.drop_last()[j].1);
                assert(items[j] == items.drop_last()[j]);
            } else {
                assert(items[items.len() - 1].0 == id);
            }
        }
        assert forall|id: u64|
            exists|j: int|
                0 <= j < items.len() && (#[trigger] items[j]).0 == id && rect_contains(
                    rect,
                    items[j].1,
                ) implies #[trigger] ids_in_rect(rect, items).contains(id) by {
            let j = choose|j: int|
                0 <= j < items.len() && (#[trigger] items[j]).0 == id && rect_contains(
                    rect,
                    items[j].1,
                );
            if j < items.len() - 1 {
                assert(items.drop_last()[j] == items[j]);
                assert(prefix.contains(id));
                if rect_contains(rect, items.last().1) {
                    let k = choose|k: int| 0 <= k < prefix.len() && prefix[k] == id;
                    assert(ids_in_rect(rect, items)[k] == id);
                }
            } else {
                let out = ids_in_rect(rect, items);
                assert(out[out.len() - 1] == id);
            }
        }
    }
}

/// Collect the ids of the entities whose world position lies inside the
/// drag rectangle, in their given order.
pub fn entities_in_rect(rect: Rect, items: &Vec<(u64, Point2)>) -> (r: Vec<u64>)
    ensures
        r@ == ids_in_rect(rect, items@),
{
    let mut out: Vec<u64> = Vec::new();
    let mut i: usize = 0;
    proof {
        assert(items@.take(0) =~= Seq::<(u64, Point2)>::empty());
    }
    while i < items.len()
        invariant
            i <= items.len(),
            out@ == ids_in_rect(rect, items@.take(i as int)),
        decreases items.len() - i,
    {
        proof {
            assert(items@.take(i as int + 1).drop_last() =~= items@.take(i as int));
            assert(items@.take(i as int + 1).last() == items@[i as int]);
        }
        let (id, pos) = items[i];
        if point_in_rect(rect, pos) {
            out.push(id);
        }
        i = i + 1;
    }
    proof {
        assert(items@.take(items@.len() as int) =~= items@);
    }
    out
}

} // verus!
