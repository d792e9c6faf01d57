//! Selection state: current single/multi selection, hover, drag rectangle,
//! pending context menu, and click bookkeeping for double-click detection.
//!
//! The multi-selection keeps insertion order and never holds an entity twice.
//! A plain click selects exactly the clicked entity; a shift-click toggles
//! its membership; a double-click (same entity, within half a time unit and
//! five pixels of the previous click) adds it without clearing the rest.

use vstd::prelude::*;

verus! {

use crate::geometry::Point2;
use crate::geometry::Rect;
use crate::geometry::dist_sq;
use crate::geometry::dist_sq_spec;
use crate::geometry::in_range;
use crate::geometry::point_in_rect;
use crate::geometry::rect_contains;
use crate::geometry::rect_from_corners;

/// Two clicks this close in time can pair into a double-click, in
/// thousandths of a time unit.
pub const DOUBLE_CLICK_TIME: i64 = 500;

/// Squared distance under which two clicks can pair into a double-click, in
/// squared thousandths of a pixel (five pixels).
pub const DOUBLE_CLICK_DIST_SQ: i64 = 25_000_000;

/// Squared distance under which a hover probe matches the position it was
/// requested for, in squared thousandths of a pixel (five pixels).
pub const HOVER_THRESHOLD_SQUARED: i64 = 25_000_000;

/// Largest click timestamp accepted, in thousandths of a time unit.
pub const TIME_LIMIT: i64 = 1_000_000_000_000;

/// Data shown by a context menu, tagged by the kind of entity it was opened
/// on.
#[derive(Clone, Copy, Debug, PartialEq, Eq, Structural)]
pub enum MenuPayload {
    /// A unit: its cell, health and attack damage.
    UnitInfo { q: i32, r: i32, health: i64, attack_damage: i64 },
    /// A tile: its cell.
    TileInfo { q: i32, r: i32 },
}

/// State of the context menu, opened by a secondary click on an entity.
#[derive(Clone, Copy, Debug, PartialEq, Eq, Structural)]
pub struct ContextMenuState {
    pub is_open: bool,
    /// Screen position the menu was opened at.
    pub position: Point2,
    /// The entity the menu was opened on.
    pub target_entity: Option<u64>,
    /// What the menu shows of that entity.
    pub payload: Option<MenuPayload>,
}

/// State of the detailed unit menu.
#[derive(Clone, Copy, Debug, PartialEq, Eq, Structural)]
pub struct DetailedMenuState {
    pub is_open: bool,
    pub unit_entity: Option<u64>,
    /// Screen position the menu was opened at.
    pub position: Point2,
}

/// A change of selection or hover, reported to the presentation layer.
#[derive(Clone, Copy, Debug, PartialEq, Eq, Structural)]
pub enum SelectionEvent {
    Selected(u64),
    Deselected(u64),
    HoverStart(u64),
    HoverEnd(u64),
}

/// The multi-selection left by removing `e` (order otherwise kept).
pub open spec fn removed(multi: Seq<u64>, e: u64) -> Seq<u64> {
    multi.filter(|x: u64| x != e)
}

/// The multi-selection after a click on `e`: a shift-click toggles `e`'s
/// membership; a double-click adds `e` if absent; a plain click selects
/// exactly `e`.
pub open spec fn multi_after_click(multi: Seq<u64>, double: bool, shift: bool, e: u64) -> Seq<
    u64,
> {
    if shift {
        if multi.contains(e) {
            removed(multi, e)
        } else {
            multi.push(e)
        }
    } else if double {
        if multi.contains(e) {
            multi
        } else {
            multi.push(e)
        }
    } else {
        seq![e]
    }
}

/// Selection state of one session; mutated each frame by the gesture and
/// resolution passes, read by the presentation layer.
#[derive(Debug)]
pub struct SelectionState {
    /// A drag rectangle is being spanned.
    pub is_dragging: bool,
    /// World position the drag started at.
    pub drag_start_world_pos: Point2,
    /// World position the drag currently extends to.
    pub drag_current_world_pos: Point2,
    /// Screen position the drag started at.
    pub drag_start_screen_pos: Point2,
    /// Primary selection.
    pub selected_entity: Option<u64>,
    /// Multi-selection, in insertion order, without duplicates.
    pub selected_entities: Vec<u64>,
    /// Entity currently under the pointer, if any.
    pub hovered_entity: Option<u64>,
    /// A hover probe is pending for `hover_check_pos`.
    pub hover_check_needed: bool,
    /// World position of the pending hover probe.
    pub hover_check_pos: Point2,
    /// Pending context-menu trigger: (world position, screen position).
    pub context_menu_trigger_pos: Option<(Point2, Point2)>,
    /// Time of the previous click, in thousandths of a time unit.
    pub last_click_time: i64,
    /// Screen position of the previous click.
    pub last_clicked_pos: Option<Point2>,
    /// Entity hit by the previous click.
    pub last_clicked_entity: Option<u64>,
}

impl SelectionState {
    /// All positions are in range, the click clock is in range, and the
    /// multi-selection holds no entity twice.
    pub open spec fn wf(self) -> bool {
        &&& in_range(self.drag_start_world_pos)
        &&& in_range(self.drag_current_world_pos)
        &&& in_range(self.drag_start_screen_pos)
        &&& in_range(self.hover_check_pos)
        &&& 0 <= self.last_click_time <= TIME_LIMIT
        &&& (self.last_clicked_pos is Some ==> in_range(self.last_clicked_pos->0))
        &&& self.selected_entities@.no_duplicates()
    }

    /// The click at `time`/`pos` on `e` pairs with the previous click into a
    /// double-click.
    pub open spec fn is_double_click(self, time: i64, pos: Point2, e: u64) -> bool {
        match (self.last_clicked_pos, self.last_clicked_entity) {
            (Some(last_pos), Some(last_entity)) => {
                &&& time - self.last_click_time < DOUBLE_CLICK_TIME
                &&& dist_sq_spec(pos, last_pos) < DOUBLE_CLICK_DIST_SQ
                &&& last_entity == e
            },
            _ => false,
        }
    }

    /// The rectangle currently spanned by the drag, with corners in either
    /// order; a zero rectangle when no drag is active.
    pub open spec fn selection_rect(self) -> Rect {
        if self.is_dragging {
            let a = self.drag_start_world_pos;
            let b = self.drag_current_world_pos;
            Rect {
                min: Point2 {
                    x: if a.x <= b.x { a.x } else { b.x },
                    y: if a.y <= b.y { a.y } else { b.y },
                },
                max: Point2 {
                    x: if a.x <= b.x { b.x } else { a.x },
                    y: if a.y <= b.y { b.y } else { a.y },
                },
            }
        } else {
            Rect { min: Point2 { x: 0, y: 0 }, max: Point2 { x: 0, y: 0 } }
        }
    }

    /// A fresh state: nothing selected, hovered, dragging or pending.
    pub fn new() -> (s: SelectionState)
        ensures
            !s.is_dragging,
            s.drag_start_world_pos == (Point2 { x: 0, y: 0 }),
            s.drag_current_world_pos == (Point2 { x: 0, y: 0 }),
            s.drag_start_screen_pos == (Point2 { x: 0, y: 0 }),
            s.selected_entity is None,
            s.selected_entities@ == Seq::<u64>::empty(),
            s.hovered_entity is None,
            !s.hover_check_needed,
            s.hover_check_pos == (Point2 { x: 0, y: 0 }),
            s.context_menu_trigger_pos is None,
            s.last_click_time == 0,
            s.last_clicked_pos is None,
            s.last_clicked_entity is None,
            s.wf(),
    {
        SelectionState {
            is_dragging: false,
            drag_start_world_pos: Point2 { x: 0, y: 0 },
            drag_current_world_pos: Point2 { x: 0, y: 0 },
            drag_start_screen_pos: Point2 { x: 0, y: 0 },
            selected_entity: None,
            selected_entities: Vec::new(),
            hovered_entity: None,
            hover_check_needed: false,
            hover_check_pos: Point2 { x: 0, y: 0 },
            context_menu_trigger_pos: None,
            last_click_time: 0,
            last_clicked_pos: None,
            last_clicked_entity: None,
        }
    }

    /// Begin spanning a drag rectangle from `screen_pos`; clears the hover.
    pub fn start_drag(&mut self, screen_pos: Point2)
        requires
            old(self).wf(),
            in_range(screen_pos),
        ensures
            *final(self) == (SelectionState {
                is_dragging: true,
                drag_start_screen_pos: screen_pos,
                drag_start_world_pos: Point2 { x: 0, y: 0 },
                hovered_entity: None,
                hover_check_needed: false,
                ..*old(self)
            }),
            final(self).wf(),
    {
        self.is_dragging = true;
        self.drag_start_screen_pos = screen_pos;
        self.drag_start_world_pos = Point2 { x: 0, y: 0 };
        self.clear_hover();
    }

    /// Extend the active drag to `world_pos` (the pointer position projected
    /// into the world by the caller); does nothing when no drag is active.
    pub fn update_drag(&mut self, world_pos: Point2)
        requires
            old(self).wf(),
            in_range(world_pos),
        ensures
            *final(self) == if old(self).is_dragging {
                SelectionState { drag_current_world_pos: world_pos, ..*old(self) }
            } else {
                *old(self)
            },
            final(self).wf(),
    {
        if self.is_dragging {
            self.drag_current_world_pos = world_pos;
        }
    }

    /// End the drag and request one hover probe for the next frame.
    pub fn end_drag(&mut self)
        requires
            old(self).wf(),
        ensures
            *final(self) == (SelectionState {
                is_dragging: false,
                hover_check_needed: true,
                ..*old(self)
            }),
            final(self).wf(),
    {
        self.is_dragging = false;
        self.hover_check_needed = true;
    }

    /// Whether a drag is active or a hover probe is pending.
    pub fn is_active(&self) -> (r: bool)
        ensures
            r == (self.is_dragging || self.hover_check_needed),
    {
        self.is_dragging || self.hover_check_needed
    }

    /// The rectangle currently spanned by the drag; a zero rectangle when no
    /// drag is active.
    pub fn get_selection_rect(&self) -> (rect: Rect)
        ensures
            rect == self.selection_rect(),
    {
        if self.is_dragging {
            rect_from_corners(self.drag_start_world_pos, self.drag_current_world_pos)
        } else {
            Rect { min: Point2 { x: 0, y: 0 }, max: Point2 { x: 0, y: 0 } }
        }
    }

    /// Whether an entity at world position `pos` should read as hovered:
    /// inside the drag rectangle while dragging, else close to the pending
    /// hover probe position.
    pub fn should_hover(&self, pos: Point2) -> (r: bool)
        requires
            self.wf(),
            in_range(pos),
        ensures
            r == if self.is_dragging {
                rect_contains(self.selection_rect(), pos)
            } else {
                dist_sq_spec(pos, self.hover_check_pos) < HOVER_THRESHOLD_SQUARED
            },
    {
        if self.is_dragging {
            let rect = self.get_selection_rect();
            point_in_rect(rect, pos)
        } else {
            dist_sq(pos, self.hover_check_pos) < HOVER_THRESHOLD_SQUARED
        }
    }

    /// Clear the hover and any pending hover probe.
    pub fn clear_hover(&mut self)
        requires
            old(self).wf(),
        ensures
            *final(self) == (SelectionState {
                hovered_entity: None,
                hover_check_needed: false,
                ..*old(self)
            }),
            final(self).wf(),
    {
        self.hovered_entity = None;
        self.hover_check_needed = false;
    }

    /// Request a context menu at the given world and screen positions.
    pub fn trigger_context_menu(&mut self, world_pos: Point2, screen_pos: Point2)
        requires
            old(self).wf(),
        ensures
            *final(self) == (SelectionState {
                context_menu_trigger_pos: Some((world_pos, screen_pos)),
                ..*old(self)
            }),
            final(self).wf(),
    {
        self.context_menu_trigger_pos = Some((world_pos, screen_pos));
    }

    /// Make `entity` the primary selection.
    pub fn select_entity(&mut self, entity: u64)
        requires
            old(self).wf(),
        ensures
            *final(self) == (SelectionState { selected_entity: Some(entity), ..*old(self) }),
            final(self).wf(),
    {
        self.selected_entity = Some(entity);
    }

    /// Clear the primary selection.
    pub fn deselect(&mut self)
        requires
            old(self).wf(),
        ensures
            *final(self) == (SelectionState { selected_entity: None, ..*old(self) }),
            final(self).wf(),
    {
        self.selected_entity = None;
    }

    /// Set or clear the hovered entity; clearing re-arms the hover probe.
    pub fn set_hover(&mut self, entity: Option<u64>)
        requires
            old(self).wf(),
        ensures
            *final(self) == (SelectionState {
                hovered_entity: entity,
                hover_check_needed: entity is None,
                ..*old(self)
            }),
            final(self).wf(),
    {
        let needed = entity.is_none();
        self.hovered_entity = entity;
        self.hover_check_needed = needed;
    }

    /// Whether this click pairs with the previous one into a double-click.
    fn check_double_click(&self, current_time: i64, current_pos: Point2, entity: u64) -> (r:
        bool)
        requires
            self.wf(),
            in_range(current_pos),
            0 <= current_time <= TIME_LIMIT,
        ensures
            r == self.is_double_click(current_time, current_pos, entity),
    {
        match (self.last_clicked_pos, self.last_clicked_entity) {
            (Some(last_pos), Some(last_entity)) => {
                let time_diff = current_time - self.last_click_time;
                let d = dist_sq(current_pos, last_pos);
                time_diff < DOUBLE_CLICK_TIME && d < DOUBLE_CLICK_DIST_SQ && last_entity == entity
            },
            _ => false,
        }
    }

    /// Apply a click on `entity` at `time`/`pos`: the multi-selection changes
    /// as `multi_after_click` says, the clicked entity becomes primary, and
    /// the click is recorded for double-click pairing.
    pub fn handle_selection(&mut self, entity: u64, shift_held: bool, time: i64, pos: Point2)
        requires
            old(self).wf(),
            in_range(pos),
            0 <= time <= TIME_LIMIT,
        ensures
            *final(self) == (SelectionState {
                selected_entity: Some(entity),
                selected_entities: final(self).selected_entities,
                last_click_time: time,
                last_clicked_pos: Some(pos),
                last_clicked_entity: Some(entity),
                ..*old(self)
            }),
            final(self).selected_entities@ == multi_after_click(
                old(self).selected_entities@,
                old(self).is_double_click(time, pos, entity),
                shift_held,
                entity,
            ),
            final(self).wf(),
    {
        let is_double = self.check_double_click(time, pos, entity);

        if shift_held {
            if contains_entity(&self.selected_entities, entity) {
                let remaining = remove_entity(&self.selected_entities, entity);
                proof {
                    lemma_removed_props(self.selected_entities@, entity);
                }
                self.selected_entities = remaining;
            } else {
                proof {
                    lemma_push_no_dup(self.selected_entities@, entity);
                }
                self.selected_entities.push(entity);
            }
            self.selected_entity = Some(entity);
        } else if is_double {
            self.selected_entity = Some(entity);
            if !contains_entity(&self.selected_entities, entity) {
                proof {
                    lemma_push_no_dup(self.selected_entities@, entity);
                }
                self.selected_entities.push(entity);
            }
        } else {
            self.selected_entities = Vec::new();
            self.selected_entity = Some(entity);
            self.selected_entities.push(entity);
            proof {
                assert(self.selected_entities@ =~= seq![entity]);
            }
        }

        self.last_click_time = time;
        self.last_clicked_pos = Some(pos);
        self.last_clicked_entity = Some(entity);
    }

    /// Apply the outcome of a click resolution: a hit selects as
    /// `handle_selection` does; a click on empty space clears the whole
    /// selection.
    pub fn handle_click_result(
        &mut self,
        hit: Option<u64>,
        shift_held: bool,
        time: i64,
        pos: Point2,
    )
        requires
            old(self).wf(),
            in_range(pos),
            0 <= time <= TIME_LIMIT,
        ensures
            hit is Some ==> *final(self) == (SelectionState {
                selected_entity: Some(hit->0),
                selected_entities: final(self).selected_entities,
                last_click_time: time,
                last_clicked_pos: Some(pos),
                last_clicked_entity: Some(hit->0),
                ..*old(self)
            }),
            hit is Some ==> final(self).selected_entities@ == multi_after_click(
                old(self).selected_entities@,
                old(self).is_double_click(time, pos, hit->0),
                shift_held,
                hit->0,
            ),
            hit is None ==> *final(self) == (SelectionState {
                selected_entity: None,
                selected_entities: final(self).selected_entities,
                ..*old(self)
            }),
            hit is None ==> final(self).selected_entities@ == Seq::<u64>::empty(),
            final(self).wf(),
    {
        match hit {
            Some(entity) => self.handle_selection(entity, shift_held, time, pos),
            None => self.clear_selection(),
        }
    }

    /// Add every entity of `ids` that is not yet selected to the
    /// multi-selection, in order; used for drag-rectangle selection.
    pub fn apply_drag_selection(&mut self, ids: &Vec<u64>)
        requires
            old(self).wf(),
        ensures
            final(self).selected_entities@ == extend_unique(
                old(self).selected_entities@,
                ids@,
            ),
            *final(self) == (SelectionState {
                selected_entities: final(self).selected_entities,
                ..*old(self)
            }),
            final(self).wf(),
    {
        let ghost orig = self.selected_entities@;
        let ghost all = ids@;
        proof {
            assert(all.skip(0) =~= all);
        }
        let mut i: usize = 0;
        while i < ids.len()
            invariant
                i <= ids.len(),
                all == ids@,
                self.selected_entities@.no_duplicates(),
                extend_unique(self.selected_entities@, all.skip(i as int)) == extend_unique(
                    orig,
                    all,
                ),
                *self == (SelectionState {
                    selected_entities: self.selected_entities,
                    ..*old(self)
                }),
            decreases ids.len() - i,
        {
            let ghost before = self.selected_entities@;
            let e = ids[i];
            if !contains_entity(&self.selected_entities, e) {
                proof {
                    lemma_push_no_dup(self.selected_entities@, e);
                }
                self.selected_entities.push(e);
            }
            proof {
                assert(all.skip(i as int).drop_first() =~= all.skip(i as int + 1));
                assert(extend_unique(before, all.skip(i as int)) == extend_unique(
                    self.selected_entities@,
                    all.skip(i as int + 1),
                ));
            }
            i = i + 1;
        }
        proof {
            assert(all.skip(ids@.len() as int) =~= Seq::<u64>::empty());
        }
    }

    /// Clear both the primary and the multi-selection.
    pub fn clear_selection(&mut self)
        requires
            old(self).wf(),
        ensures
            *final(self) == (SelectionState {
                selected_entity: None,
                selected_entities: final(self).selected_entities,
                ..*old(self)
            }),
            final(self).selected_entities@ == Seq::<u64>::empty(),
            final(self).wf(),
    {
        self.selected_entity = None;
        self.selected_entities = Vec::new();
        proof {
            assert(self.selected_entities@ =~= Seq::<u64>::empty());
        }
    }

    /// Whether `entity` is selected, as part of the multi-selection or as
    /// the primary selection.
    pub fn is_selected(&self, entity: u64) -> (r: bool)
        ensures
            r == (self.selected_entities@.contains(entity) || self.selected_entity == Some(
                entity,
            )),
    {
        contains_entity(&self.selected_entities, entity) || match self.selected_entity {
            Some(e) => e == entity,
            None => false,
        }
    }

    /// Number of entities in the multi-selection.
    pub fn get_selected_count(&self) -> (n: usize)
        ensures
            n == self.selected_entities@.len(),
    {
        self.selected_entities.len()
    }

    /// The primary selection, if any.
    pub fn get_primary_selection(&self) -> (r: Option<u64>)
        ensures
            r == self.selected_entity,
    {
        self.selected_entity
    }

    /// The multi-selection, in insertion order.
    pub fn get_all_selections(&self) -> (r: &Vec<u64>)
        ensures
            r@ == self.selected_entities@,
    {
        &self.selected_entities
    }
}

impl Default for SelectionState {
    /// A fresh state, as `new` returns.
    fn default() -> (s: SelectionState)
        ensures
            s.wf(),
            !s.is_dragging,
            s.selected_entity is None,
            s.selected_entities@ == Seq::<u64>::empty(),
            s.hovered_entity is None,
    {
        SelectionState::new()
    }
}

/// `multi` extended, in order, by every entity of `ids` not already present.
pub open spec fn extend_unique(multi: Seq<u64>, ids: Seq<u64>) -> Seq<u64>
    decreases ids.len(),
{
    if ids.len() == 0 {
        multi
    } else {
        let next = if multi.contains(ids[0]) {
            multi
        } else {
            multi.push(ids[0])
        };
        extend_unique(next, ids.drop_first())
    }
}

/// What a drag selection selects: exactly what was selected before or
/// listed by the drag, still without duplicates.
pub proof fn lemma_drag_selection_membership(multi: Seq<u64>, ids: Seq<u64>)
    ensures
        forall|x: u64|
            #[trigger] extend_unique(multi, ids).contains(x) <==> multi.contains(x)
                || ids.contains(x),
        multi.no_duplicates() ==> extend_unique(multi, ids).no_duplicates(),
    decreases ids.len(),
{
    if ids.len() == 0 {
        assert(forall|x: u64| !ids.contains(x));
    } else {
        let next = if multi.contains(ids[0]) {
            multi
        } else {
            multi.push(ids[0])
        };
        lemma_drag_selection_membership(next, ids.drop_first());
        assert forall|x: u64| next.contains(x) <==> multi.contains(x) || x == ids[0] by {
            if !multi.contains(ids[0]) {
                assert(next[next.len() - 1] == ids[0]);
                if next.contains(x) {
                    let i = choose|i: int| 0 <= i < next.len() && next[i] == x;
                    if i < next.len() - 1 {
                        assert(multi[i] == x);
                    }
                }
                if multi.contains(x) {
                    let i = choose|i: int| 0 <= i < multi.len() && multi[i] == x;
                    assert(next[i] == x);
                }
            }
        }
        assert forall|x: u64| ids.contains(x) <==> x == ids[0] || ids.drop_first().contains(
            x,
        ) by {
            if ids.contains(x) {
                let i = choose|i: int| 0 <= i < ids.len() && ids[i] == x;
                if i > 0 {
                    assert(ids.drop_first()[i - 1] == x);
                }
            }
            if ids.drop_first().contains(x) {
                let i = choose|i: int|
                    0 <= i < ids.drop_first().len() && ids.drop_first()[i] == x;
                assert(ids[i + 1] == x);
            }
        }
        if multi.no_duplicates() && !multi.contains(ids[0]) {
            lemma_push_no_dup(multi, ids[0]);
        }
        assert forall|x: u64| #[trigger] extend_unique(multi, ids).contains(x) <==> multi.contains(
            x,
        ) || ids.contains(x) by {
            assert(extend_unique(multi, ids) == extend_unique(next, ids.drop_first()));
            assert(extend_unique(next, ids.drop_first()).contains(x) <==> next.contains(x)
                || ids.drop_first().contains(x));
            assert(next.contains(x) <==> multi.contains(x) || x == ids[0]);
            assert(ids.contains(x) <==> x == ids[0] || ids.drop_first().contains(x));
        }
    }
}

/// Whether `v` holds `e`.
pub fn contains_entity(v: &Vec<u64>, e: u64) -> (r: bool)
    ensures
        r == v@.contains(e),
{
    let mut i: usize = 0;
    while i < v.len()
        invariant
            i <= v.len(),
            forall|j: int| 0 <= j < i ==> v@[j] != e,
        decreases v.len() - i,
    {
        if v[i] == e {
            return true;
        }
        i = i + 1;
    }
    false
}

/// A copy of `v` with every occurrence of `e` removed, order kept.
fn remove_entity(v: &Vec<u64>, e: u64) -> (r: Vec<u64>)
    ensures
        r@ == removed(v@, e),
{
    let mut out: Vec<u64> = Vec::new();
    let mut i: usize = 0;
    proof {
        assert(v@.take(0) =~= Seq::<u64>::empty());
        reveal(Seq::filter);
    }
    while i < v.len()
        invariant
            i <= v.len(),
            out@ == removed(v@.take(i as int), e),
        decreases v.len() - i,
    {
        proof {
            reveal(Seq::filter);
            assert(v@.take(i as int + 1).drop_last() =~= v@.take(i as int));
            assert(v@.take(i as int + 1).last() == v@[i as int]);
        }
        if v[i] != e {
            out.push(v[i]);
        }
        i = i + 1;
    }
    proof {
        assert(v@.take(v@.len() as int) =~= v@);
    }
    out
}

/// Removing an entity removes only it: what remains comes from the given
/// sequence, differs from the removed entity, and stays duplicate-free when
/// the given sequence was.
proof fn lemma_removed_props(s: Seq<u64>, e: u64)
    ensures
        forall|x: u64| #[trigger] removed(s, e).contains(x) ==> s.contains(x) && x != e,
        s.no_duplicates() ==> removed(s, e).no_duplicates(),
    decreases s.len(),
{
    reveal(Seq::filter);
    if s.len() == 0 {
    } else {
        lemma_removed_props(s.drop_last(), e);
        assert forall|x: u64| #[trigger] removed(s, e).contains(x) implies s.contains(x) && x
            != e by {
            if removed(s.drop_last(), e).contains(x) {
                assert(s.drop_last().contains(x));
                let i = choose|i: int| 0 <= i < s.drop_last().len() && s.drop_last()[i] == x;
                assert(s[i] == x);
            } else {
                assert(x == s.last());
                assert(s[s.len() - 1] == x);
            }
        }
        if s.no_duplicates() {
            assert(s.drop_last().no_duplicates());
            if s.last() != e {
                assert(!s.drop_last().contains(s.last())) by {
                    if s.drop_last().contains(s.last()) {
                        let i = choose|i: int|
                            0 <= i < s.drop_last().len() && s.drop_last()[i] == s.last();
                        assert(s[i] == s[s.len() - 1]);
                    }
                }
                assert(!removed(s.drop_last(), e).contains(s.last()));
                lemma_push_no_dup(removed(s.drop_last(), e), s.last());
            }
        }
    }
}

/// Appending an element that is not present keeps a sequence duplicate-free.
proof fn lemma_push_no_dup(s: Seq<u64>, e: u64)
    requires
        s.no_duplicates(),
        !s.contains(e),
    ensures
        s.push(e).no_duplicates(),
{
    let t = s.push(e);
    assert forall|i: int, j: int| 0 <= i < j < t.len() implies t[i] != t[j] by {
        if j == t.len() - 1 {
            assert(t[i] == s[i]);
            if s[i] == e {
                assert(s.contains(s[i]));
            }
        }
    }
}

/// A shift-click on a selected entity removes exactly it from the
/// multi-selection; a further shift-click on the same entity adds it back at
/// the end. (The clicked entity is the primary selection after each click:
/// see `handle_selection`.)
pub proof fn lemma_shift_click_toggles(a: u64, b: u64, d1: bool, d2: bool)
    requires
        a != b,
    ensures
        multi_after_click(seq![a, b], d1, true, a) =~= seq![b],
        multi_after_click(multi_after_click(seq![a, b], d1, true, a), d2, true, a) =~= seq![b, a],
{
    let s = seq![a, b];
    assert(s.contains(a)) by {
        assert(s[0] == a);
    }
    assert(removed(s, a) =~= seq![b]) by {
        reveal_with_fuel(Seq::filter, 4);
        assert(s.drop_last() =~= seq![a]);
        assert(seq![a].drop_last() =~= Seq::<u64>::empty());
        assert(s.last() == b && seq![a].last() == a);
    }
    assert(!seq![b].contains(a)) by {
        assert(forall|i: int| 0 <= i < seq![b].len() ==> seq![b][i] == b);
    }
}

/// Any plain or double click leaves the clicked entity in the
/// multi-selection exactly once: present, with no duplicate entries. Two
/// clicks in quick succession on the same entity therefore both end with it
/// selected once.
pub proof fn lemma_click_selects_once(multi: Seq<u64>, double: bool, e: u64)
    requires
        multi.no_duplicates(),
    ensures
        multi_after_click(multi, double, false, e).contains(e),
        multi_after_click(multi, double, false, e).no_duplicates(),
{
    let m = multi_after_click(multi, double, false, e);
    if double {
        if multi.contains(e) {
        } else {
            lemma_push_no_dup(multi, e);
            assert(m[m.len() - 1] == e);
        }
    } else {
        assert(m =~= seq![e]);
        assert(m[0] == e);
        assert(forall|i: int, j: int| 0 <= i < j < m.len() ==> m[i] != m[j]);
    }
}

} // verus!
