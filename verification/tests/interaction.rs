use hexcore::geometry::{Point2, Rect};
use hexcore::gesture::{MouseButton, MouseState, DEFAULT_DRAG_THRESHOLD};
use hexcore::resolver::{
    apply_hover_flags, apply_selection_flags, entities_in_rect, get_threshold, resolve_click,
    resolve_hover, Candidate, Selectable, SelectableType,
};
use hexcore::selection::SelectionState;

fn pt(x: i64, y: i64) -> Point2 {
    Point2 { x, y }
}

#[test]
fn press_then_release_without_motion_is_a_click() {
    let mut m = MouseState::new();
    assert_eq!(m.drag_threshold, DEFAULT_DRAG_THRESHOLD);
    m.start_press(pt(0, 0), MouseButton::Left);
    assert!(!m.check_drag(pt(1000, 0)));
    m.end_press();
    assert!(!m.was_drag);
}

#[test]
fn drag_stays_set_after_returning_under_threshold() {
    let mut m = MouseState::new();
    m.start_press(pt(0, 0), MouseButton::Left);
    // 10 pixels from the press start: past the 5-pixel threshold.
    assert!(m.check_drag(pt(10000, 0)));
    // Back to 1 pixel away: the drag flag must not un-set itself.
    m.check_drag(pt(1000, 0));
    m.end_press();
    assert!(m.was_drag);
    m.reset_drag_state();
    assert!(!m.was_drag);
}

#[test]
fn motion_exactly_at_threshold_is_not_a_drag() {
    let mut m = MouseState::new();
    m.start_press(pt(0, 0), MouseButton::Right);
    assert!(!m.check_drag(pt(5000, 0)));
    assert!(m.check_drag(pt(5001, 0)));
}

#[test]
fn motion_without_press_is_not_a_drag() {
    let mut m = MouseState::new();
    assert!(!m.check_drag(pt(500_000, 500_000)));
    assert!(!m.is_dragging);
    assert!(!m.was_drag);
}

#[test]
fn shift_click_toggles_membership_and_keeps_primary() {
    let (a, b) = (1u64, 2u64);
    let mut s = SelectionState::new();
    s.handle_selection(a, false, 0, pt(0, 0));
    s.handle_selection(b, true, 10_000, pt(100_000, 0));
    assert_eq!(s.get_all_selections(), &vec![a, b]);
    // Shift-click on a selected entity removes it; primary follows the click.
    s.handle_selection(a, true, 20_000, pt(0, 0));
    assert_eq!(s.get_all_selections(), &vec![b]);
    assert_eq!(s.get_primary_selection(), Some(a));
    // A further shift-click adds it back.
    s.handle_selection(a, true, 30_000, pt(0, 0));
    assert_eq!(s.get_all_selections(), &vec![b, a]);
    assert_eq!(s.get_primary_selection(), Some(a));
}

#[test]
fn double_click_keeps_entity_selected_once() {
    let e = 7u64;
    let mut s = SelectionState::new();
    s.handle_selection(e, false, 1000, pt(0, 0));
    // 0.4 time units later, one pixel away: a double-click.
    s.handle_selection(e, false, 1400, pt(1000, 0));
    assert!(s.is_selected(e));
    assert_eq!(s.get_selected_count(), 1);
    assert_eq!(s.get_all_selections(), &vec![e]);
}

#[test]
fn double_click_does_not_clear_multi_selection() {
    let (a, b) = (1u64, 2u64);
    let mut s = SelectionState::new();
    s.handle_selection(a, false, 0, pt(0, 0));
    s.handle_selection(b, true, 10_000, pt(2000, 0));
    // Quick second click on b: recognized as a double-click, so the
    // multi-selection is kept instead of collapsing to {b}.
    s.handle_selection(b, false, 10_400, pt(2000, 0));
    assert!(s.is_selected(a));
    assert!(s.is_selected(b));
    assert_eq!(s.get_selected_count(), 2);
}

#[test]
fn slow_or_distant_second_click_is_plain() {
    let e = 7u64;
    // Too slow: exactly the window apart is not a double-click.
    let mut s = SelectionState::new();
    s.handle_selection(e, false, 1000, pt(0, 0));
    s.handle_selection(e, false, 1500, pt(0, 0));
    assert_eq!(s.get_all_selections(), &vec![e]);
    // Too far: five pixels away is not a double-click.
    let mut s = SelectionState::new();
    s.handle_selection(e, false, 1000, pt(0, 0));
    s.handle_selection(e, false, 1100, pt(5000, 0));
    assert_eq!(s.get_all_selections(), &vec![e]);
}

#[test]
fn click_on_empty_space_clears_selection() {
    let mut s = SelectionState::new();
    s.handle_selection(4, false, 0, pt(0, 0));
    s.handle_selection(5, true, 1000, pt(0, 0));
    s.handle_click_result(None, false, 2000, pt(0, 0));
    assert_eq!(s.get_primary_selection(), None);
    assert_eq!(s.get_selected_count(), 0);
}

#[test]
fn drag_rectangle_is_corner_order_independent() {
    let mut s = SelectionState::new();
    s.start_drag(pt(0, 0));
    s.update_drag(pt(10_000, -20_000));
    let rect = s.get_selection_rect();
    assert_eq!(rect.min, pt(0, -20_000));
    assert_eq!(rect.max, pt(10_000, 0));
    assert!(s.should_hover(pt(5000, -5000)));
    assert!(!s.should_hover(pt(11_000, -5000)));
    s.end_drag();
    assert!(!s.is_dragging);
    assert!(s.is_active());
}

#[test]
fn drag_selection_adds_entities_without_duplicates() {
    let mut s = SelectionState::new();
    s.handle_selection(1, false, 0, pt(0, 0));
    let rect = Rect { min: pt(0, 0), max: pt(10_000, 10_000) };
    let items = vec![
        (2u64, pt(5000, 5000)),
        (1u64, pt(0, 0)),          // already selected
        (3u64, pt(10_000, 10_000)), // boundary counts as inside
        (4u64, pt(10_001, 0)),     // outside
        (2u64, pt(1, 1)),          // duplicate candidate
    ];
    let ids = entities_in_rect(rect, &items);
    assert_eq!(ids, vec![2, 1, 3, 2]);
    s.apply_drag_selection(&ids);
    assert_eq!(s.get_all_selections(), &vec![1, 2, 3]);
}

#[test]
fn closer_candidate_wins_click_resolution() {
    // Two tiles within their 45-pixel hit radius, 10 and 20 pixels from the
    // cursor: the 10-pixel one wins.
    let cursor = pt(0, 0);
    let cands = vec![
        Candidate { id: 10, screen_pos: pt(20_000, 0), depth: 0, kind: SelectableType::Tile },
        Candidate { id: 11, screen_pos: pt(10_000, 0), depth: 5, kind: SelectableType::Tile },
    ];
    assert_eq!(resolve_click(cursor, &cands, 1000), Some(1));
}

#[test]
fn depth_breaks_distance_ties() {
    let cursor = pt(0, 0);
    let cands = vec![
        Candidate { id: 10, screen_pos: pt(10_000, 0), depth: 3, kind: SelectableType::Tile },
        Candidate { id: 11, screen_pos: pt(0, 10_000), depth: 1, kind: SelectableType::Tile },
        Candidate { id: 12, screen_pos: pt(-10_000, 0), depth: 1, kind: SelectableType::Tile },
    ];
    // Same distance: smaller depth wins; equal depth: the earlier entry.
    assert_eq!(resolve_click(cursor, &cands, 1000), Some(1));
}

#[test]
fn candidates_out_of_radius_resolve_to_nothing() {
    let cursor = pt(0, 0);
    let cands = vec![
        Candidate { id: 1, screen_pos: pt(50_000, 0), depth: 0, kind: SelectableType::Tile },
        Candidate { id: 2, screen_pos: pt(10_000, 0), depth: 0, kind: SelectableType::UI },
    ];
    // 50 pixels is outside the tile radius; 10 pixels is outside the
    // 6-pixel UI radius.
    assert_eq!(resolve_click(cursor, &cands, 1000), None);
}

#[test]
fn zoom_scale_widens_hit_radius() {
    let cursor = pt(0, 0);
    let cands = vec![Candidate {
        id: 1,
        screen_pos: pt(50_000, 0),
        depth: 0,
        kind: SelectableType::Tile,
    }];
    assert_eq!(resolve_click(cursor, &cands, 1000), None);
    // At double scale the tile radius is 90 pixels, so 50 pixels hits.
    assert_eq!(resolve_click(cursor, &cands, 2000), Some(0));
}

#[test]
fn hover_uses_its_own_radius() {
    let cursor = pt(0, 0);
    let cands = vec![
        Candidate { id: 1, screen_pos: pt(49_000, 0), depth: 0, kind: SelectableType::UI },
        Candidate { id: 2, screen_pos: pt(51_000, 0), depth: 0, kind: SelectableType::Tile },
    ];
    // Hover ignores kinds: a flat 50-pixel radius.
    assert_eq!(resolve_hover(cursor, &cands), Some(0));
}

#[test]
fn thresholds_scale_with_camera() {
    let t = get_threshold(SelectableType::Tile, 1000);
    assert_eq!((t.threshold, t.priority), (45_000, 0));
    let t = get_threshold(SelectableType::Unit, 2000);
    assert_eq!((t.threshold, t.priority), (24_000, 2));
    let t = get_threshold(SelectableType::Building, 1000);
    assert_eq!((t.threshold, t.priority), (12_000, 2));
    let t = get_threshold(SelectableType::UI, 500);
    assert_eq!((t.threshold, t.priority), (3_000, 1));
}

#[test]
fn resolution_winner_is_the_sole_marked_entity() {
    let mut selectables = vec![
        Selectable { is_selected: true, is_hovered: false, selectable_type: SelectableType::Unit },
        Selectable { is_selected: false, is_hovered: true, selectable_type: SelectableType::Tile },
        Selectable { is_selected: true, is_hovered: true, selectable_type: SelectableType::UI },
    ];
    apply_hover_flags(&mut selectables, Some(1));
    assert!(!selectables[0].is_hovered && selectables[1].is_hovered && !selectables[2].is_hovered);
    // Selection flags survived the hover pass.
    assert!(selectables[0].is_selected && !selectables[1].is_selected && selectables[2].is_selected);
    apply_selection_flags(&mut selectables, Some(1));
    assert!(!selectables[0].is_selected && selectables[1].is_selected && !selectables[2].is_selected);
    apply_selection_flags(&mut selectables, None);
    assert!(selectables.iter().all(|s| !s.is_selected));
    assert_eq!(selectables[2].selectable_type, SelectableType::UI);
}

#[test]
fn selectable_defaults_to_deselected_unit() {
    let s = Selectable::default();
    assert!(!s.is_selected);
    assert!(!s.is_hovered);
    assert_eq!(s.selectable_type, SelectableType::Unit);
    let s = Selectable::new(SelectableType::Building);
    assert_eq!(s.selectable_type, SelectableType::Building);
}
