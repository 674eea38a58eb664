use life_viewport::engine::{LifeEngine, SimpleEngine};
use life_viewport::gui::{Key, MouseButton, GUI};

fn sorted(mut v: Vec<(i64, i64)>) -> Vec<(i64, i64)> {
    v.sort();
    v
}

#[test]
fn pause_toggles_on_space_only() {
    let mut g = GUI::new();
    assert!(!g.is_paused());
    g.key_press(Key::Other);
    assert!(!g.is_paused());
    g.key_press(Key::Space);
    assert!(g.is_paused());
    g.key_press(Key::Space);
    assert!(!g.is_paused());
    g.key_press(Key::Space);
    assert!(g.is_paused());
}

#[test]
fn zoom_steps_by_tenths() {
    let mut g = GUI::new();
    assert_eq!(g.zoom_tenths(), 10);
    g.mouse_scroll((0, 1));
    g.mouse_scroll((0, 1));
    g.mouse_scroll((0, 1));
    assert_eq!(g.zoom_tenths(), 13);
    g.mouse_scroll((0, -1));
    assert_eq!(g.zoom_tenths(), 12);
}

#[test]
fn zoom_ignores_non_sentinel_deltas() {
    let mut g = GUI::new();
    g.mouse_scroll((0, 5));
    g.mouse_scroll((0, -3));
    g.mouse_scroll((0, 0));
    g.mouse_scroll((1, 0));
    assert_eq!(g.zoom_tenths(), 10);
}

#[test]
fn zoom_can_reach_zero_and_below() {
    let mut g = GUI::new();
    for _ in 0..10 {
        g.mouse_scroll((0, -1));
    }
    assert_eq!(g.zoom_tenths(), 0);
    g.mouse_scroll((0, -1));
    assert_eq!(g.zoom_tenths(), -1);
}

#[test]
fn pan_accumulates_from_drag_anchor() {
    let mut g = GUI::new();
    g.mouse_move((10, 10));
    g.mouse_move((20, 20));
    let mut e = SimpleEngine::new();
    g.mouse_press(MouseButton::Middle, &mut e, 100, 100);
    assert!(g.is_dragging());
    g.mouse_move((35, 50));
    assert_eq!(g.offset(), (15, 30));
}

#[test]
fn pan_does_not_double_apply_across_drags() {
    let mut g = GUI::new();
    let mut e = SimpleEngine::new();
    g.mouse_move((20, 20));
    g.mouse_press(MouseButton::Middle, &mut e, 100, 100);
    g.mouse_move((35, 50));
    assert_eq!(g.offset(), (15, 30));
    g.mouse_release(MouseButton::Middle);
    assert!(!g.is_dragging());
    g.mouse_move((35, 50));
    g.mouse_press(MouseButton::Middle, &mut e, 100, 100);
    g.mouse_move((36, 50));
    assert_eq!(g.offset(), (16, 30));
}

#[test]
fn pan_path_is_irrelevant_within_a_drag() {
    let mut g = GUI::new();
    let mut e = SimpleEngine::new();
    g.mouse_move((0, 0));
    g.mouse_press(MouseButton::Middle, &mut e, 100, 100);
    g.mouse_move((-700, 900));
    g.mouse_move((12, -34));
    assert_eq!(g.offset(), (12, -34));
}

#[test]
fn pan_offset_saturates_at_the_i64_edge() {
    let mut g = GUI::new();
    let mut e = SimpleEngine::new();
    g.mouse_move((-5, 0));
    g.mouse_press(MouseButton::Middle, &mut e, 100, 100);
    g.mouse_move((i64::MAX, 0));
    assert_eq!(g.offset().0, i64::MAX);
}

#[test]
fn release_of_other_buttons_keeps_dragging() {
    let mut g = GUI::new();
    let mut e = SimpleEngine::new();
    g.mouse_press(MouseButton::Middle, &mut e, 100, 100);
    g.mouse_release(MouseButton::Left);
    assert!(g.is_dragging());
    g.mouse_release(MouseButton::Middle);
    assert!(!g.is_dragging());
}

#[test]
fn center_click_maps_to_origin() {
    let g = GUI::new();
    assert_eq!(g.screen_to_world(50, 40, 100, 80), (0, 0));
    // one pixel toward negative space floors to the next cell down
    assert_eq!(g.screen_to_world(49, 39, 100, 80), (-1, -1));
}

#[test]
fn screen_to_world_respects_pan_and_zoom() {
    let mut g = GUI::new();
    // pan by (15, 30) via a drag
    let mut e = SimpleEngine::new();
    g.mouse_move((20, 20));
    g.mouse_press(MouseButton::Middle, &mut e, 100, 100);
    g.mouse_move((35, 50));
    g.mouse_release(MouseButton::Middle);
    assert_eq!(g.offset(), (15, 30));
    // (65, 70) is the panned center of a 100x80 window
    assert_eq!(g.screen_to_world(65, 70, 100, 80), (0, 0));
    assert_eq!(g.screen_to_world(75, 70, 100, 80), (10, 0));
    // zoom to 2.0: ten notches up; the same point is five cells out
    for _ in 0..10 {
        g.mouse_scroll((0, 1));
    }
    assert_eq!(g.zoom_tenths(), 20);
    assert_eq!(g.screen_to_world(75, 70, 100, 80), (5, 0));
}

#[test]
fn screen_to_world_with_negative_zoom_inverts_axes() {
    let mut g = GUI::new();
    for _ in 0..11 {
        g.mouse_scroll((0, -1));
    }
    assert_eq!(g.zoom_tenths(), -1);
    // ten pixels right of center, at scale -0.1, is a hundred cells left;
    // the vertical center itself stays at cell 0
    assert_eq!(g.screen_to_world(60, 40, 100, 80), (-100, 0));
}

#[test]
fn round_trip_at_identity() {
    let g = GUI::new();
    let t = g.compute_transform(100, 80);
    assert_eq!(t.scale_tenths, 10);
    assert_eq!(t.tx_twentieths, 0);
    assert_eq!(t.ty_twentieths, 0);
    for &(x, y) in &[(0i64, 0i64), (3, -2), (-40, 17), (1000, -1000)] {
        // the drawn point of cell (x, y), pushed through the transform
        let px20 = (t.scale_tenths as i128) * (2 * x as i128 + 100) + t.tx_twentieths;
        let py20 = (t.scale_tenths as i128) * (2 * y as i128 + 80) + t.ty_twentieths;
        assert_eq!(px20 % 20, 0);
        assert_eq!(py20 % 20, 0);
        let sx = (px20 / 20) as i64;
        let sy = (py20 / 20) as i64;
        assert_eq!(g.screen_to_world(sx, sy, 100, 80), (x, y));
    }
}

#[test]
fn paint_click_sets_one_cell_alive() {
    let mut g = GUI::new();
    let mut e = SimpleEngine::new();
    g.mouse_move((50, 40));
    g.mouse_press(MouseButton::Left, &mut e, 100, 80);
    assert_eq!(e.live_cells(), vec![(0, 0)]);
}

#[test]
fn erase_click_sets_the_cell_dead() {
    let mut g = GUI::new();
    let mut e = SimpleEngine::new();
    g.mouse_move((50, 40));
    g.mouse_press(MouseButton::Left, &mut e, 100, 80);
    g.mouse_press(MouseButton::Right, &mut e, 100, 80);
    assert_eq!(e.live_cells(), vec![]);
}

#[test]
fn pan_press_leaves_the_engine_alone() {
    let mut g = GUI::new();
    let mut e = SimpleEngine::new();
    g.mouse_move((50, 40));
    g.mouse_press(MouseButton::Left, &mut e, 100, 80);
    g.mouse_press(MouseButton::Middle, &mut e, 100, 80);
    assert!(g.is_dragging());
    assert_eq!(e.live_cells(), vec![(0, 0)]);
}

#[test]
fn paint_clicks_follow_the_pointer() {
    let mut g = GUI::new();
    let mut e = SimpleEngine::new();
    g.mouse_move((50, 40));
    g.mouse_press(MouseButton::Left, &mut e, 100, 80);
    g.mouse_move((61, 40));
    g.mouse_press(MouseButton::Left, &mut e, 100, 80);
    g.mouse_move((39, 29));
    g.mouse_press(MouseButton::Left, &mut e, 100, 80);
    assert_eq!(sorted(e.live_cells()), vec![(-11, -11), (0, 0), (11, 0)]);
}
