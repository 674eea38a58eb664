use life_viewport::engine::{GridBounds, LifeEngine, SimpleEngine};
use life_viewport::gui::{MouseButton, GUI};

fn engine_with(cells: &[(i64, i64)]) -> SimpleEngine {
    let mut e = SimpleEngine::new();
    for &c in cells {
        e.set(c, true);
    }
    e
}

#[test]
fn engine_set_is_idempotent_per_cell() {
    let mut e = engine_with(&[(1, 2), (1, 2), (3, 4)]);
    assert_eq!(e.live_cells().len(), 2);
    e.set((1, 2), false);
    assert_eq!(e.live_cells(), vec![(3, 4)]);
    e.set((1, 2), false);
    assert_eq!(e.live_cells(), vec![(3, 4)]);
}

#[test]
fn engine_clean_up_keeps_cells() {
    let mut e = engine_with(&[(7, -7)]);
    e.clean_up();
    assert_eq!(e.live_cells(), vec![(7, -7)]);
}

#[test]
fn engine_bounds_box_all_cells() {
    let e = engine_with(&[(2, 1), (-3, 5), (0, 0)]);
    let b = e.get_bounds();
    assert_eq!(
        b,
        GridBounds { x_min: -3, x_max: 2, y_min: 0, y_max: 5 }
    );
}

#[test]
fn engine_bounds_of_empty_is_unit_box() {
    let e = SimpleEngine::new();
    let b = e.get_bounds();
    assert_eq!(
        b,
        GridBounds { x_min: 0, x_max: 0, y_min: 0, y_max: 0 }
    );
}

#[test]
fn draw_places_cells_half_a_window_in() {
    let g = GUI::new();
    let e = engine_with(&[(0, 0), (3, -2)]);
    let (t, rects) = g.draw(&e, 100, 80);
    assert_eq!(t.scale_tenths, 10);
    assert_eq!(t.tx_twentieths, 0);
    assert_eq!(t.ty_twentieths, 0);
    let mut r = rects.clone();
    r.sort();
    // cell (x, y) is drawn at (x + 50, y + 40) pixels: doubled here
    assert_eq!(r, vec![(100, 80), (106, 76)]);
}

#[test]
fn draw_transform_carries_pan_and_zoom() {
    let mut g = GUI::new();
    let mut e = SimpleEngine::new();
    g.mouse_move((0, 0));
    g.mouse_press(MouseButton::Middle, &mut e, 100, 80);
    g.mouse_move((15, 30));
    g.mouse_release(MouseButton::Middle);
    g.mouse_scroll((0, 1));
    let (t, rects) = g.draw(&e, 100, 80);
    assert_eq!(t.scale_tenths, 11);
    // 20 * offset + span * (10 - zoom_tenths)
    assert_eq!(t.tx_twentieths, 20 * 15 + 100 * (10 - 11));
    assert_eq!(t.ty_twentieths, 20 * 30 + 80 * (10 - 11));
    assert_eq!(rects, vec![]);
}

#[test]
fn ascii_grid_marks_live_cells() {
    let g = GUI::new();
    let e = engine_with(&[(0, 0), (2, 1)]);
    let grid = g.display_ascii(&e);
    assert_eq!(grid.len(), 2);
    assert_eq!(grid[0], vec!['*', ' ', ' ']);
    assert_eq!(grid[1], vec![' ', ' ', '*']);
}

#[test]
fn ascii_grid_offsets_by_the_bounding_box() {
    let g = GUI::new();
    let e = engine_with(&[(-2, -1), (-1, 1)]);
    let grid = g.display_ascii(&e);
    // rows cover y in -1..=1, columns x in -2..=-1
    assert_eq!(grid.len(), 3);
    assert_eq!(grid[0], vec!['*', ' ']);
    assert_eq!(grid[1], vec![' ', ' ']);
    assert_eq!(grid[2], vec![' ', '*']);
}

#[test]
fn ascii_grid_agrees_with_the_click_mapping() {
    // paint the cell under the window center, then the one a pixel up-left
    let mut g = GUI::new();
    let mut e = SimpleEngine::new();
    g.mouse_move((50, 40));
    g.mouse_press(MouseButton::Left, &mut e, 100, 80);
    g.mouse_move((49, 39));
    g.mouse_press(MouseButton::Left, &mut e, 100, 80);
    // cells (0,0) and (-1,-1): the grid shows them on one diagonal,
    // upper-left to lower-right, matching screen orientation
    let grid = g.display_ascii(&e);
    assert_eq!(grid[0], vec!['*', ' ']);
    assert_eq!(grid[1], vec![' ', '*']);
}
