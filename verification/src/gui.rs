//! The viewport controller: camera state (pan offset, zoom), the drag-based
//! panning protocol, click-to-edit dispatch, and the screen/world coordinate
//! mapping.
//!
//! All quantities are exact fixed-point integers:
//! - screen positions, pan offsets and window sizes in whole pixels (`i64`);
//! - the zoom factor in tenths of a unit (`zoom_tenths == 10` is scale 1);
//! - points handed to the render transform in half-pixels, so that the
//!   window center (half the width) stays exact for odd window sizes;
//! - transform translations in twentieths of a pixel.
//!
//! Sums that would leave the `i64` range saturate at its ends; division by
//! the zoom factor rounds toward negative infinity, so cells on either side
//! of zero stay distinct and contiguous.

use crate::engine::{contains_cell, EngineOp, GridBounds, LifeEngine};
use crate::num::{clip_i128_to_i64, clip_i64, floor_div, floor_div_i128, sat_add_sub};
use vstd::prelude::*;

verus! {

/// A key identifier; only the pause key is distinguished.
#[derive(Clone, Copy, PartialEq, Eq, Structural, Debug)]
pub enum Key {
    Space,
    Other,
}

/// A mouse button identifier: paint, erase, pan, or anything else.
#[derive(Clone, Copy, PartialEq, Eq, Structural, Debug)]
pub enum MouseButton {
    Left,
    Right,
    Middle,
    Other,
}

/// The mathematical camera state: what a `GUI` value stands for.
pub ghost struct ViewModel {
    /// Whether automaton stepping is suspended.
    pub paused: bool,
    /// Zoom factor in tenths of a unit; 10 is scale 1.  No lower bound is
    /// enforced: repeated zooming out may drive it to zero or below.
    pub zoom_tenths: int,
    /// Current pan translation, in screen pixels.
    pub offset_x: int,
    pub offset_y: int,
    /// Snapshot of the offsets taken at the most recent idle pointer
    /// position; the base from which a drag computes new offsets.
    pub anchor_x: int,
    pub anchor_y: int,
    /// Latest known pointer position in screen pixels.
    pub pointer_x: int,
    pub pointer_y: int,
    /// Pointer position captured at the start of the active drag (or most
    /// recently while not dragging).
    pub drag_start_x: int,
    pub drag_start_y: int,
    /// Whether the pan button is currently held.
    pub dragging: bool,
}

/// The initial camera: not paused, scale 1, no pan, pointer at the origin,
/// not dragging.
pub open spec fn init_model() -> ViewModel {
    ViewModel {
        paused: false,
        zoom_tenths: 10,
        offset_x: 0,
        offset_y: 0,
        anchor_x: 0,
        anchor_y: 0,
        pointer_x: 0,
        pointer_y: 0,
        drag_start_x: 0,
        drag_start_y: 0,
        dragging: false,
    }
}

/// The pause key flips `paused`; every other key is a no-op.
pub open spec fn spec_key_press(m: ViewModel, key: Key) -> ViewModel {
    if key == Key::Space {
        ViewModel { paused: !m.paused, ..m }
    } else {
        m
    }
}

/// Pressing the pan button begins a drag; the camera state is otherwise
/// untouched by a button press (engine effects are stated separately).
pub open spec fn spec_button_press(m: ViewModel, button: MouseButton) -> ViewModel {
    if button == MouseButton::Middle {
        ViewModel { dragging: true, ..m }
    } else {
        m
    }
}

/// Releasing the pan button ends the drag; every other button is a no-op.
pub open spec fn spec_button_release(m: ViewModel, button: MouseButton) -> ViewModel {
    if button == MouseButton::Middle {
        ViewModel { dragging: false, ..m }
    } else {
        m
    }
}

/// Pointer motion.  While idle, the move refreshes the drag start and the
/// anchor, so that whenever a drag begins they are already correct.  While
/// dragging, the offset is re-derived from the anchor and the total pointer
/// travel — never accumulated — so long drags cannot drift.
pub open spec fn spec_mouse_move(m: ViewModel, x: int, y: int) -> ViewModel {
    if !m.dragging {
        ViewModel {
            pointer_x: x,
            pointer_y: y,
            drag_start_x: x,
            drag_start_y: y,
            anchor_x: m.offset_x,
            anchor_y: m.offset_y,
            ..m
        }
    } else {
        ViewModel {
            pointer_x: x,
            pointer_y: y,
            offset_x: clip_i64(m.anchor_x + x - m.drag_start_x),
            offset_y: clip_i64(m.anchor_y + y - m.drag_start_y),
            ..m
        }
    }
}

/// A vertical scroll of exactly one notch steps the zoom by a tenth;
/// any other vertical delta is ignored (discrete wheel-notch input).
pub open spec fn spec_mouse_scroll(m: ViewModel, dy: int) -> ViewModel {
    if dy == 1 {
        ViewModel { zoom_tenths: clip_i64(m.zoom_tenths + 1), ..m }
    } else if dy == -1 {
        ViewModel { zoom_tenths: clip_i64(m.zoom_tenths - 1), ..m }
    } else {
        m
    }
}

/// The world cell under a screen point, before clamping to `i64`.
/// `s2` is the screen coordinate in half-pixels; `off` the pan offset and
/// `span` the window extent on that axis, both in pixels; `zt` the zoom in
/// tenths.  This is floor(((s - off) - span/2) / zoom) carried out exactly:
/// the numerator is that difference in tenths of a pixel.
pub open spec fn world_of(s2: int, off: int, span: int, zt: int) -> int
    recommends
        zt != 0,
{
    floor_div(5 * s2 - 10 * off - 5 * span, zt)
}

/// Where the renderer places the cell with world coordinate `x`: at the
/// cell's corner shifted by half the window, in half-pixels.
pub open spec fn cell_point_half(x: int, span: int) -> int {
    2 * x + span
}

/// The render transform applied to a point `p2` (in half-pixels), giving a
/// screen position in twentieths of a pixel.
pub open spec fn transform_apply_x20(scale_tenths: int, t20: int, p2: int) -> int {
    scale_tenths * p2 + t20
}

/// The world cell under the current pointer on the x axis, clamped to the
/// representable range (the clamp can only act when camera values are
/// themselves near the ends of the `i64` range).
pub open spec fn spec_world_x(m: ViewModel, width: int) -> int {
    clip_i64(world_of(2 * m.pointer_x, m.offset_x, width, m.zoom_tenths))
}

/// The world cell under the current pointer on the y axis.
pub open spec fn spec_world_y(m: ViewModel, height: int) -> int {
    clip_i64(world_of(2 * m.pointer_y, m.offset_y, height, m.zoom_tenths))
}

/// What a click does to the engine's operation history: the paint button
/// sets the cell under the pointer alive and compacts, the erase button
/// sets it dead and compacts, any other non-pan button only compacts, and
/// the pan button leaves the engine untouched.
pub open spec fn spec_click_ops(
    ops: Seq<EngineOp>,
    button: MouseButton,
    wx: int,
    wy: int,
) -> Seq<EngineOp> {
    match button {
        MouseButton::Middle => ops,
        MouseButton::Left => ops.push(
            EngineOp::SetCell { x: wx, y: wy, alive: true },
        ).push(EngineOp::CleanUp),
        MouseButton::Right => ops.push(
            EngineOp::SetCell { x: wx, y: wy, alive: false },
        ).push(EngineOp::CleanUp),
        MouseButton::Other => ops.push(EngineOp::CleanUp),
    }
}

/// What a click does to the set of live cells.
pub open spec fn spec_click_live(
    live: Set<(int, int)>,
    button: MouseButton,
    wx: int,
    wy: int,
) -> Set<(int, int)> {
    match button {
        MouseButton::Left => live.insert((wx, wy)),
        MouseButton::Right => live.remove((wx, wy)),
        _ => live,
    }
}

/// One row of the text-fallback grid: row `r` (counted from the top of the
/// bounding box) holds `'*'` where the cell `(x_min + k, y_min + r)` is
/// live and `' '` elsewhere — the same sign convention as the screen/world
/// mapping, with no axis flipped.
pub open spec fn row_matches(row: Seq<char>, live: Set<(int, int)>, b: GridBounds, r: int) -> bool {
    &&& row.len() == b.x_max - b.x_min + 1
    &&& forall|k: int| #![trigger row[k]] 0 <= k < row.len() ==> row[k] == (if live.contains(
        ((b.x_min + k) as int, (b.y_min + r) as int),
    ) {
        '*'
    } else {
        ' '
    })
}

/// Whether the drawn point `p` (in half-pixels) is the image of some live
/// cell: the cell's corner shifted by half the window on each axis.
pub open spec fn rect_of_live_cell(
    live: Set<(int, int)>,
    p: (i128, i128),
    width: int,
    height: int,
) -> bool {
    exists|cx: int, cy: int|
        live.contains((cx, cy)) && p.0 == cell_point_half(cx, width) && p.1 == cell_point_half(
            cy,
            height,
        )
}

/// The render transform, as exact fixed-point data: a uniform scale of
/// `scale_tenths / 10` followed by a translation of `t_twentieths / 20`
/// pixels on each axis.
#[derive(Clone, Copy, PartialEq, Eq, Structural, Debug)]
pub struct Transform {
    pub scale_tenths: i64,
    pub tx_twentieths: i128,
    pub ty_twentieths: i128,
}

/// The viewport controller.  It owns the camera state and is mutated
/// exclusively by the input handlers below; `view` gives the mathematical
/// state that every contract speaks of.
pub struct GUI {
    paused: bool,
    zoom_tenths: i64,
    offset_x: i64,
    offset_y: i64,
    prev_offset_x: i64,
    prev_offset_y: i64,
    mouse_x: i64,
    mouse_y: i64,
    mouse_last_x: i64,
    mouse_last_y: i64,
    mouse_middle_down: bool,
}

impl View for GUI {
    type V = ViewModel;

    closed spec fn view(&self) -> ViewModel {
        ViewModel {
            paused: self.paused,
            zoom_tenths: self.zoom_tenths as int,
            offset_x: self.offset_x as int,
            offset_y: self.offset_y as int,
            anchor_x: self.prev_offset_x as int,
            anchor_y: self.prev_offset_y as int,
            pointer_x: self.mouse_x as int,
            pointer_y: self.mouse_y as int,
            drag_start_x: self.mouse_last_x as int,
            drag_start_y: self.mouse_last_y as int,
            dragging: self.mouse_middle_down,
        }
    }
}

impl GUI {
    /// A fresh controller in the initial camera state.
    pub fn new() -> (g: GUI)
        ensures
            g@ == init_model(),
    {
        GUI {
            paused: false,
            zoom_tenths: 10,
            offset_x: 0,
            offset_y: 0,
            prev_offset_x: 0,
            prev_offset_y: 0,
            mouse_x: 0,
            mouse_y: 0,
            mouse_last_x: 0,
            mouse_last_y: 0,
            mouse_middle_down: false,
        }
    }

    /// Whether automaton stepping is suspended.
    pub fn is_paused(&self) -> (r: bool)
        ensures
            r == self@.paused,
    {
        self.paused
    }

    /// The zoom factor, in tenths of a unit.
    pub fn zoom_tenths(&self) -> (r: i64)
        ensures
            r == self@.zoom_tenths,
    {
        self.zoom_tenths
    }

    /// The current pan translation, in screen pixels.
    pub fn offset(&self) -> (r: (i64, i64))
        ensures
            r.0 == self@.offset_x,
            r.1 == self@.offset_y,
    {
        (self.offset_x, self.offset_y)
    }

    /// Whether the pan button is currently held.
    pub fn is_dragging(&self) -> (r: bool)
        ensures
            r == self@.dragging,
    {
        self.mouse_middle_down
    }

    /// The pause key flips `paused`; any other key is a no-op.
    pub fn key_press(&mut self, key: Key)
        ensures
            final(self)@ == spec_key_press(old(self)@, key),
    {
        if key == Key::Space {
            self.paused = !self.paused;
        }
    }

    /// Releasing the pan button stops the drag; any other button is a no-op.
    pub fn mouse_release(&mut self, button: MouseButton)
        ensures
            final(self)@ == spec_button_release(old(self)@, button),
    {
        if button == MouseButton::Middle {
            self.mouse_middle_down = false;
        }
    }

    /// Pointer motion: while idle, keep the drag start and the anchor fresh;
    /// while dragging, re-derive the offset from the anchor and the total
    /// pointer travel since the drag began.
    pub fn mouse_move(&mut self, pos: (i64, i64))
        ensures
            final(self)@ == spec_mouse_move(old(self)@, pos.0 as int, pos.1 as int),
    {
        self.mouse_x = pos.0;
        self.mouse_y = pos.1;
        if !self.mouse_middle_down {
            self.mouse_last_x = pos.0;
            self.mouse_last_y = pos.1;
            self.prev_offset_x = self.offset_x;
            self.prev_offset_y = self.offset_y;
        } else {
            self.offset_x = sat_add_sub(self.prev_offset_x, pos.0, self.mouse_last_x);
            self.offset_y = sat_add_sub(self.prev_offset_y, pos.1, self.mouse_last_y);
        }
    }

    /// A scroll of exactly one notch up or down steps the zoom by a tenth;
    /// any other vertical delta is ignored.
    pub fn mouse_scroll(&mut self, scroll: (i64, i64))
        ensures
            final(self)@ == spec_mouse_scroll(old(self)@, scroll.1 as int),
    {
        if scroll.1 == 1 {
            self.zoom_tenths = sat_add_sub(self.zoom_tenths, 1, 0);
        } else if scroll.1 == -1 {
            self.zoom_tenths = sat_add_sub(self.zoom_tenths, 0, 1);
        }
    }

    /// The world cell under the screen point `(sx, sy)`, for the current
    /// camera and the given window size.  Floors toward negative infinity,
    /// so coordinates on either side of zero map to distinct, contiguous
    /// cells; the result saturates at the ends of the `i64` range.
    pub fn screen_to_world(&self, sx: i64, sy: i64, width: i64, height: i64) -> (w: (i64, i64))
        requires
            self@.zoom_tenths != 0,
        ensures
            w.0 == clip_i64(world_of(2 * sx, self@.offset_x, width as int, self@.zoom_tenths)),
            w.1 == clip_i64(world_of(2 * sy, self@.offset_y, height as int, self@.zoom_tenths)),
    {
        let nx: i128 = 10 * (sx as i128 - self.offset_x as i128) - 5 * (width as i128);
        let ny: i128 = 10 * (sy as i128 - self.offset_y as i128) - 5 * (height as i128);
        let zt: i128 = self.zoom_tenths as i128;
        let wx = clip_i128_to_i64(floor_div_i128(nx, zt));
        let wy = clip_i128_to_i64(floor_div_i128(ny, zt));
        (wx, wy)
    }

    /// The composed render transform: translate by the pan offset, translate
    /// to the window center, scale uniformly by the zoom, translate back by
    /// half the window.  Composed, that is a uniform scale of `zoom` and a
    /// translation of `offset + (span/2) * (1 - zoom)` on each axis; the
    /// fields state it exactly in fixed point.
    pub fn compute_transform(&self, width: i64, height: i64) -> (t: Transform)
        ensures
            t.scale_tenths == self@.zoom_tenths,
            t.tx_twentieths == 20 * self@.offset_x + width * (10 - self@.zoom_tenths),
            t.ty_twentieths == 20 * self@.offset_y + height * (10 - self@.zoom_tenths),
    {
        let zd: i128 = 10 - self.zoom_tenths as i128;
        proof {
            assert((width as int) * (zd as int)
                <= 0x4000_0000_0000_0005_0000_0000_0000_0000
                && (width as int) * (zd as int)
                >= -0x4000_0000_0000_0005_0000_0000_0000_0000) by (nonlinear_arith)
                requires
                    -0x8000_0000_0000_0000 <= width as int <= 0x7fff_ffff_ffff_ffff,
                    -0x8000_0000_0000_000A <= zd as int <= 0x8000_0000_0000_000A,
            ;
            assert((height as int) * (zd as int)
                <= 0x4000_0000_0000_0005_0000_0000_0000_0000
                && (height as int) * (zd as int)
                >= -0x4000_0000_0000_0005_0000_0000_0000_0000) by (nonlinear_arith)
                requires
                    -0x8000_0000_0000_0000 <= height as int <= 0x7fff_ffff_ffff_ffff,
                    -0x8000_0000_0000_000A <= zd as int <= 0x8000_0000_0000_000A,
            ;
        }
        let tx: i128 = 20 * (self.offset_x as i128) + (width as i128) * zd;
        let ty: i128 = 20 * (self.offset_y as i128) + (height as i128) * zd;
        Transform { scale_tenths: self.zoom_tenths, tx_twentieths: tx, ty_twentieths: ty }
    }

    /// Click dispatch.  The paint button sets the cell under the pointer
    /// alive, the erase button sets it dead; either is followed by exactly
    /// one `clean_up`, as is any other non-pan button.  The pan button only
    /// begins a drag and leaves the engine untouched.
    pub fn mouse_press<L: LifeEngine>(
        &mut self,
        button: MouseButton,
        engine: &mut L,
        width: i64,
        height: i64,
    )
        requires
            old(self)@.zoom_tenths != 0,
        ensures
            final(self)@ == spec_button_press(old(self)@, button),
            final(engine).ops() == spec_click_ops(
                old(engine).ops(),
                button,
                spec_world_x(old(self)@, width as int),
                spec_world_y(old(self)@, height as int),
            ),
            final(engine).live() == spec_click_live(
                old(engine).live(),
                button,
                spec_world_x(old(self)@, width as int),
                spec_world_y(old(self)@, height as int),
            ),
    {
        let (wx, wy) = self.screen_to_world(self.mouse_x, self.mouse_y, width, height);
        if button == MouseButton::Middle {
            self.mouse_middle_down = true;
        } else {
            if button == MouseButton::Left {
                engine.set((wx, wy), true);
            }
            if button == MouseButton::Right {
                engine.set((wx, wy), false);
            }
            engine.clean_up();
        }
    }

    /// One frame: the composed render transform together with the point
    /// (in half-pixels) at which each live cell's unit rectangle is drawn —
    /// the cell's corner shifted by half the window, exactly as the
    /// screen/world mapping expects.  The rectangles come in the engine's
    /// enumeration order; every live cell appears and nothing else does.
    pub fn draw<L: LifeEngine>(&self, engine: &L, width: i64, height: i64) -> (out: (
        Transform,
        Vec<(i128, i128)>,
    ))
        ensures
            out.0.scale_tenths == self@.zoom_tenths,
            out.0.tx_twentieths == 20 * self@.offset_x + width * (10 - self@.zoom_tenths),
            out.0.ty_twentieths == 20 * self@.offset_y + height * (10 - self@.zoom_tenths),
            forall|i: int|
                #![trigger out.1@[i]]
                0 <= i < out.1@.len() ==> rect_of_live_cell(
                    engine.live(),
                    out.1@[i],
                    width as int,
                    height as int,
                ),
            forall|cx: int, cy: int| #[trigger] engine.live().contains((cx, cy))
                ==> exists|i: int|
                    0 <= i < out.1@.len() && out.1@[i].0 == cell_point_half(cx, width as int)
                        && out.1@[i].1 == cell_point_half(cy, height as int),
    {
        let t = self.compute_transform(width, height);
        let cells = engine.live_cells();
        let mut rects: Vec<(i128, i128)> = Vec::new();
        let mut i: usize = 0;
        while i < cells.len()
            invariant
                i <= cells@.len(),
                rects@.len() == i,
                forall|j: int|
                    #![trigger rects@[j]]
                    0 <= j < i ==> rects@[j].0 == cell_point_half(cells@[j].0 as int, width as int)
                        && rects@[j].1 == cell_point_half(cells@[j].1 as int, height as int),
            decreases cells@.len() - i,
        {
            let c = cells[i];
            rects.push((2 * (c.0 as i128) + width as i128, 2 * (c.1 as i128) + height as i128));
            i += 1;
        }
        let out = (t, rects);
        proof {
            assert(out.1@ =~= rects@);
            assert forall|i: int| #![trigger out.1@[i]] 0 <= i < out.1@.len() implies
                rect_of_live_cell(engine.live(), out.1@[i], width as int, height as int) by {
                assert(out.1@[i] == rects@[i]);
                assert(cells@.contains(cells@[i]));
                let cx = cells@[i].0 as int;
                let cy = cells@[i].1 as int;
                assert(engine.live().contains((cx, cy)) && out.1@[i].0 == cell_point_half(
                    cx,
                    width as int,
                ) && out.1@[i].1 == cell_point_half(cy, height as int));
            }
            assert forall|cx: int, cy: int| #[trigger] engine.live().contains((cx, cy)) implies
                exists|i: int|
                    0 <= i < out.1@.len() && out.1@[i].0 == cell_point_half(cx, width as int)
                        && out.1@[i].1 == cell_point_half(cy, height as int) by {
                assert(cells@.contains((cx as i64, cy as i64)));
                let j = choose|j: int| 0 <= j < cells@.len() && cells@[j] == (cx as i64, cy as i64);
                assert(out.1@[j] == rects@[j]);
                assert(0 <= j < out.1@.len() && out.1@[j].0 == cell_point_half(cx, width as int)
                    && out.1@[j].1 == cell_point_half(cy, height as int));
            }
        }
        out
    }

    /// The text fallback: a character grid sized to the engine's bounding
    /// box, `'*'` on live cells and `' '` elsewhere, row `r` covering world
    /// row `y_min + r` and column `k` world column `x_min + k`.  The bounds
    /// must leave each grid side representable.
    pub fn display_ascii<L: LifeEngine>(&self, engine: &L) -> (grid: Vec<Vec<char>>)
        requires
            engine.bounds().x_max - engine.bounds().x_min < usize::MAX,
            engine.bounds().y_max - engine.bounds().y_min < usize::MAX,
        ensures
            grid@.len() == engine.bounds().y_max - engine.bounds().y_min + 1,
            forall|r: int|
                #![trigger grid@[r]]
                0 <= r < grid@.len() ==> row_matches(
                    grid@[r]@,
                    engine.live(),
                    engine.bounds(),
                    r,
                ),
    {
        let b = engine.get_bounds();
        let cells = engine.live_cells();
        let w128: i128 = b.x_max as i128 - b.x_min as i128;
        let h128: i128 = b.y_max as i128 - b.y_min as i128;
        let grid_w: usize = (w128 as usize) + 1;
        let grid_h: usize = (h128 as usize) + 1;
        let mut grid: Vec<Vec<char>> = Vec::new();
        let mut r: usize = 0;
        while r < grid_h
            invariant
                r <= grid_h,
                grid@.len() == r,
                grid_w == b.x_max - b.x_min + 1,
                grid_h == b.y_max - b.y_min + 1,
                b == engine.bounds(),
                b.x_min <= b.x_max,
                b.y_min <= b.y_max,
                forall|c: (i64, i64)| #[trigger] cells@.contains(c) ==> engine.live().contains(
                    (c.0 as int, c.1 as int),
                ),
                forall|x: int, y: int| #[trigger] engine.live().contains((x, y)) ==> i64::MIN <= x
                    <= i64::MAX && i64::MIN <= y <= i64::MAX && cells@.contains(
                    (x as i64, y as i64),
                ),
                forall|ri: int|
                    #![trigger grid@[ri]]
                    0 <= ri < r ==> row_matches(grid@[ri]@, engine.live(), b, ri),
            decreases grid_h - r,
        {
            let cy: i64 = ((b.y_min as i128) + (r as i128)) as i64;
            let mut row: Vec<char> = Vec::new();
            let mut k: usize = 0;
            while k < grid_w
                invariant
                    k <= grid_w,
                    row@.len() == k,
                    grid_w == b.x_max - b.x_min + 1,
                    b.x_min <= b.x_max,
                    r < grid_h,
                    grid_h == b.y_max - b.y_min + 1,
                    cy == b.y_min + r,
                    forall|c: (i64, i64)| #[trigger] cells@.contains(c) ==> engine.live().contains(
                        (c.0 as int, c.1 as int),
                    ),
                    forall|x: int, y: int| #[trigger] engine.live().contains((x, y)) ==> i64::MIN
                        <= x <= i64::MAX && i64::MIN <= y <= i64::MAX && cells@.contains(
                        (x as i64, y as i64),
                    ),
                    forall|ki: int|
                        #![trigger row@[ki]]
                        0 <= ki < k ==> row@[ki] == (if engine.live().contains(
                            ((b.x_min + ki) as int, (b.y_min + r) as int),
                        ) {
                            '*'
                        } else {
                            ' '
                        }),
                decreases grid_w - k,
            {
                let cx: i64 = ((b.x_min as i128) + (k as i128)) as i64;
                let lv = contains_cell(&cells, cx, cy);
                proof {
                    assert(lv == engine.live().contains((cx as int, cy as int))) by {
                        if engine.live().contains((cx as int, cy as int)) {
                            assert(cells@.contains((cx, cy)));
                        }
                    }
                }
                row.push(if lv { '*' } else { ' ' });
                k += 1;
            }
            grid.push(row);
            r += 1;
        }
        grid
    }
}

} // verus!
