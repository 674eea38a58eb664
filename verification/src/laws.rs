//! The controller's laws, proved once and for all states and inputs:
//! the transform/mapping round trip, the drift-freedom of drag panning,
//! the parity of pause toggling, and the sign convention at the window
//! center.

use crate::gui::{
    cell_point_half, spec_key_press, spec_mouse_move, transform_apply_x20, world_of, Key,
    ViewModel,
};
use crate::num::floor_div;
use vstd::arithmetic::div_mod::{
    lemma_div_multiples_vanish, lemma_div_of0, lemma_fundamental_div_mod,
    lemma_mod_multiples_basic,
};
use vstd::prelude::*;

verus! {

/// Transform round trip.  Take the cell with world coordinate `x`, place it
/// where the renderer draws it (`cell_point_half`), run it through the
/// composed render transform for pan `off`, window extent `span` and zoom
/// `zt` tenths; whenever that image lands on an exact half-pixel, mapping
/// the image back through the screen-to-world formula recovers `x` —
/// for every pan, window size and non-zero zoom, even a negative one.
pub proof fn lemma_transform_round_trip(x: int, off: int, span: int, zt: int)
    requires
        zt != 0,
        transform_apply_x20(zt, 20 * off + span * (10 - zt), cell_point_half(x, span)) % 10 == 0,
    ensures
        world_of(
            transform_apply_x20(zt, 20 * off + span * (10 - zt), cell_point_half(x, span)) / 10,
            off,
            span,
            zt,
        ) == x,
{
    let t20 = 20 * off + span * (10 - zt);
    let s20 = transform_apply_x20(zt, t20, cell_point_half(x, span));
    assert(zt * (2 * x + span) == 2 * (zt * x) + zt * span) by (nonlinear_arith);
    assert(span * (10 - zt) == 10 * span - zt * span) by (nonlinear_arith);
    assert(s20 == 2 * (zt * x) + 20 * off + 10 * span);
    let s2 = s20 / 10;
    lemma_fundamental_div_mod(s20, 10);
    assert(s20 == 10 * s2);
    assert(5 * s2 - 10 * off - 5 * span == zt * x);
    if zt > 0 {
        lemma_div_multiples_vanish(x, zt);
        assert((zt * x) / zt == x);
    } else {
        assert(-(zt * x) == (-zt) * x) by (nonlinear_arith);
        lemma_div_multiples_vanish(x, -zt);
        assert(((-zt) * x) / (-zt) == x);
        assert(floor_div(zt * x, zt) == x);
    }
}

/// The round trip at the identity camera (no pan, zoom 1) is exact for
/// every world coordinate and window size: there the transform translation
/// is zero and every cell's image is a whole pixel.
pub proof fn lemma_round_trip_identity(x: int, span: int)
    ensures
        world_of(transform_apply_x20(10, 0, cell_point_half(x, span)) / 10, 0, span, 10) == x,
{
    assert(transform_apply_x20(10, 0, cell_point_half(x, span)) == (2 * x + span) * 10);
    lemma_mod_multiples_basic(2 * x + span, 10);
    assert(20 * 0 + span * (10 - 10) == 0) by (nonlinear_arith);
    lemma_transform_round_trip(x, 0, span, 10);
}

/// Sign convention: with zero pan and zoom 1, the screen point at the
/// exact window center (`span` half-pixels is `span/2` pixels) maps to
/// world coordinate 0 on that axis — not -1; the cell boundary at the
/// center belongs to cell 0.
pub proof fn lemma_center_maps_to_origin(span: int)
    ensures
        world_of(span, 0, span, 10) == 0,
{
    lemma_div_of0(10);
}

/// Drag panning is drift-free: while a drag is active, pointer moves are
/// path-independent — any intermediate move is fully superseded by the
/// next one, so the offset depends only on the anchor, the drag start and
/// the latest pointer position, never on how the pointer got there.
pub proof fn lemma_drag_path_independent(m: ViewModel, x1: int, y1: int, x2: int, y2: int)
    requires
        m.dragging,
    ensures
        spec_mouse_move(spec_mouse_move(m, x1, y1), x2, y2) == spec_mouse_move(m, x2, y2),
{
}

/// `n` presses of the pause key, one after the other.
pub open spec fn space_presses(m: ViewModel, n: nat) -> ViewModel
    decreases n,
{
    if n == 0 {
        m
    } else {
        spec_key_press(space_presses(m, (n - 1) as nat), Key::Space)
    }
}

/// Two consecutive pause-key presses restore the entire camera state.
pub proof fn lemma_pause_pair(m: ViewModel)
    ensures
        spec_key_press(spec_key_press(m, Key::Space), Key::Space) == m,
{
}

/// Pause toggling by parity: an even number of pause-key presses leaves
/// the state as it was, an odd number flips `paused` and changes nothing
/// else.
pub proof fn lemma_pause_parity(m: ViewModel, n: nat)
    ensures
        space_presses(m, n) == (if n % 2 == 0 {
            m
        } else {
            spec_key_press(m, Key::Space)
        }),
    decreases n,
{
    if n > 0 {
        lemma_pause_parity(m, (n - 1) as nat);
    }
}

} // verus!
