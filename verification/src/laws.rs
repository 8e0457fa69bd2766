//! Engine-wide laws, proved over the model's transition functions.
//!
//! Single-step facts (clear empties everything, undo on an empty stack is
//! a no-op, the width clamp) are part of the `ensures` of the engine
//! methods and of the preservation lemmas in `model`; the laws here
//! relate several operations.

use crate::fixed::{ndc_x_spec, ndc_y_spec};
use crate::model::{
    inv, lemma_down_preserves_inv, lemma_move_preserves_inv, lemma_simple_steps_preserve_inv,
    lemma_undo_preserves_inv, norm_h_of, norm_w_of, reticle_seq, spec_pointer_down,
    spec_pointer_move, spec_pointer_up, spec_undo, stroke_len, GPen, Model,
};
use vstd::prelude::*;

verus! {

/// All samples of a move sequence lie in the viewport.
pub open spec fn moves_in_viewport(s: Seq<(int, int)>, w: int, h: int) -> bool {
    forall|i: int| 0 <= i < s.len() ==> 0 <= (#[trigger] s[i]).0 <= w && 0 <= s[i].1 <= h
}

/// The state after feeding every sample of `s` to the engine in order.
pub open spec fn apply_moves(m: Model, s: Seq<(int, int)>) -> Model
    decreases s.len(),
{
    if s.len() == 0 {
        m
    } else {
        apply_moves(spec_pointer_move(m, s[0].0, s[0].1), s.skip(1))
    }
}

/// Pointer samples never touch the undo stack, the settings or the
/// viewport, only append to the stroke region, and keep it intact.
pub proof fn lemma_moves_keep_stroke_prefix(m: Model, s: Seq<(int, int)>)
    requires
        inv(m),
        moves_in_viewport(s, m.view_w, m.view_h),
    ensures
        inv(apply_moves(m, s)),
        apply_moves(m, s).undo == m.undo,
        apply_moves(m, s).verts.len() >= m.verts.len(),
        apply_moves(m, s).view_w == m.view_w,
        apply_moves(m, s).view_h == m.view_h,
        forall|i: int|
            32 <= i < m.verts.len() ==> apply_moves(m, s).verts[i] == m.verts[i],
    decreases s.len(),
{
    if s.len() > 0 {
        let m1 = spec_pointer_move(m, s[0].0, s[0].1);
        lemma_move_preserves_inv(m, s[0].0, s[0].1);
        assert(forall|i: int| 32 <= i < m.verts.len() ==> m1.verts[i] == m.verts[i]) by {
            assert(forall|i: int|
                32 <= i < m.verts.len() ==> m1.verts[i] == m.verts.skip(32)[i - 32]);
        }
        assert(moves_in_viewport(s.skip(1), m1.view_w, m1.view_h)) by {
            assert(forall|i: int|
                0 <= i < s.skip(1).len() ==> s.skip(1)[i] == s[i + 1]);
        }
        lemma_moves_keep_stroke_prefix(m1, s.skip(1));
    }
}

/// After a pointer-down, the first sample only buffers the stroke's first
/// point (the stroke region does not grow), the second sample emits one
/// quad of six vertices, and so does every further sample of the stroke.
pub proof fn law_stroke_growth(m: Model, ax: int, ay: int, bx: int, by: int)
    requires
        inv(m),
        m.pen is Idle,
        0 <= ax <= m.view_w,
        0 <= ay <= m.view_h,
        0 <= bx <= m.view_w,
        0 <= by <= m.view_h,
    ensures
        ({
            let m1 = spec_pointer_move(spec_pointer_down(m), ax, ay);
            let m2 = spec_pointer_move(m1, bx, by);
            stroke_len(m1) == stroke_len(m) && stroke_len(m2) == stroke_len(m) + 6
        }),
{
    lemma_down_preserves_inv(m);
    lemma_move_preserves_inv(spec_pointer_down(m), ax, ay);
    lemma_move_preserves_inv(spec_pointer_move(spec_pointer_down(m), ax, ay), bx, by);
}

/// While the pen is drawing, every sample appends exactly one quad.
pub proof fn law_drawing_move_adds_six(m: Model, x: int, y: int)
    requires
        inv(m),
        m.pen is Drawing,
        0 <= x <= m.view_w,
        0 <= y <= m.view_h,
    ensures
        stroke_len(spec_pointer_move(m, x, y)) == stroke_len(m) + 6,
        spec_pointer_move(m, x, y).pen is Drawing,
{
    lemma_move_preserves_inv(m, x, y);
}

/// Undo after a completed stroke — down, any in-viewport samples, up —
/// restores the stroke region to exactly what it was before the down:
/// the same vertex count and the same vertices.
pub proof fn law_undo_restores_stroke(m: Model, s: Seq<(int, int)>)
    requires
        inv(m),
        m.pen is Idle,
        moves_in_viewport(s, m.view_w, m.view_h),
    ensures
        ({
            let done = spec_pointer_up(apply_moves(spec_pointer_down(m), s));
            let undone = spec_undo(done);
            stroke_len(undone) == stroke_len(m) && undone.verts.skip(32) == m.verts.skip(32)
        }),
{
    let md = spec_pointer_down(m);
    lemma_down_preserves_inv(m);
    let drawn = apply_moves(md, s);
    lemma_moves_keep_stroke_prefix(md, s);
    let done = spec_pointer_up(drawn);
    lemma_simple_steps_preserve_inv(drawn);
    assert(done.undo == m.undo.push(m.verts.len() as int));
    assert(done.undo.last() == m.verts.len() as int);
    let undone = spec_undo(done);
    lemma_undo_preserves_inv(done);
    assert(undone.verts.len() == m.verts.len());
    assert(undone.verts.skip(32) =~= m.verts.skip(32)) by {
        assert(forall|i: int|
            0 <= i < m.verts.len() - 32 ==> undone.verts.skip(32)[i] == undone.verts[i + 32]);
        assert(forall|i: int|
            32 <= i < m.verts.len() ==> undone.verts[i] == done.verts[i]);
    }
}

/// The reticle always holds exactly 32 vertices, and one redraw after a
/// pointer sample they trace the circle around the sample's position.
pub proof fn law_reticle_tracks_cursor(m: Model, x: int, y: int)
    requires
        inv(m),
        0 <= x <= m.view_w,
        0 <= y <= m.view_h,
    ensures
        ({
            let m2 = spec_pointer_move(m, x, y);
            m2.verts.len() >= 32 && m2.verts.take(32) == reticle_seq(
                ndc_x_spec(x, m.view_w),
                ndc_y_spec(y, m.view_h),
                norm_w_of(m),
                norm_h_of(m),
                m.color_r,
                m.color_g,
                m.color_b,
            )
        }),
{
    lemma_move_preserves_inv(m, x, y);
    let m2 = spec_pointer_move(m, x, y);
    let ret = reticle_seq(
        ndc_x_spec(x, m.view_w),
        ndc_y_spec(y, m.view_h),
        norm_w_of(m),
        norm_h_of(m),
        m.color_r,
        m.color_g,
        m.color_b,
    );
    assert(m2.verts.take(32) =~= ret);
}

} // verus!
