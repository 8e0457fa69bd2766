//! Mathematical model of the stroke geometry engine.
//!
//! `Model` is the ghost state the executable engine is proved against:
//! one vertex buffer whose first `RETICLE_POINTS` entries are the cursor
//! reticle and whose remainder is the stroke region, an undo stack of
//! buffer-length snapshots, the pen state machine, and the drawing
//! settings.  Every engine operation is specified as a total function
//! from model to model, and `inv` is the well-formedness every operation
//! preserves.

use crate::fixed::{
    div_tz, lemma_norm_width_mpx_bounds, lemma_round_div_spec_bounds, lemma_scaled_ratio_bounded,
    ndc_x_spec, ndc_y_spec, norm_width_mpx_spec, round_div_spec,
};
use crate::geom::{perp_x_spec, perp_y_spec};
use crate::trig::{cos_fp_spec, sin_fp_spec};
use vstd::prelude::*;

verus! {

/// Number of vertices in the reticle region at the head of the buffer.
pub const RETICLE_POINTS: usize = 32;

/// One vertex of the buffer: a position in fixed-point normalized device
/// coordinates and a color in thousandths.
pub ghost struct GVertex {
    pub x: int,
    pub y: int,
    pub z: int,
    pub r: int,
    pub g: int,
    pub b: int,
}

/// The pen state machine.  A stroke's first sample is only buffered (no
/// quad can be built before a direction exists); the second sample emits
/// the first quad and back-fills the first point's offset edge; every
/// later sample stitches onto the anchors carried in `Drawing`.
pub ghost enum GPen {
    /// Pointer up; samples move only the cursor.
    Idle,
    /// Pointer just went down; the next sample is the stroke's first point.
    AwaitingFirst,
    /// One point buffered; the next sample completes the first segment.
    AwaitingSecond { ax: int, ay: int },
    /// Drawing; `(tx, ty)` is the trailing anchor (the previous sample) and
    /// `(lx, ly)` the leading anchor (the previous offset corner).
    Drawing { tx: int, ty: int, lx: int, ly: int },
}

/// The whole engine state.
pub ghost struct Model {
    pub verts: Seq<GVertex>,
    pub undo: Seq<int>,
    pub pen: GPen,
    pub color_r: int,
    pub color_g: int,
    pub color_b: int,
    /// Base line width in pixels.
    pub width_px: int,
    /// Pressure width modifier in thousandths.
    pub width_mod: int,
    pub cursor_x: int,
    pub cursor_y: int,
    pub view_w: int,
    pub view_h: int,
    pub needs_redraw: bool,
}

/// Clamps `v` into `[lo, hi]`.
pub open spec fn clamp_spec(v: int, lo: int, hi: int) -> int {
    if v < lo {
        lo
    } else if v > hi {
        hi
    } else {
        v
    }
}

/// Effective line width in thousandths of a pixel: base width times the
/// pressure modifier.
pub open spec fn eff_width_mpx(m: Model) -> int {
    m.width_px * m.width_mod
}

/// Fixed-point normalized width of the current effective line width.
pub open spec fn norm_w_of(m: Model) -> int {
    norm_width_mpx_spec(eff_width_mpx(m), m.view_w)
}

/// The normalized width scaled by the viewport aspect ratio; the reticle
/// uses it as its vertical radius.
pub open spec fn norm_h_of(m: Model) -> int {
    round_div_spec(norm_w_of(m) * m.view_w, m.view_h)
}

/// Reticle vertex `i`: the cursor plus the tabulated circle direction
/// scaled by the two radii.
pub open spec fn reticle_vertex(
    i: int,
    cx: int,
    cy: int,
    wfp: int,
    hfp: int,
    r: int,
    g: int,
    b: int,
) -> GVertex {
    GVertex {
        x: cx + div_tz(cos_fp_spec(i) * wfp, 65536),
        y: cy + div_tz(sin_fp_spec(i) * hfp, 65536),
        z: 0,
        r: r,
        g: g,
        b: b,
    }
}

/// The full reticle region for a cursor, radius pair and color.
pub open spec fn reticle_seq(
    cx: int,
    cy: int,
    wfp: int,
    hfp: int,
    r: int,
    g: int,
    b: int,
) -> Seq<GVertex> {
    Seq::new(32, |i: int| reticle_vertex(i, cx, cy, wfp, hfp, r, g, b))
}

/// The six vertices of one stroke quad: triangles `(p1, p2, p3)` and
/// `(p1, p3, p4)`, all in the given color.
pub open spec fn quad_seq(
    p1x: int,
    p1y: int,
    p2x: int,
    p2y: int,
    p3x: int,
    p3y: int,
    p4x: int,
    p4y: int,
    r: int,
    g: int,
    b: int,
) -> Seq<GVertex> {
    seq![
        GVertex { x: p1x, y: p1y, z: 0, r: r, g: g, b: b },
        GVertex { x: p2x, y: p2y, z: 0, r: r, g: g, b: b },
        GVertex { x: p3x, y: p3y, z: 0, r: r, g: g, b: b },
        GVertex { x: p1x, y: p1y, z: 0, r: r, g: g, b: b },
        GVertex { x: p3x, y: p3y, z: 0, r: r, g: g, b: b },
        GVertex { x: p4x, y: p4y, z: 0, r: r, g: g, b: b },
    ]
}

/// The buffer with its reticle region regenerated for cursor `(cx, cy)`
/// and the current settings of `m`, and the stroke region kept.
pub open spec fn refreshed_verts(m: Model, cx: int, cy: int) -> Seq<GVertex> {
    reticle_seq(cx, cy, norm_w_of(m), norm_h_of(m), m.color_r, m.color_g, m.color_b)
        + m.verts.skip(32)
}

/// A pointer sample at pixel position `(x, y)`: the cursor and reticle
/// always follow it; while the pen is down it also extends the stroke as
/// the state machine dictates.
pub open spec fn spec_pointer_move(m: Model, x: int, y: int) -> Model {
    let cx = ndc_x_spec(x, m.view_w);
    let cy = ndc_y_spec(y, m.view_h);
    let wfp = norm_w_of(m);
    let base = refreshed_verts(m, cx, cy);
    let moved = Model { cursor_x: cx, cursor_y: cy, needs_redraw: true, verts: base, ..m };
    match m.pen {
        GPen::Idle => moved,
        GPen::AwaitingFirst => Model { pen: GPen::AwaitingSecond { ax: cx, ay: cy }, ..moved },
        GPen::AwaitingSecond { ax, ay } => {
            let ox = perp_x_spec(cx - ax, cy - ay, wfp);
            let oy = perp_y_spec(cx - ax, cy - ay, wfp);
            Model {
                verts: base + quad_seq(
                    ax,
                    ay,
                    cx,
                    cy,
                    cx + ox,
                    cy + oy,
                    ax + ox,
                    ay + oy,
                    m.color_r,
                    m.color_g,
                    m.color_b,
                ),
                pen: GPen::Drawing { tx: cx, ty: cy, lx: cx + ox, ly: cy + oy },
                ..moved
            }
        },
        GPen::Drawing { tx, ty, lx, ly } => {
            let ox = perp_x_spec(cx - tx, cy - ty, wfp);
            let oy = perp_y_spec(cx - tx, cy - ty, wfp);
            Model {
                verts: base + quad_seq(
                    tx,
                    ty,
                    cx,
                    cy,
                    cx + ox,
                    cy + oy,
                    lx,
                    ly,
                    m.color_r,
                    m.color_g,
                    m.color_b,
                ),
                pen: GPen::Drawing { tx: cx, ty: cy, lx: cx + ox, ly: cy + oy },
                ..moved
            }
        },
    }
}

/// Pointer down: from `Idle`, start a stroke and push an undo snapshot of
/// the current buffer length; in any other state nothing changes.
pub open spec fn spec_pointer_down(m: Model) -> Model {
    if m.pen is Idle {
        Model {
            pen: GPen::AwaitingFirst,
            undo: m.undo.push(m.verts.len() as int),
            needs_redraw: true,
            ..m
        }
    } else {
        m
    }
}

/// Pointer up: back to `Idle` from any state; no geometry is emitted.
pub open spec fn spec_pointer_up(m: Model) -> Model {
    if m.pen is Idle {
        m
    } else {
        Model { pen: GPen::Idle, needs_redraw: true, ..m }
    }
}

/// A pressure sample in thousandths, clamped into `[0, 1]`, becomes the
/// width modifier; the reticle previews the new width.
pub open spec fn spec_pressure(m: Model, p: int) -> Model {
    let m2 = Model { width_mod: clamp_spec(p, 0, 1000), ..m };
    Model {
        verts: refreshed_verts(m2, m.cursor_x, m.cursor_y),
        needs_redraw: true,
        ..m2
    }
}

/// Selects the drawing color; the reticle previews it.
pub open spec fn spec_select_color(m: Model, r: int, g: int, b: int) -> Model {
    let m2 = Model { color_r: r, color_g: g, color_b: b, ..m };
    Model {
        verts: refreshed_verts(m2, m.cursor_x, m.cursor_y),
        needs_redraw: true,
        ..m2
    }
}

/// Selects a base line width preset in pixels; the reticle previews it.
pub open spec fn spec_select_width(m: Model, px: int) -> Model {
    let m2 = Model { width_px: px, ..m };
    Model {
        verts: refreshed_verts(m2, m.cursor_x, m.cursor_y),
        needs_redraw: true,
        ..m2
    }
}

/// Adds `delta` to the base width, clamped into `[1, 30]` pixels.
pub open spec fn spec_adjust_width(m: Model, delta: int) -> Model {
    let m2 = Model { width_px: clamp_spec(m.width_px + delta, 1, 30), ..m };
    Model {
        verts: refreshed_verts(m2, m.cursor_x, m.cursor_y),
        needs_redraw: true,
        ..m2
    }
}

/// Clear: the stroke region is erased, the reticle is regenerated, the
/// undo stack empties and the pen is forced idle.
pub open spec fn spec_clear(m: Model) -> Model {
    Model {
        verts: reticle_seq(
            m.cursor_x,
            m.cursor_y,
            norm_w_of(m),
            norm_h_of(m),
            m.color_r,
            m.color_g,
            m.color_b,
        ),
        undo: Seq::empty(),
        pen: GPen::Idle,
        needs_redraw: true,
        ..m
    }
}

/// Undo: with a non-empty stack, pop the latest snapshot, truncate the
/// buffer to it and force the pen idle; on an empty stack nothing at all
/// changes.
pub open spec fn spec_undo(m: Model) -> Model {
    if m.undo.len() == 0 {
        m
    } else {
        Model {
            verts: m.verts.take(m.undo.last()),
            undo: m.undo.drop_last(),
            pen: GPen::Idle,
            needs_redraw: true,
            ..m
        }
    }
}

/// The host consumed the dirty flag.
pub open spec fn spec_clear_redraw(m: Model) -> Model {
    Model { needs_redraw: false, ..m }
}

/// The state created at startup on a `vw` by `vh` pixel viewport: a
/// reticle of white vertices at the origin, no strokes, no undo steps,
/// white 5 px pen at full pressure.
pub open spec fn spec_new(vw: int, vh: int) -> Model {
    Model {
        verts: Seq::new(32, |i: int| GVertex { x: 0, y: 0, z: 0, r: 1000, g: 1000, b: 1000 }),
        undo: Seq::empty(),
        pen: GPen::Idle,
        color_r: 1000,
        color_g: 1000,
        color_b: 1000,
        width_px: 5,
        width_mod: 1000,
        cursor_x: 0,
        cursor_y: 0,
        view_w: vw,
        view_h: vh,
        needs_redraw: false,
    }
}

/// Number of vertices in the stroke region.
pub open spec fn stroke_len(m: Model) -> int {
    m.verts.len() - 32
}

/// A buffer vertex is flat (`z == 0`) and carries a color in range.
pub open spec fn vertex_ok(v: GVertex) -> bool {
    v.z == 0 && 0 <= v.r <= 1000 && 0 <= v.g <= 1000 && 0 <= v.b <= 1000
}

pub open spec fn verts_ok(s: Seq<GVertex>) -> bool {
    forall|i: int| 0 <= i < s.len() ==> vertex_ok(#[trigger] s[i])
}

/// Undo snapshots never decrease: strokes only grow the buffer between
/// pushes, so each later snapshot is at least as long.
pub open spec fn undo_sorted(u: Seq<int>) -> bool {
    forall|i: int, j: int| #![trigger u[i], u[j]] 0 <= i <= j < u.len() ==> u[i] <= u[j]
}

pub open spec fn pen_ok(p: GPen) -> bool {
    match p {
        GPen::Idle => true,
        GPen::AwaitingFirst => true,
        GPen::AwaitingSecond { ax, ay } => -65536 <= ax <= 65536 && -65536 <= ay <= 65536,
        GPen::Drawing { tx, ty, lx, ly } => -65536 <= tx <= 65536 && -65536 <= ty <= 65536,
    }
}

/// Well-formedness of the engine state: the buffer holds at least the
/// reticle, the stroke region is whole quads, every undo snapshot lies
/// inside the buffer on a quad boundary and the snapshots are ordered,
/// and all settings are in their documented ranges.
pub open spec fn inv(m: Model) -> bool {
    &&& m.verts.len() >= 32
    &&& (m.verts.len() - 32) % 6 == 0
    &&& verts_ok(m.verts)
    &&& forall|i: int|
        0 <= i < m.undo.len() ==> 32 <= #[trigger] m.undo[i] <= m.verts.len() && (m.undo[i] - 32)
            % 6 == 0
    &&& undo_sorted(m.undo)
    &&& 1 <= m.width_px <= 30
    &&& 0 <= m.width_mod <= 1000
    &&& 0 <= m.color_r <= 1000
    &&& 0 <= m.color_g <= 1000
    &&& 0 <= m.color_b <= 1000
    &&& 1 <= m.view_w <= 65536
    &&& 1 <= m.view_h <= 65536
    &&& -65536 <= m.cursor_x <= 65536
    &&& -65536 <= m.cursor_y <= 65536
    &&& pen_ok(m.pen)
}

/// The effective width in thousandths of a pixel stays within `[0, 30000]`.
pub proof fn lemma_eff_width_bounds(m: Model)
    requires
        inv(m),
    ensures
        0 <= eff_width_mpx(m) <= 30000,
{
    assert(0 <= m.width_px * m.width_mod <= 30000) by (nonlinear_arith)
        requires
            1 <= m.width_px <= 30,
            0 <= m.width_mod <= 1000,
    ;
}

/// The normalized radii of any well-formed state are in the ranges the
/// geometry helpers need.
pub proof fn lemma_norm_radii_bounds(m: Model)
    requires
        inv(m),
    ensures
        0 <= norm_w_of(m) <= 3932160,
        0 <= norm_h_of(m) <= 0x4000000000,
{
    lemma_eff_width_bounds(m);
    lemma_norm_width_mpx_bounds(eff_width_mpx(m), m.view_w);
    assert(0 <= norm_w_of(m) * m.view_w <= 3932160 * 65536) by (nonlinear_arith)
        requires
            0 <= norm_w_of(m) <= 3932160,
            0 <= m.view_w <= 65536,
    ;
    lemma_round_div_spec_bounds(norm_w_of(m) * m.view_w, m.view_h);
}

/// Normalized device coordinates of an in-viewport pixel stay within one
/// unit of the origin.
pub proof fn lemma_ndc_bounds(m: Model, x: int, y: int)
    requires
        inv(m),
        0 <= x <= m.view_w,
        0 <= y <= m.view_h,
    ensures
        -65536 <= ndc_x_spec(x, m.view_w) <= 65536,
        -65536 <= ndc_y_spec(y, m.view_h) <= 65536,
{
    lemma_scaled_ratio_bounded(2 * x - m.view_w, m.view_w);
    lemma_scaled_ratio_bounded(m.view_h - 2 * y, m.view_h);
}

/// A regenerated reticle region is well formed whenever the color is.
pub proof fn lemma_reticle_ok(cx: int, cy: int, wfp: int, hfp: int, r: int, g: int, b: int)
    requires
        0 <= r <= 1000,
        0 <= g <= 1000,
        0 <= b <= 1000,
    ensures
        verts_ok(reticle_seq(cx, cy, wfp, hfp, r, g, b)),
        reticle_seq(cx, cy, wfp, hfp, r, g, b).len() == 32,
{
}

/// A quad is well formed whenever the color is.
pub proof fn lemma_quad_ok(
    p1x: int,
    p1y: int,
    p2x: int,
    p2y: int,
    p3x: int,
    p3y: int,
    p4x: int,
    p4y: int,
    r: int,
    g: int,
    b: int,
)
    requires
        0 <= r <= 1000,
        0 <= g <= 1000,
        0 <= b <= 1000,
    ensures
        verts_ok(quad_seq(p1x, p1y, p2x, p2y, p3x, p3y, p4x, p4y, r, g, b)),
        quad_seq(p1x, p1y, p2x, p2y, p3x, p3y, p4x, p4y, r, g, b).len() == 6,
{
}

/// A pointer sample preserves well-formedness.
pub proof fn lemma_move_preserves_inv(m: Model, x: int, y: int)
    requires
        inv(m),
        0 <= x <= m.view_w,
        0 <= y <= m.view_h,
    ensures
        inv(spec_pointer_move(m, x, y)),
        stroke_len(spec_pointer_move(m, x, y)) == stroke_len(m) + match m.pen {
            GPen::Idle => 0int,
            GPen::AwaitingFirst => 0int,
            GPen::AwaitingSecond { .. } => 6int,
            GPen::Drawing { .. } => 6int,
        },
        spec_pointer_move(m, x, y).undo == m.undo,
{
    let m2 = spec_pointer_move(m, x, y);
    let cx = ndc_x_spec(x, m.view_w);
    let cy = ndc_y_spec(y, m.view_h);
    lemma_ndc_bounds(m, x, y);
    lemma_norm_radii_bounds(m);
    let base = refreshed_verts(m, cx, cy);
    lemma_reticle_ok(cx, cy, norm_w_of(m), norm_h_of(m), m.color_r, m.color_g, m.color_b);
    assert(base.len() == m.verts.len());
    assert forall|i: int| 0 <= i < base.len() implies vertex_ok(#[trigger] base[i]) by {
        if i >= 32 {
            assert(base[i] == m.verts.skip(32)[i - 32]);
            assert(m.verts.skip(32)[i - 32] == m.verts[i]);
        }
    }
    match m.pen {
        GPen::Idle => {},
        GPen::AwaitingFirst => {},
        GPen::AwaitingSecond { ax, ay } => {
            let q = quad_seq(
                ax,
                ay,
                cx,
                cy,
                cx + perp_x_spec(cx - ax, cy - ay, norm_w_of(m)),
                cy + perp_y_spec(cx - ax, cy - ay, norm_w_of(m)),
                ax + perp_x_spec(cx - ax, cy - ay, norm_w_of(m)),
                ay + perp_y_spec(cx - ax, cy - ay, norm_w_of(m)),
                m.color_r,
                m.color_g,
                m.color_b,
            );
            lemma_quad_ok(
                ax,
                ay,
                cx,
                cy,
                cx + perp_x_spec(cx - ax, cy - ay, norm_w_of(m)),
                cy + perp_y_spec(cx - ax, cy - ay, norm_w_of(m)),
                ax + perp_x_spec(cx - ax, cy - ay, norm_w_of(m)),
                ay + perp_y_spec(cx - ax, cy - ay, norm_w_of(m)),
                m.color_r,
                m.color_g,
                m.color_b,
            );
            assert(m2.verts == base + q);
            assert forall|i: int| 0 <= i < m2.verts.len() implies vertex_ok(
                #[trigger] m2.verts[i],
            ) by {
                if i < base.len() {
                    assert(m2.verts[i] == base[i]);
                } else {
                    assert(m2.verts[i] == q[i - base.len()]);
                }
            }
        },
        GPen::Drawing { tx, ty, lx, ly } => {
            let q = quad_seq(
                tx,
                ty,
                cx,
                cy,
                cx + perp_x_spec(cx - tx, cy - ty, norm_w_of(m)),
                cy + perp_y_spec(cx - tx, cy - ty, norm_w_of(m)),
                lx,
                ly,
                m.color_r,
                m.color_g,
                m.color_b,
            );
            lemma_quad_ok(
                tx,
                ty,
                cx,
                cy,
                cx + perp_x_spec(cx - tx, cy - ty, norm_w_of(m)),
                cy + perp_y_spec(cx - tx, cy - ty, norm_w_of(m)),
                lx,
                ly,
                m.color_r,
                m.color_g,
                m.color_b,
            );
            assert(m2.verts == base + q);
            assert forall|i: int| 0 <= i < m2.verts.len() implies vertex_ok(
                #[trigger] m2.verts[i],
            ) by {
                if i < base.len() {
                    assert(m2.verts[i] == base[i]);
                } else {
                    assert(m2.verts[i] == q[i - base.len()]);
                }
            }
        },
    }
}

/// Refreshing settings (pressure, color, width) preserves well-formedness:
/// the buffer keeps its length and the stroke region is untouched.
pub proof fn lemma_refresh_preserves_inv(m: Model, m2: Model)
    requires
        inv(m),
        1 <= m2.width_px <= 30,
        0 <= m2.width_mod <= 1000,
        0 <= m2.color_r <= 1000,
        0 <= m2.color_g <= 1000,
        0 <= m2.color_b <= 1000,
        m2.verts == refreshed_verts(
            Model { verts: m.verts, ..m2 },
            m.cursor_x,
            m.cursor_y,
        ),
        m2.undo == m.undo,
        m2.pen == m.pen,
        m2.cursor_x == m.cursor_x,
        m2.cursor_y == m.cursor_y,
        m2.view_w == m.view_w,
        m2.view_h == m.view_h,
    ensures
        inv(m2),
        stroke_len(m2) == stroke_len(m),
{
    let inner = Model { verts: m.verts, ..m2 };
    lemma_reticle_ok(
        m.cursor_x,
        m.cursor_y,
        norm_w_of(inner),
        norm_h_of(inner),
        m2.color_r,
        m2.color_g,
        m2.color_b,
    );
    assert(m2.verts.len() == m.verts.len());
    assert forall|i: int| 0 <= i < m2.verts.len() implies vertex_ok(#[trigger] m2.verts[i]) by {
        if i >= 32 {
            assert(m2.verts[i] == m.verts.skip(32)[i - 32]);
            assert(m.verts.skip(32)[i - 32] == m.verts[i]);
        }
    }
}

/// Clear leaves a well-formed state with an empty stroke region and an
/// empty undo stack.
pub proof fn lemma_clear_preserves_inv(m: Model)
    requires
        inv(m),
    ensures
        inv(spec_clear(m)),
        stroke_len(spec_clear(m)) == 0,
        spec_clear(m).undo.len() == 0,
{
    lemma_reticle_ok(
        m.cursor_x,
        m.cursor_y,
        norm_w_of(m),
        norm_h_of(m),
        m.color_r,
        m.color_g,
        m.color_b,
    );
}

/// Undo preserves well-formedness; with a non-empty stack the buffer is
/// truncated exactly to the popped snapshot.
pub proof fn lemma_undo_preserves_inv(m: Model)
    requires
        inv(m),
    ensures
        inv(spec_undo(m)),
        m.undo.len() > 0 ==> spec_undo(m).verts.len() == m.undo.last(),
        m.undo.len() == 0 ==> spec_undo(m) == m,
{
    if m.undo.len() > 0 {
        let n = m.undo.last();
        let m2 = spec_undo(m);
        assert(32 <= n <= m.verts.len());
        assert(m2.verts.len() == n);
        assert forall|i: int| 0 <= i < m2.verts.len() implies vertex_ok(#[trigger] m2.verts[i]) by {
            assert(m2.verts[i] == m.verts[i]);
        }
        assert forall|i: int|
            0 <= i < m2.undo.len() implies 32 <= #[trigger] m2.undo[i] <= m2.verts.len() && (
        m2.undo[i] - 32) % 6 == 0 by {
            assert(m2.undo[i] == m.undo[i]);
            assert(m.undo[i] <= m.undo[m.undo.len() - 1]);
        }
    }
}

/// Pointer down preserves well-formedness and records the current buffer
/// length on top of the undo stack.
pub proof fn lemma_down_preserves_inv(m: Model)
    requires
        inv(m),
    ensures
        inv(spec_pointer_down(m)),
        stroke_len(spec_pointer_down(m)) == stroke_len(m),
{
    if m.pen is Idle {
        let m2 = spec_pointer_down(m);
        assert forall|i: int|
            0 <= i < m2.undo.len() implies 32 <= #[trigger] m2.undo[i] <= m2.verts.len() && (
        m2.undo[i] - 32) % 6 == 0 by {
            if i < m.undo.len() {
                assert(m2.undo[i] == m.undo[i]);
            } else {
                assert(m2.undo[i] == m.verts.len() as int);
            }
        }
        assert(undo_sorted(m2.undo)) by {
            assert forall|i: int, j: int|
                #![trigger m2.undo[i], m2.undo[j]]
                0 <= i <= j < m2.undo.len() implies m2.undo[i] <= m2.undo[j] by {
                if j < m.undo.len() {
                } else {
                    if i < m.undo.len() {
                        assert(m2.undo[i] == m.undo[i]);
                        assert(m.undo[i] <= m.verts.len());
                    }
                }
            }
        }
    }
}

/// The remaining events preserve well-formedness trivially.
pub proof fn lemma_simple_steps_preserve_inv(m: Model)
    requires
        inv(m),
    ensures
        inv(spec_pointer_up(m)),
        inv(spec_clear_redraw(m)),
{
}

/// The startup state is well formed.
pub proof fn lemma_new_inv(vw: int, vh: int)
    requires
        1 <= vw <= 65536,
        1 <= vh <= 65536,
    ensures
        inv(spec_new(vw, vh)),
        stroke_len(spec_new(vw, vh)) == 0,
{
    let m = spec_new(vw, vh);
    assert forall|i: int| 0 <= i < m.verts.len() implies vertex_ok(#[trigger] m.verts[i]) by {
        assert(m.verts[i] == GVertex { x: 0, y: 0, z: 0, r: 1000, g: 1000, b: 1000 });
    }
}

} // verus!
