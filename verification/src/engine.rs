//! The executable stroke geometry engine.
//!
//! `Engine` owns the vertex buffer, the undo stack, the pen state machine
//! and the drawing settings.  Every public operation is proved equal to
//! its transition function on the ghost `Model`, and to keep the state
//! well formed (`inv`).

use crate::fixed::{aspect_width, ndc_x, ndc_y, norm_width_mpx};
use crate::geom::{perp_offset, scale_fp};
use crate::model::{
    clamp_spec, inv, lemma_clear_preserves_inv, lemma_down_preserves_inv,
    lemma_move_preserves_inv, lemma_ndc_bounds, lemma_new_inv,
    lemma_refresh_preserves_inv, lemma_simple_steps_preserve_inv,
    lemma_undo_preserves_inv, norm_h_of, norm_w_of, quad_seq, refreshed_verts, reticle_seq,
    reticle_vertex, spec_adjust_width, spec_clear, spec_clear_redraw, spec_new,
    spec_pointer_down, spec_pointer_move, spec_pointer_up, spec_pressure, spec_select_color,
    spec_select_width, spec_undo, stroke_len, GPen, GVertex, Model, RETICLE_POINTS,
};
use crate::trig::{cos_fp, sin_fp};
use vstd::pervasive::VecAdditionalExecFns;
use vstd::prelude::*;

verus! {

/// One vertex of the buffer: fixed-point normalized device coordinates
/// and a color in thousandths.
#[derive(Clone, Copy, PartialEq, Eq, Structural, Debug)]
pub struct Vertex {
    pub x: i64,
    pub y: i64,
    pub z: i64,
    pub r: u16,
    pub g: u16,
    pub b: u16,
}

impl View for Vertex {
    type V = GVertex;

    open spec fn view(&self) -> GVertex {
        GVertex {
            x: self.x as int,
            y: self.y as int,
            z: self.z as int,
            r: self.r as int,
            g: self.g as int,
            b: self.b as int,
        }
    }
}

/// The buffer contents as the model sees them.
pub open spec fn verts_view(s: Seq<Vertex>) -> Seq<GVertex> {
    s.map_values(|v: Vertex| v@)
}

/// The undo stack contents as the model sees them.
pub open spec fn undo_view(s: Seq<usize>) -> Seq<int> {
    s.map_values(|n: usize| n as int)
}

#[derive(Clone, Copy)]
enum PenState {
    Idle,
    AwaitingFirst,
    AwaitingSecond { ax: i64, ay: i64 },
    Drawing { tx: i64, ty: i64, lx: i64, ly: i64 },
}

spec fn pen_view(p: PenState) -> GPen {
    match p {
        PenState::Idle => GPen::Idle,
        PenState::AwaitingFirst => GPen::AwaitingFirst,
        PenState::AwaitingSecond { ax, ay } => GPen::AwaitingSecond {
            ax: ax as int,
            ay: ay as int,
        },
        PenState::Drawing { tx, ty, lx, ly } => GPen::Drawing {
            tx: tx as int,
            ty: ty as int,
            lx: lx as int,
            ly: ly as int,
        },
    }
}

/// The stroke geometry engine.
pub struct Engine {
    verts: Vec<Vertex>,
    undo: Vec<usize>,
    pen: PenState,
    color_r: u16,
    color_g: u16,
    color_b: u16,
    width_px: i64,
    width_mod: i64,
    cursor_x: i64,
    cursor_y: i64,
    view_w: i64,
    view_h: i64,
    needs_redraw: bool,
}

impl View for Engine {
    type V = Model;

    closed spec fn view(&self) -> Model {
        Model {
            verts: verts_view(self.verts@),
            undo: undo_view(self.undo@),
            pen: pen_view(self.pen),
            color_r: self.color_r as int,
            color_g: self.color_g as int,
            color_b: self.color_b as int,
            width_px: self.width_px as int,
            width_mod: self.width_mod as int,
            cursor_x: self.cursor_x as int,
            cursor_y: self.cursor_y as int,
            view_w: self.view_w as int,
            view_h: self.view_h as int,
            needs_redraw: self.needs_redraw,
        }
    }
}

impl Engine {
    /// The engine state is well formed.
    pub open spec fn wf(&self) -> bool {
        inv(self@)
    }

    /// Creates the engine for a viewport of `view_w` by `view_h` pixels:
    /// a white reticle at the origin, no strokes, a white 5 px pen.
    pub fn new(view_w: i64, view_h: i64) -> (e: Engine)
        requires
            1 <= view_w <= 65536,
            1 <= view_h <= 65536,
        ensures
            e@ == spec_new(view_w as int, view_h as int),
            e.wf(),
    {
        let mut verts: Vec<Vertex> = Vec::new();
        let mut i: usize = 0;
        while i < RETICLE_POINTS
            invariant
                i <= 32,
                verts@.len() == i,
                forall|j: int|
                    0 <= j < i ==> verts@[j] == (Vertex {
                        x: 0i64,
                        y: 0i64,
                        z: 0i64,
                        r: 1000u16,
                        g: 1000u16,
                        b: 1000u16,
                    }),
            decreases 32 - i,
        {
            verts.push(Vertex { x: 0, y: 0, z: 0, r: 1000, g: 1000, b: 1000 });
            i += 1;
        }
        let e = Engine {
            verts,
            undo: Vec::new(),
            pen: PenState::Idle,
            color_r: 1000,
            color_g: 1000,
            color_b: 1000,
            width_px: 5,
            width_mod: 1000,
            cursor_x: 0,
            cursor_y: 0,
            view_w,
            view_h,
            needs_redraw: false,
        };
        proof {
            assert(e@.verts =~= spec_new(view_w as int, view_h as int).verts);
            assert(e@.undo =~= spec_new(view_w as int, view_h as int).undo);
            assert(e@ == spec_new(view_w as int, view_h as int));
            lemma_new_inv(view_w as int, view_h as int);
        }
        e
    }

    /// Overwrites the reticle region in place with a circle of the given
    /// radii around the current cursor, in the current color.
    fn regen_reticle(&mut self, wfp: i64, hfp: i64)
        requires
            old(self).verts@.len() >= 32,
            0 <= wfp <= 3932160,
            0 <= hfp <= 0x4000000000,
            -65536 <= old(self).cursor_x <= 65536,
            -65536 <= old(self).cursor_y <= 65536,
        ensures
            verts_view(final(self).verts@) == reticle_seq(
                old(self).cursor_x as int,
                old(self).cursor_y as int,
                wfp as int,
                hfp as int,
                old(self).color_r as int,
                old(self).color_g as int,
                old(self).color_b as int,
            ) + verts_view(old(self).verts@).skip(32),
            final(self).verts@.len() == old(self).verts@.len(),
            final(self).undo == old(self).undo,
            final(self).pen == old(self).pen,
            final(self).color_r == old(self).color_r,
            final(self).color_g == old(self).color_g,
            final(self).color_b == old(self).color_b,
            final(self).width_px == old(self).width_px,
            final(self).width_mod == old(self).width_mod,
            final(self).cursor_x == old(self).cursor_x,
            final(self).cursor_y == old(self).cursor_y,
            final(self).view_w == old(self).view_w,
            final(self).view_h == old(self).view_h,
            final(self).needs_redraw == old(self).needs_redraw,
    {
        let ghost vs0 = self.verts@;
        let ghost cx0 = self.cursor_x as int;
        let ghost cy0 = self.cursor_y as int;
        let mut i: usize = 0;
        while i < RETICLE_POINTS
            invariant
                i <= 32,
                self.verts@.len() == vs0.len() >= 32,
                forall|j: int| i <= j < vs0.len() ==> self.verts@[j] == vs0[j],
                forall|j: int|
                    0 <= j < i ==> (#[trigger] self.verts@[j])@ == reticle_vertex(
                        j,
                        cx0,
                        cy0,
                        wfp as int,
                        hfp as int,
                        self.color_r as int,
                        self.color_g as int,
                        self.color_b as int,
                    ),
                self.cursor_x as int == cx0,
                self.cursor_y as int == cy0,
                -65536 <= self.cursor_x <= 65536,
                -65536 <= self.cursor_y <= 65536,
                self.undo == old(self).undo,
                self.pen == old(self).pen,
                self.color_r == old(self).color_r,
                self.color_g == old(self).color_g,
                self.color_b == old(self).color_b,
                self.width_px == old(self).width_px,
                self.width_mod == old(self).width_mod,
                self.view_w == old(self).view_w,
                self.view_h == old(self).view_h,
                self.needs_redraw == old(self).needs_redraw,
                0 <= wfp <= 3932160,
                0 <= hfp <= 0x4000000000,
            decreases 32 - i,
        {
            let c = cos_fp(i);
            let s = sin_fp(i);
            let dx = scale_fp(c, wfp);
            let dy = scale_fp(s, hfp);
            let vx = self.cursor_x + dx;
            let vy = self.cursor_y + dy;
            self.verts.set(
                i,
                Vertex { x: vx, y: vy, z: 0, r: self.color_r, g: self.color_g, b: self.color_b },
            );
            i += 1;
        }
        proof {
            assert(verts_view(self.verts@) =~= reticle_seq(
                cx0,
                cy0,
                wfp as int,
                hfp as int,
                self.color_r as int,
                self.color_g as int,
                self.color_b as int,
            ) + verts_view(vs0).skip(32));
        }
    }

    /// Appends one quad (two triangles, six vertices) in the current color.
    fn push_quad(
        &mut self,
        p1x: i64,
        p1y: i64,
        p2x: i64,
        p2y: i64,
        p3x: i64,
        p3y: i64,
        p4x: i64,
        p4y: i64,
    )
        ensures
            verts_view(final(self).verts@) == verts_view(old(self).verts@) + quad_seq(
                p1x as int,
                p1y as int,
                p2x as int,
                p2y as int,
                p3x as int,
                p3y as int,
                p4x as int,
                p4y as int,
                old(self).color_r as int,
                old(self).color_g as int,
                old(self).color_b as int,
            ),
            final(self).verts@.len() == old(self).verts@.len() + 6,
            final(self).undo == old(self).undo,
            final(self).pen == old(self).pen,
            final(self).color_r == old(self).color_r,
            final(self).color_g == old(self).color_g,
            final(self).color_b == old(self).color_b,
            final(self).width_px == old(self).width_px,
            final(self).width_mod == old(self).width_mod,
            final(self).cursor_x == old(self).cursor_x,
            final(self).cursor_y == old(self).cursor_y,
            final(self).view_w == old(self).view_w,
            final(self).view_h == old(self).view_h,
            final(self).needs_redraw == old(self).needs_redraw,
    {
        let r = self.color_r;
        let g = self.color_g;
        let b = self.color_b;
        self.verts.push(Vertex { x: p1x, y: p1y, z: 0, r, g, b });
        self.verts.push(Vertex { x: p2x, y: p2y, z: 0, r, g, b });
        self.verts.push(Vertex { x: p3x, y: p3y, z: 0, r, g, b });
        self.verts.push(Vertex { x: p1x, y: p1y, z: 0, r, g, b });
        self.verts.push(Vertex { x: p3x, y: p3y, z: 0, r, g, b });
        self.verts.push(Vertex { x: p4x, y: p4y, z: 0, r, g, b });
        proof {
            assert(verts_view(self.verts@) =~= verts_view(old(self).verts@) + quad_seq(
                p1x as int,
                p1y as int,
                p2x as int,
                p2y as int,
                p3x as int,
                p3y as int,
                p4x as int,
                p4y as int,
                old(self).color_r as int,
                old(self).color_g as int,
                old(self).color_b as int,
            ));
        }
    }

    /// The normalized radii for the current settings.
    fn radii(&self) -> (r: (i64, i64))
        requires
            1 <= self.width_px <= 30,
            0 <= self.width_mod <= 1000,
            1 <= self.view_w <= 65536,
            1 <= self.view_h <= 65536,
        ensures
            r.0 as int == norm_w_of(self@),
            r.1 as int == norm_h_of(self@),
            0 <= r.0 <= 3932160,
            0 <= r.1 <= 0x4000000000,
    {
        proof {
            assert(0 <= self.width_px as int * self.width_mod as int <= 30000)
                by (nonlinear_arith)
                requires
                    1 <= self.width_px as int <= 30,
                    0 <= self.width_mod as int <= 1000,
            ;
        }
        let wfp = norm_width_mpx(self.width_px * self.width_mod, self.view_w);
        let hfp = aspect_width(wfp, self.view_w, self.view_h);
        (wfp, hfp)
    }

    /// A pointer sample in window pixel coordinates: the cursor and the
    /// reticle follow it, and while the pen is down it extends the stroke.
    pub fn pointer_move(&mut self, x: i64, y: i64)
        requires
            old(self).wf(),
            0 <= x <= old(self)@.view_w,
            0 <= y <= old(self)@.view_h,
        ensures
            final(self)@ == spec_pointer_move(old(self)@, x as int, y as int),
            final(self).wf(),
    {
        proof {
            lemma_ndc_bounds(old(self)@, x as int, y as int);
        }
        let cx = ndc_x(x, self.view_w);
        let cy = ndc_y(y, self.view_h);
        let (wfp, hfp) = self.radii();
        self.cursor_x = cx;
        self.cursor_y = cy;
        self.regen_reticle(wfp, hfp);
        self.needs_redraw = true;
        match self.pen {
            PenState::Idle => {},
            PenState::AwaitingFirst => {
                self.pen = PenState::AwaitingSecond { ax: cx, ay: cy };
            },
            PenState::AwaitingSecond { ax, ay } => {
                let (ox, oy) = perp_offset(cx - ax, cy - ay, wfp);
                self.push_quad(ax, ay, cx, cy, cx + ox, cy + oy, ax + ox, ay + oy);
                self.pen = PenState::Drawing { tx: cx, ty: cy, lx: cx + ox, ly: cy + oy };
            },
            PenState::Drawing { tx, ty, lx, ly } => {
                let (ox, oy) = perp_offset(cx - tx, cy - ty, wfp);
                self.push_quad(tx, ty, cx, cy, cx + ox, cy + oy, lx, ly);
                self.pen = PenState::Drawing { tx: cx, ty: cy, lx: cx + ox, ly: cy + oy };
            },
        }
        proof {
            assert(self@.verts =~= spec_pointer_move(old(self)@, x as int, y as int).verts);
            assert(self@ == spec_pointer_move(old(self)@, x as int, y as int));
            lemma_move_preserves_inv(old(self)@, x as int, y as int);
        }
    }

    /// Pointer down: from idle, starts a stroke and pushes an undo
    /// snapshot of the current buffer length.
    pub fn pointer_down(&mut self)
        requires
            old(self).wf(),
        ensures
            final(self)@ == spec_pointer_down(old(self)@),
            final(self).wf(),
    {
        match self.pen {
            PenState::Idle => {
                let n = self.verts.len();
                self.undo.push(n);
                self.pen = PenState::AwaitingFirst;
                self.needs_redraw = true;
                proof {
                    assert(self@.undo =~= old(self)@.undo.push(old(self)@.verts.len() as int));
                    assert(self@ == spec_pointer_down(old(self)@));
                    lemma_down_preserves_inv(old(self)@);
                }
            },
            _ => {
                proof {
                    assert(self@ == spec_pointer_down(old(self)@));
                }
            },
        }
    }

    /// Pointer up: back to idle; no geometry is emitted.
    pub fn pointer_up(&mut self)
        requires
            old(self).wf(),
        ensures
            final(self)@ == spec_pointer_up(old(self)@),
            final(self).wf(),
    {
        match self.pen {
            PenState::Idle => {},
            _ => {
                self.pen = PenState::Idle;
                self.needs_redraw = true;
            },
        }
        proof {
            assert(self@ == spec_pointer_up(old(self)@));
            lemma_simple_steps_preserve_inv(old(self)@);
        }
    }

    /// Regenerates the reticle for the current settings and marks the
    /// frame dirty.
    fn refresh_preview(&mut self)
        requires
            old(self).wf(),
        ensures
            final(self)@ == (Model {
                verts: refreshed_verts(old(self)@, old(self)@.cursor_x, old(self)@.cursor_y),
                needs_redraw: true,
                ..old(self)@
            }),
            final(self).wf(),
    {
        let (wfp, hfp) = self.radii();
        self.regen_reticle(wfp, hfp);
        self.needs_redraw = true;
        proof {
            assert(self@.verts =~= refreshed_verts(
                old(self)@,
                old(self)@.cursor_x,
                old(self)@.cursor_y,
            ));
            assert(self@ == (Model {
                verts: refreshed_verts(old(self)@, old(self)@.cursor_x, old(self)@.cursor_y),
                needs_redraw: true,
                ..old(self)@
            }));
            lemma_refresh_preserves_inv(old(self)@, self@);
        }
    }

    /// A pressure sample in thousandths, clamped into `[0, 1000]`.
    pub fn pressure_sample(&mut self, p: i64)
        requires
            old(self).wf(),
        ensures
            final(self)@ == spec_pressure(old(self)@, p as int),
            final(self).wf(),
    {
        let c: i64 = if p < 0 {
            0
        } else if p > 1000 {
            1000
        } else {
            p
        };
        self.width_mod = c;
        self.refresh_preview();
        proof {
            assert(self@ == spec_pressure(old(self)@, p as int));
            lemma_refresh_preserves_inv(old(self)@, self@);
        }
    }

    /// Selects the drawing color, each channel in thousandths.
    pub fn select_color(&mut self, r: u16, g: u16, b: u16)
        requires
            old(self).wf(),
            r <= 1000,
            g <= 1000,
            b <= 1000,
        ensures
            final(self)@ == spec_select_color(old(self)@, r as int, g as int, b as int),
            final(self).wf(),
    {
        self.color_r = r;
        self.color_g = g;
        self.color_b = b;
        self.refresh_preview();
        proof {
            assert(self@ == spec_select_color(old(self)@, r as int, g as int, b as int));
            lemma_refresh_preserves_inv(old(self)@, self@);
        }
    }

    /// Selects a base line width preset, in pixels.
    pub fn select_width(&mut self, px: i64)
        requires
            old(self).wf(),
            1 <= px <= 30,
        ensures
            final(self)@ == spec_select_width(old(self)@, px as int),
            final(self).wf(),
    {
        self.width_px = px;
        self.refresh_preview();
        proof {
            assert(self@ == spec_select_width(old(self)@, px as int));
            lemma_refresh_preserves_inv(old(self)@, self@);
        }
    }

    /// Adds `delta` pixels to the base width, clamped into `[1, 30]`.
    pub fn adjust_width(&mut self, delta: i64)
        requires
            old(self).wf(),
        ensures
            final(self)@ == spec_adjust_width(old(self)@, delta as int),
            final(self).wf(),
    {
        let nw: i64 = if delta >= 30 {
            30
        } else if delta <= -30 {
            1
        } else {
            let sum = self.width_px + delta;
            if sum < 1 {
                1
            } else if sum > 30 {
                30
            } else {
                sum
            }
        };
        proof {
            assert(nw as int == clamp_spec(old(self)@.width_px + delta as int, 1, 30));
        }
        self.width_px = nw;
        self.refresh_preview();
        proof {
            assert(self@ == spec_adjust_width(old(self)@, delta as int));
            lemma_refresh_preserves_inv(old(self)@, self@);
        }
    }

    /// Clear: erases all strokes, regenerates the reticle, empties the
    /// undo stack and forces the pen idle.
    pub fn clear(&mut self)
        requires
            old(self).wf(),
        ensures
            final(self)@ == spec_clear(old(self)@),
            final(self).wf(),
    {
        self.verts.truncate(RETICLE_POINTS);
        self.undo.clear();
        self.pen = PenState::Idle;
        let (wfp, hfp) = self.radii();
        self.regen_reticle(wfp, hfp);
        self.needs_redraw = true;
        proof {
            assert(self@.verts =~= spec_clear(old(self)@).verts);
            assert(self@.undo =~= spec_clear(old(self)@).undo);
            assert(self@ == spec_clear(old(self)@));
            lemma_clear_preserves_inv(old(self)@);
        }
    }

    /// Undo: pops the latest snapshot and truncates the buffer to it; on
    /// an empty stack nothing changes.
    pub fn undo(&mut self)
        requires
            old(self).wf(),
        ensures
            final(self)@ == spec_undo(old(self)@),
            final(self).wf(),
    {
        match self.undo.pop() {
            Some(n) => {
                proof {
                    assert(old(self)@.undo[old(self)@.undo.len() - 1] == n as int);
                    assert(32 <= n as int <= old(self)@.verts.len());
                }
                self.verts.truncate(n);
                self.pen = PenState::Idle;
                self.needs_redraw = true;
                proof {
                    assert(self@.verts =~= spec_undo(old(self)@).verts);
                    assert(self@.undo =~= spec_undo(old(self)@).undo);
                    assert(self@ == spec_undo(old(self)@));
                    lemma_undo_preserves_inv(old(self)@);
                }
            },
            None => {
                proof {
                    assert(self@ == spec_undo(old(self)@));
                }
            },
        }
    }

    /// The full vertex buffer, reticle region first.
    pub fn vertex_buffer(&self) -> (v: &Vec<Vertex>)
        ensures
            verts_view(v@) == self@.verts,
    {
        &self.verts
    }

    /// The reticle region always holds exactly this many vertices.
    pub fn reticle_vertex_count(&self) -> (n: usize)
        ensures
            n == 32,
    {
        RETICLE_POINTS
    }

    /// Number of vertices in the stroke region.
    pub fn stroke_vertex_count(&self) -> (n: usize)
        requires
            self.wf(),
        ensures
            n as int == stroke_len(self@),
    {
        self.verts.len() - RETICLE_POINTS
    }

    /// Whether state changed since the host last consumed the flag.
    pub fn needs_redraw(&self) -> (r: bool)
        ensures
            r == self@.needs_redraw,
    {
        self.needs_redraw
    }

    /// The host consumed the dirty flag.
    pub fn clear_redraw(&mut self)
        requires
            old(self).wf(),
        ensures
            final(self)@ == spec_clear_redraw(old(self)@),
            final(self).wf(),
    {
        self.needs_redraw = false;
        proof {
            assert(self@ == spec_clear_redraw(old(self)@));
            lemma_simple_steps_preserve_inv(old(self)@);
        }
    }

    /// Current base line width in pixels.
    pub fn line_width(&self) -> (r: i64)
        ensures
            r as int == self@.width_px,
    {
        self.width_px
    }

    /// Current pressure width modifier in thousandths.
    pub fn width_modifier(&self) -> (r: i64)
        ensures
            r as int == self@.width_mod,
    {
        self.width_mod
    }

    /// Current drawing color in thousandths per channel.
    pub fn current_color(&self) -> (c: (u16, u16, u16))
        ensures
            c.0 as int == self@.color_r,
            c.1 as int == self@.color_g,
            c.2 as int == self@.color_b,
    {
        (self.color_r, self.color_g, self.color_b)
    }

    /// Number of undo snapshots on the stack.
    pub fn undo_depth(&self) -> (n: usize)
        ensures
            n as int == self@.undo.len(),
    {
        self.undo.len()
    }
}

} // verus!
