//! Segment triangulation helpers.
//!
//! A stroke segment from the previous anchor to the current point is
//! widened by a perpendicular offset vector of the current normalized
//! width.  With the segment direction `(dx, dy)` of length `len`, the
//! perpendicular unit direction is `(-dy/len, dx/len)`, so the offset is
//! `(-w*dy/len, w*dx/len)`; a zero-length segment keeps the straight-up
//! offset `(0, w)` that a zero angle would give.

use crate::fixed::{div_toward_zero, div_tz, isqrt, lemma_sqrt_bounds, sqrt_spec, SCALE};
use vstd::arithmetic::div_mod::{
    lemma_div_is_ordered, lemma_div_multiples_vanish, lemma_div_pos_is_pos,
};
use vstd::arithmetic::mul::lemma_mul_inequality;
use vstd::prelude::*;

verus! {

/// Largest fixed-point normalized width the engine can produce: a 30 px
/// line under full pressure on a one-pixel-wide viewport.
pub const NORM_WIDTH_MAX: i64 = 3932160;

/// Largest fixed-point aspect-corrected width: `NORM_WIDTH_MAX` scaled by
/// the widest viewport over the narrowest.
pub const ASPECT_WIDTH_MAX: i64 = 0x4000000000;

/// X component of the perpendicular offset for direction `(dx, dy)` and
/// normalized width `w`.
pub open spec fn perp_x_spec(dx: int, dy: int, w: int) -> int {
    let len = sqrt_spec((dx * dx + dy * dy) as nat) as int;
    if len == 0 {
        0
    } else {
        -div_tz(w * dy, len)
    }
}

/// Y component of the perpendicular offset for direction `(dx, dy)` and
/// normalized width `w`.
pub open spec fn perp_y_spec(dx: int, dy: int, w: int) -> int {
    let len = sqrt_spec((dx * dx + dy * dy) as nat) as int;
    if len == 0 {
        w
    } else {
        div_tz(w * dx, len)
    }
}

/// `|d| <= len` implies `|w*d/len| <= w` (division truncated toward zero).
proof fn lemma_scaled_component_bound(w: int, d: int, len: int)
    requires
        0 <= w,
        0 < len,
        -len <= d <= len,
    ensures
        -w <= div_tz(w * d, len) <= w,
{
    if d >= 0 {
        lemma_mul_inequality(d, len, w);
        assert(w * d == d * w) by (nonlinear_arith);
        assert(len * w == w * len) by (nonlinear_arith);
        lemma_div_is_ordered(w * d, len * w, len);
        lemma_div_multiples_vanish(w, len);
        lemma_div_pos_is_pos(w * d, len);
    } else {
        lemma_mul_inequality(-d, len, w);
        assert(w * (-d) == (-d) * w) by (nonlinear_arith);
        assert(len * w == w * len) by (nonlinear_arith);
        lemma_div_is_ordered(w * (-d), len * w, len);
        lemma_div_multiples_vanish(w, len);
        lemma_div_pos_is_pos(w * (-d), len);
        assert(w * d == -(w * (-d))) by (nonlinear_arith);
    }
}

/// Perpendicular offset of normalized width `w` for the segment direction
/// `(dx, dy)`, both in fixed-point normalized device coordinates.
pub fn perp_offset(dx: i64, dy: i64, w: i64) -> (o: (i64, i64))
    requires
        -2 * SCALE <= dx <= 2 * SCALE,
        -2 * SCALE <= dy <= 2 * SCALE,
        0 <= w <= NORM_WIDTH_MAX,
    ensures
        o.0 == perp_x_spec(dx as int, dy as int, w as int),
        o.1 == perp_y_spec(dx as int, dy as int, w as int),
        -w <= o.0 <= w,
        -w <= o.1 <= w,
{
    let ghost dxi = dx as int;
    let ghost dyi = dy as int;
    proof {
        assert(0 <= dxi * dxi <= 131072 * 131072 && 0 <= dyi * dyi <= 131072 * 131072)
            by (nonlinear_arith)
            requires
                -131072 <= dxi <= 131072,
                -131072 <= dyi <= 131072,
        ;
    }
    let sq: i64 = dx * dx + dy * dy;
    let len64: u64 = isqrt(sq as u64);
    let len: i64 = len64 as i64;
    proof {
        lemma_sqrt_bounds(sq as nat);
    }
    if len == 0 {
        (0, w)
    } else {
        let ghost l = len as int;
        proof {
            assert(-l <= dyi <= l && -l <= dxi <= l) by (nonlinear_arith)
                requires
                    dyi * dyi <= sq as int,
                    dxi * dxi <= sq as int,
                    sq as int == dxi * dxi + dyi * dyi,
                    (sq as int) < (l + 1) * (l + 1),
                    0 < l,
            ;
            assert(w as int * dyi <= 3932160 * 131072 && w as int * dyi >= -(3932160 * 131072))
                by (nonlinear_arith)
                requires
                    0 <= w as int <= 3932160,
                    -131072 <= dyi <= 131072,
            ;
            assert(w as int * dxi <= 3932160 * 131072 && w as int * dxi >= -(3932160 * 131072))
                by (nonlinear_arith)
                requires
                    0 <= w as int <= 3932160,
                    -131072 <= dxi <= 131072,
            ;
            lemma_scaled_component_bound(w as int, dyi, l);
            lemma_scaled_component_bound(w as int, dxi, l);
        }
        let ox = -div_toward_zero(w * dy, len);
        let oy = div_toward_zero(w * dx, len);
        (ox, oy)
    }
}

/// Scales a fixed-point cosine or sine `c` by a fixed-point width `w`,
/// dropping the extra scale factor.
pub fn scale_fp(c: i64, w: i64) -> (r: i64)
    requires
        -SCALE <= c <= SCALE,
        0 <= w <= ASPECT_WIDTH_MAX,
    ensures
        r == div_tz(c as int * w as int, SCALE as int),
        -w <= r <= w,
{
    proof {
        assert(-(65536 * 0x4000000000) <= c as int * w as int <= 65536 * 0x4000000000)
            by (nonlinear_arith)
            requires
                -65536 <= c as int <= 65536,
                0 <= w as int <= 0x4000000000,
        ;
        assert(c as int * w as int == w as int * c as int) by (nonlinear_arith);
        lemma_scaled_component_bound(w as int, c as int, 65536);
    }
    div_toward_zero(c * w, SCALE)
}

} // verus!
