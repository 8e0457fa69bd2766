//! Exact fixed-point arithmetic for the engine.
//!
//! Positions and widths live in normalized device coordinates, stored as
//! integer multiples of `1 / SCALE`.  Pixel coordinates supplied by the
//! host are converted here with the conventions `x/width*2 - 1` and
//! `y/height*-2 + 1`, and pixel line widths are converted to normalized
//! widths and back with round-to-nearest division.

use vstd::arithmetic::div_mod::{
    lemma_div_is_ordered, lemma_div_multiples_vanish, lemma_div_nonincreasing,
    lemma_div_pos_is_pos, lemma_fundamental_div_mod,
};
use vstd::arithmetic::mul::lemma_mul_inequality;
use vstd::prelude::*;

verus! {

/// Fixed-point steps per unit of normalized device space.
pub const SCALE: i64 = 65536;

/// Largest viewport side length (in pixels) the engine accepts; keeping the
/// viewport below the fixed-point scale makes the width round trip exact
/// and keeps every intermediate product inside `i64`.
pub const MAX_VIEWPORT: i64 = 65536;

/// Quotient of `a` by positive `b`, truncated toward zero.
pub open spec fn div_tz(a: int, b: int) -> int {
    if a >= 0 {
        a / b
    } else {
        -((-a) / b)
    }
}

/// Quotient of nonnegative `a` by positive `b`, rounded to the nearest
/// integer (halves round up).
pub open spec fn round_div_spec(a: int, b: int) -> int {
    (2 * a + b) / (2 * b)
}

/// Division of a nonnegative dividend by a positive divisor; for such
/// arguments Rust's truncating division equals floor division.
pub fn div_nn(a: i64, b: i64) -> (q: i64)
    requires
        0 <= a,
        0 < b,
    ensures
        q == a as int / b as int,
        0 <= q <= a,
{
    proof {
        lemma_div_pos_is_pos(a as int, b as int);
        lemma_div_nonincreasing(a as int, b as int);
    }
    ((a as u64) / (b as u64)) as i64
}

/// Truncated-toward-zero division for a dividend of either sign.
pub fn div_toward_zero(a: i64, b: i64) -> (q: i64)
    requires
        0 < b,
        a != i64::MIN,
    ensures
        q == div_tz(a as int, b as int),
        a >= 0 ==> 0 <= q <= a,
        a < 0 ==> a <= q <= 0,
{
    if a >= 0 {
        div_nn(a, b)
    } else {
        let m = div_nn(-a, b);
        -m
    }
}

/// Round-to-nearest division stays between zero and the dividend.
pub proof fn lemma_round_div_spec_bounds(a: int, b: int)
    requires
        0 <= a,
        0 < b,
    ensures
        0 <= round_div_spec(a, b) <= a,
{
    lemma_div_pos_is_pos(2 * a + b, 2 * b);
    // (2a + b) / (2b) <= a, because 2a + b <= a*(2b) + (2b - 1).
    assert(2 * a + b <= a * (2 * b) + (2 * b - 1)) by (nonlinear_arith)
        requires
            a >= 0,
            b >= 1,
    ;
    lemma_div_is_ordered(2 * a + b, a * (2 * b) + (2 * b - 1), 2 * b);
    lemma_hoisted_div(a, 2 * b - 1, 2 * b);
}

/// Round-to-nearest division of nonnegative `a` by positive `b`.
pub fn round_div(a: i64, b: i64) -> (q: i64)
    requires
        0 <= a,
        0 < b,
        2 * a + b <= i64::MAX,
        2 * b <= i64::MAX,
    ensures
        q == round_div_spec(a as int, b as int),
        0 <= q,
        q <= a,
{
    proof {
        lemma_round_div_spec_bounds(a as int, b as int);
    }
    div_nn(2 * a + b, 2 * b)
}

/// For `0 <= r < d`: `(q*d + r) / d == q`.
proof fn lemma_hoisted_div(q: int, r: int, d: int)
    requires
        0 < d,
        0 <= r < d,
    ensures
        (q * d + r) / d == q,
{
    vstd::arithmetic::div_mod::lemma_fundamental_div_mod_converse(q * d + r, d, q, r);
}

/// Pixel x coordinate to fixed-point normalized device x: `x/w*2 - 1`,
/// truncated toward zero.
pub open spec fn ndc_x_spec(x: int, w: int) -> int {
    div_tz((2 * x - w) * SCALE as int, w)
}

/// Pixel y coordinate to fixed-point normalized device y: `y/h*-2 + 1`,
/// truncated toward zero.
pub open spec fn ndc_y_spec(y: int, h: int) -> int {
    div_tz((h - 2 * y) * SCALE as int, h)
}

pub fn ndc_x(x: i64, w: i64) -> (r: i64)
    requires
        0 <= x <= w,
        1 <= w <= MAX_VIEWPORT,
    ensures
        r == ndc_x_spec(x as int, w as int),
        -SCALE <= r <= SCALE,
{
    let num = 2 * x - w;
    proof {
        lemma_scaled_ratio_bounded(num as int, w as int);
    }
    div_toward_zero(num * SCALE, w)
}

pub fn ndc_y(y: i64, h: i64) -> (r: i64)
    requires
        0 <= y <= h,
        1 <= h <= MAX_VIEWPORT,
    ensures
        r == ndc_y_spec(y as int, h as int),
        -SCALE <= r <= SCALE,
{
    let num = h - 2 * y;
    proof {
        lemma_scaled_ratio_bounded(num as int, h as int);
    }
    div_toward_zero(num * SCALE, h)
}

/// Floor of the square root of a nonnegative integer, defined by counting
/// up from zero.
pub open spec fn sqrt_spec(n: nat) -> nat
    decreases n,
{
    if n == 0 {
        0
    } else {
        let p = sqrt_spec((n - 1) as nat);
        if (p + 1) * (p + 1) <= n {
            p + 1
        } else {
            p
        }
    }
}

/// `sqrt_spec(n)` is the unique `r` with `r * r <= n < (r + 1) * (r + 1)`.
pub proof fn lemma_sqrt_bounds(n: nat)
    ensures
        sqrt_spec(n) * sqrt_spec(n) <= n,
        n < (sqrt_spec(n) + 1) * (sqrt_spec(n) + 1),
    decreases n,
{
    if n > 0 {
        let p = sqrt_spec((n - 1) as nat);
        lemma_sqrt_bounds((n - 1) as nat);
        assert(p * p <= n - 1);
        assert(n - 1 < (p + 1) * (p + 1));
        if (p + 1) * (p + 1) <= n {
            assert(sqrt_spec(n) == p + 1);
            assert(n <= (p + 1) * (p + 1));
            assert((p + 1) * (p + 1) < (p + 2) * (p + 2)) by (nonlinear_arith);
            assert(n < (p + 2) * (p + 2));
            assert(sqrt_spec(n) * sqrt_spec(n) <= n);
            assert(n < (sqrt_spec(n) + 1) * (sqrt_spec(n) + 1));
        } else {
            assert(sqrt_spec(n) == p);
            assert(n < (p + 1) * (p + 1));
            assert(sqrt_spec(n) * sqrt_spec(n) <= n);
            assert(n < (sqrt_spec(n) + 1) * (sqrt_spec(n) + 1));
        }
    } else {
        assert(n == 0);
        assert(sqrt_spec(n) == 0);
        assert(sqrt_spec(n) * sqrt_spec(n) == 0) by (nonlinear_arith)
            requires
                sqrt_spec(n) == 0,
        ;
        assert((sqrt_spec(n) + 1) * (sqrt_spec(n) + 1) == 1) by (nonlinear_arith)
            requires
                sqrt_spec(n) == 0,
        ;
    }
}

/// Any `r` within the square-root bounds for `n` equals `sqrt_spec(n)`.
pub proof fn lemma_sqrt_unique(n: nat, r: nat)
    requires
        r * r <= n,
        n < (r + 1) * (r + 1),
    ensures
        r == sqrt_spec(n),
{
    let s = sqrt_spec(n);
    lemma_sqrt_bounds(n);
    if r < s {
        assert((r + 1) * (r + 1) <= s * s) by (nonlinear_arith)
            requires
                r + 1 <= s,
        ;
    }
    if s < r {
        assert((s + 1) * (s + 1) <= r * r) by (nonlinear_arith)
            requires
                s + 1 <= r,
        ;
    }
}

/// Integer square root by binary search.
pub fn isqrt(n: u64) -> (r: u64)
    requires
        n < 0x1000000000,  // 2^36
    ensures
        r as nat == sqrt_spec(n as nat),
        r * r <= n,
        n < (r + 1) * (r + 1),
        r <= 0x40000,
{
    let mut lo: u64 = 0;
    let mut hi: u64 = 0x40000;  // 2^18, and hi * hi = 2^36 > n
    assert(0x40000u64 * 0x40000u64 == 0x1000000000) by (nonlinear_arith);
    while lo + 1 < hi
        invariant
            lo < hi <= 0x40000,
            (lo * lo) as nat <= n as nat,
            (n as nat) < (hi * hi) as nat,
        decreases hi - lo,
    {
        let mid = lo + (hi - lo) / 2;
        assert(lo < mid < hi);
        proof {
            assert(mid as int * mid as int <= 0x40000 * 0x40000) by (nonlinear_arith)
                requires
                    0 <= mid as int <= 0x40000,
            ;
        }
        if mid * mid <= n {
            lo = mid;
        } else {
            hi = mid;
        }
    }
    proof {
        lemma_sqrt_unique(n as nat, lo as nat);
    }
    lo
}

/// Pixel line width to fixed-point normalized width (`px / w * 2`), rounded
/// to the nearest fixed-point step.
pub open spec fn norm_width_spec(px: int, w: int) -> int {
    round_div_spec(px * 2 * SCALE as int, w)
}

/// Fixed-point normalized width back to a pixel width, rounded to the
/// nearest pixel.
pub open spec fn px_width_spec(nw: int, w: int) -> int {
    round_div_spec(nw * w, 2 * SCALE as int)
}

pub fn px_width_to_norm(px: i64, w: i64) -> (r: i64)
    requires
        0 <= px <= 30,
        1 <= w <= MAX_VIEWPORT,
    ensures
        r == norm_width_spec(px as int, w as int),
        0 <= r <= px * 2 * SCALE,
{
    round_div(px * 2 * SCALE, w)
}

pub fn norm_width_to_px(nw: i64, w: i64) -> (r: i64)
    requires
        0 <= nw <= 30 * 2 * SCALE,
        1 <= w <= MAX_VIEWPORT,
    ensures
        r == px_width_spec(nw as int, w as int),
        0 <= r,
{
    proof {
        assert(nw as int * w as int <= 3932160 * 65536) by (nonlinear_arith)
            requires
                0 <= nw as int <= 3932160,
                0 <= w as int <= 65536,
        ;
        assert(nw as int * w as int >= 0) by (nonlinear_arith)
            requires
                0 <= nw as int,
                0 <= w as int,
        ;
    }
    round_div(nw * w, 2 * SCALE)
}

/// Effective line width in thousandths of a pixel to fixed-point
/// normalized width: `mpx / 1000 / w * 2`, rounded to nearest.
pub open spec fn norm_width_mpx_spec(mpx: int, w: int) -> int {
    round_div_spec(mpx * 2 * SCALE as int, 1000 * w)
}

/// The normalized width of an effective line width of at most 30 px never
/// exceeds the width of a 30 px line on a one-pixel viewport.
pub proof fn lemma_norm_width_mpx_bounds(mpx: int, w: int)
    requires
        0 <= mpx <= 30000,
        1 <= w <= MAX_VIEWPORT,
    ensures
        0 <= norm_width_mpx_spec(mpx, w) <= 3932160,
{
    let a = mpx * 2 * SCALE as int;
    let b = 1000 * w;
    assert(a == 131072 * mpx);
    assert(a <= 3932160 * b);
    lemma_div_pos_is_pos(2 * a + b, 2 * b);
    assert(2 * a + b <= 7864321 * b);
    lemma_div_is_ordered(2 * a + b, 7864321 * b, 2 * b);
    assert(7864321 * b == 3932160 * (2 * b) + b);
    lemma_hoisted_div(3932160, b, 2 * b);
}

/// Effective width in thousandths of a pixel to fixed-point normalized
/// width on a viewport `w` pixels across.
pub fn norm_width_mpx(mpx: i64, w: i64) -> (r: i64)
    requires
        0 <= mpx <= 30000,
        1 <= w <= MAX_VIEWPORT,
    ensures
        r == norm_width_mpx_spec(mpx as int, w as int),
        0 <= r <= 3932160,
{
    proof {
        lemma_norm_width_mpx_bounds(mpx as int, w as int);
    }
    round_div(mpx * 2 * SCALE, 1000 * w)
}

/// Scales a fixed-point normalized width by the viewport aspect ratio
/// `w / h`, giving the vertical half-width the reticle uses.
pub fn aspect_width(wfp: i64, vw: i64, vh: i64) -> (r: i64)
    requires
        0 <= wfp <= 3932160,
        1 <= vw <= MAX_VIEWPORT,
        1 <= vh <= MAX_VIEWPORT,
    ensures
        r == round_div_spec(wfp as int * vw as int, vh as int),
        0 <= r <= 0x4000000000,
{
    proof {
        assert(0 <= wfp as int * vw as int <= 3932160 * 65536) by (nonlinear_arith)
            requires
                0 <= wfp as int <= 3932160,
                0 <= vw as int <= 65536,
        ;
    }
    round_div(wfp * vw, vh)
}

/// Converting a pixel width to a normalized width and back, on the same
/// viewport, returns the original width exactly: the viewport is no wider
/// than the fixed-point scale, so the rounding error of the first
/// conversion stays below half a pixel.
pub proof fn lemma_width_round_trip(px: int, w: int)
    requires
        0 <= px,
        1 <= w <= MAX_VIEWPORT,
    ensures
        px_width_spec(norm_width_spec(px, w), w) == px,
{
    let s = SCALE as int;
    assert(s == 65536);
    let a1 = px * 2 * s;
    assert(a1 == 131072 * px);
    let num1 = 2 * a1 + w;
    let norm = num1 / (2 * w);
    assert(norm_width_spec(px, w) == norm);
    lemma_fundamental_div_mod(num1, 2 * w);
    vstd::arithmetic::div_mod::lemma_mod_division_less_than_divisor(num1, 2 * w);
    let r1 = num1 % (2 * w);
    assert(0 <= r1 < 2 * w);
    assert(num1 == 2 * w * norm + r1);
    let a2 = norm * w;
    let num2 = 2 * a2 + 2 * s;
    assert(px_width_spec(norm, w) == (2 * (norm * w) + 2 * s) / (2 * (2 * s)));
    assert(px_width_spec(norm, w) == num2 / (4 * s));
    assert(2 * a2 == 2 * w * norm) by (nonlinear_arith)
        requires
            a2 == norm * w,
    ;
    assert(num2 == num1 - r1 + 2 * s);
    assert(num2 == 262144 * px + w - r1 + 2 * s);
    let rem = 2 * s + w - r1;
    assert(num2 == 262144 * px + rem);
    assert(0 <= rem < 4 * s);
    lemma_hoisted_div(px, rem, 4 * s);
    assert(px * (4 * s) == 262144 * px);
    assert(num2 / (4 * s) == px);
}

/// The engine's effective-width conversion agrees with the pixel-width
/// conversion: a whole pixel width gives the same normalized width
/// through either, so the round trip above speaks about the engine too.
pub proof fn lemma_norm_width_mpx_agrees(px: int, w: int)
    requires
        0 <= px,
        1 <= w,
    ensures
        norm_width_mpx_spec(1000 * px, w) == norm_width_spec(px, w),
{
    let s = SCALE as int;
    assert(s == 65536);
    let a = 2 * (px * 2 * s) + w;
    assert(2 * ((1000 * px) * 2 * s) + 1000 * w == 1000 * a);
    vstd::arithmetic::div_mod::lemma_div_multiples_vanish_quotient(1000, a, 2 * w);
    assert(1000 * (2 * w) == 2 * (1000 * w));
}

/// For `|num| <= d`, the scaled quotient `num * SCALE / d` (truncated toward
/// zero) stays within one fixed-point unit.
pub proof fn lemma_scaled_ratio_bounded(num: int, d: int)
    requires
        0 < d,
        -d <= num <= d,
    ensures
        -SCALE <= div_tz(num * SCALE as int, d) <= SCALE as int,
        -d * SCALE <= num * SCALE <= d * SCALE,
{
    let s = SCALE as int;
    if num >= 0 {
        lemma_mul_inequality(num, d, s);
        lemma_div_pos_is_pos(num * s, d);
        lemma_div_is_ordered(num * s, d * s, d);
        lemma_div_multiples_vanish(s, d);
        assert(d * s == s * d) by (nonlinear_arith);
    } else {
        lemma_mul_inequality(-num, d, s);
        lemma_div_pos_is_pos((-num) * s, d);
        lemma_div_is_ordered((-num) * s, d * s, d);
        lemma_div_multiples_vanish(s, d);
        assert(d * s == s * d) by (nonlinear_arith);
        assert((-num) * s == -(num * s)) by (nonlinear_arith);
    }
}

} // verus!
