//! Fixed-point cosine and sine for the reticle circle.
//!
//! The reticle is traced with a fixed number of points, so only the angles
//! `i * 2π / 32` are ever needed.  Their cosines are tabulated for the
//! first quadrant in fixed-point units of `1 / SCALE` (rounded to nearest)
//! and extended to the full circle by the usual symmetries; the sine is
//! the cosine shifted a quarter turn.

use vstd::prelude::*;

verus! {

/// Fixed-point cosine of `i * 2π / 32` for `0 <= i <= 8`.
pub open spec fn cos_base(i: int) -> int {
    if i == 0 {
        65536
    } else if i == 1 {
        64277
    } else if i == 2 {
        60547
    } else if i == 3 {
        54491
    } else if i == 4 {
        46341
    } else if i == 5 {
        36410
    } else if i == 6 {
        25080
    } else if i == 7 {
        12785
    } else {
        0
    }
}

/// Fixed-point cosine of `i * 2π / 32` for `0 <= i < 32`, by symmetry
/// around the half and quarter turns.
pub open spec fn cos_fp_spec(i: int) -> int {
    if i <= 8 {
        cos_base(i)
    } else if i <= 16 {
        -cos_base(16 - i)
    } else if i <= 24 {
        -cos_base(i - 16)
    } else {
        cos_base(32 - i)
    }
}

/// Fixed-point sine of `i * 2π / 32`: the cosine a quarter turn earlier.
pub open spec fn sin_fp_spec(i: int) -> int {
    cos_fp_spec((i + 24) % 32)
}

/// The tabulated cosine never exceeds one unit in either direction.
pub proof fn lemma_cos_fp_bounds(i: int)
    ensures
        -65536 <= cos_fp_spec(i) <= 65536,
        -65536 <= sin_fp_spec(i) <= 65536,
{
}

fn cos_base_at(i: usize) -> (r: i64)
    requires
        i <= 8,
    ensures
        r as int == cos_base(i as int),
        0 <= r <= 65536,
{
    if i == 0 {
        65536
    } else if i == 1 {
        64277
    } else if i == 2 {
        60547
    } else if i == 3 {
        54491
    } else if i == 4 {
        46341
    } else if i == 5 {
        36410
    } else if i == 6 {
        25080
    } else if i == 7 {
        12785
    } else {
        0
    }
}

/// Fixed-point cosine of `i * 2π / 32`.
pub fn cos_fp(i: usize) -> (r: i64)
    requires
        i < 32,
    ensures
        r as int == cos_fp_spec(i as int),
        -65536 <= r <= 65536,
{
    if i <= 8 {
        cos_base_at(i)
    } else if i <= 16 {
        -cos_base_at(16 - i)
    } else if i <= 24 {
        -cos_base_at(i - 16)
    } else {
        cos_base_at(32 - i)
    }
}

/// Fixed-point sine of `i * 2π / 32`.
pub fn sin_fp(i: usize) -> (r: i64)
    requires
        i < 32,
    ensures
        r as int == sin_fp_spec(i as int),
        -65536 <= r <= 65536,
{
    cos_fp((i + 24) % 32)
}

} // verus!
