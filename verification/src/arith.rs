//! Facts of integer arithmetic that the grid and the kernels rest on.

use vstd::arithmetic::div_mod::lemma_fundamental_div_mod;
use vstd::prelude::*;

verus! {

/// A cell `(x, y)` of a `w` by `h` grid has a place of its own in the
/// row-major buffer.
pub proof fn lemma_cell_index(x: int, y: int, w: int, h: int)
    requires
        0 <= x < w,
        0 <= y < h,
    ensures
        0 <= y * w + x < w * h,
        y * w <= y * w + x,
{
    assert(0 <= y * w) by (nonlinear_arith)
        requires
            0 <= y,
            0 < w,
    ;
    assert((y + 1) * w <= h * w) by (nonlinear_arith)
        requires
            y + 1 <= h,
            0 < w,
    ;
    assert((y + 1) * w == y * w + w) by (nonlinear_arith);
    assert(h * w == w * h) by (nonlinear_arith);
}

/// Two different cells never share a place in the buffer.
pub proof fn lemma_cell_index_distinct(x1: int, y1: int, x2: int, y2: int, w: int)
    requires
        0 <= x1 < w,
        0 <= x2 < w,
        0 <= y1,
        0 <= y2,
        y1 * w + x1 == y2 * w + x2,
    ensures
        x1 == x2,
        y1 == y2,
{
    if y1 < y2 {
        assert((y1 + 1) * w <= y2 * w) by (nonlinear_arith)
            requires
                y1 + 1 <= y2,
                0 < w,
        ;
        assert((y1 + 1) * w == y1 * w + w) by (nonlinear_arith);
    } else if y2 < y1 {
        assert((y2 + 1) * w <= y1 * w) by (nonlinear_arith)
            requires
                y2 + 1 <= y1,
                0 < w,
        ;
        assert((y2 + 1) * w == y2 * w + w) by (nonlinear_arith);
    }
}

/// A quotient lies between two bounds when the dividend lies between their
/// multiples of the divisor.
pub proof fn lemma_quotient_between(a: int, d: int, lo: int, hi: int)
    requires
        d > 0,
        lo * d <= a < (hi + 1) * d,
    ensures
        lo <= a / d <= hi,
{
    lemma_fundamental_div_mod(a, d);
    let q = a / d;
    let r = a % d;
    assert(0 <= r < d);
    if q < lo {
        assert(d * q + d <= d * lo) by (nonlinear_arith)
            requires
                q + 1 <= lo,
                d > 0,
        ;
        assert(d * lo == lo * d) by (nonlinear_arith);
    }
    if q > hi {
        assert(d * (hi + 1) <= d * q) by (nonlinear_arith)
            requires
                hi + 1 <= q,
                d > 0,
        ;
        assert(d * (hi + 1) == (hi + 1) * d) by (nonlinear_arith);
    }
}

/// The `i`-th of `n` steps of size `step`, and the step after it, stay within
/// `n` steps.
pub proof fn lemma_step_within(i: int, n: int, step: int)
    requires
        0 <= i < n,
        0 <= step,
    ensures
        0 <= step * i,
        step * i + step <= n * step,
        i * step == step * i,
{
    assert(0 <= step * i) by (nonlinear_arith)
        requires
            0 <= i,
            0 <= step,
    ;
    assert(step * (i + 1) <= step * n) by (nonlinear_arith)
        requires
            i + 1 <= n,
            0 <= step,
    ;
    assert(step * (i + 1) == step * i + step) by (nonlinear_arith);
    assert(step * n == n * step) by (nonlinear_arith);
    assert(i * step == step * i) by (nonlinear_arith);
}

/// The far edge of a frame around the cells up to `i`: `i + 1` cells and
/// `i + 2` gaps are one more gap than `i + 1` steps of a cell and a gap.
pub proof fn lemma_frame_far_edge(i: int, side: int, gap: int)
    requires
        0 <= i,
        0 <= side,
        0 <= gap,
    ensures
        (i + 1) * side + (i + 2) * gap == (side + gap) * i + (side + gap) + gap,
        0 <= (i + 1) * side,
        0 <= (i + 2) * gap,
{
    assert((i + 1) * side + (i + 2) * gap == (side + gap) * i + (side + gap) + gap) by (nonlinear_arith);
    assert(0 <= (i + 1) * side) by (nonlinear_arith)
        requires
            0 <= i,
            0 <= side,
    ;
    assert(0 <= (i + 2) * gap) by (nonlinear_arith)
        requires
            0 <= i,
            0 <= gap,
    ;
}

} // verus!
