//! Linear convolution: a rectangular window of weights around a cell.
//!
//! Weights are exact fractions. Each is kept as an integer count of
//! `1 / scale`, so a sample is an integer sum followed by one rounding.

use crate::arith::{lemma_cell_index, lemma_quotient_between};
use crate::pix_grid::{lemma_uniform_reads, PixGrid};
use vstd::arithmetic::div_mod::{lemma_fundamental_div_mod, lemma_fundamental_div_mod_converse};
use vstd::prelude::*;

verus! {

/// `acc / scale` rounded to the nearest integer, a half going up, and then
/// brought into `0 ..= 255`.
pub open spec fn round_to_u8(acc: int, scale: int) -> int
    recommends
        scale > 0,
{
    let q = (2 * acc + scale) / (2 * scale);
    if q < 0 {
        0
    } else if q > 255 {
        255
    } else {
        q
    }
}

/// Rounds an accumulated sum of weighted samples to a pixel value.
fn round_sum(acc: i128, scale: u32) -> (v: u8)
    requires
        scale > 0,
        -0x1_0000_0000_0000_0000_0000_0000_0000 <= acc <= 0x1_0000_0000_0000_0000_0000_0000_0000,
    ensures
        v == round_to_u8(acc as int, scale as int),
{
    let s: i128 = scale as i128;
    if 2 * acc < s {
        proof {
            if 0 <= 2 * acc + s {
                lemma_quotient_between(2 * acc + s, 2 * s, 0, 0);
            } else {
                lemma_fundamental_div_mod(2 * acc + s, 2 * s);
                let q = (2 * acc + s) / (2 * s);
                if q >= 0 {
                    assert((2 * s) * q >= 0) by (nonlinear_arith)
                        requires
                            q >= 0,
                            s > 0,
                    ;
                }
            }
        }
        0
    } else if acc >= 255 * s {
        proof {
            lemma_fundamental_div_mod(2 * acc + s, 2 * s);
            let q = (2 * acc + s) / (2 * s);
            if q < 255 {
                assert((2 * s) * q + 2 * s <= (2 * s) * 255) by (nonlinear_arith)
                    requires
                        q + 1 <= 255,
                        s > 0,
                ;
            }
        }
        255
    } else {
        proof {
            lemma_quotient_between(2 * acc + s, 2 * s, 1, 255);
        }
        ((2 * acc + s) / (2 * s)) as u8
    }
}

/// A convolution kernel: the window `left ..= right` by `up ..= down` around
/// the sampled cell, one weight per cell of the window, and the choice of a
/// mid-gray starting value.
pub struct Convolution {
    zero_centered: bool,
    left: i32,
    right: i32,
    up: i32,
    down: i32,
    mask: Vec<i32>,
    scale: u32,
}

impl Convolution {
    pub closed spec fn spec_zero_centered(&self) -> bool {
        self.zero_centered
    }

    pub closed spec fn spec_left(&self) -> i32 {
        self.left
    }

    pub closed spec fn spec_right(&self) -> i32 {
        self.right
    }

    pub closed spec fn spec_up(&self) -> i32 {
        self.up
    }

    pub closed spec fn spec_down(&self) -> i32 {
        self.down
    }

    /// The unit of the weights: a stored weight `w` stands for `w / scale`.
    pub closed spec fn spec_scale(&self) -> u32 {
        self.scale
    }

    /// The stored weights, row after row.
    pub closed spec fn weights(&self) -> Seq<i32> {
        self.mask@
    }

    /// Number of columns of the window.
    pub open spec fn cols(&self) -> int {
        self.spec_right() - self.spec_left() + 1
    }

    /// Number of rows of the window.
    pub open spec fn rows(&self) -> int {
        self.spec_down() - self.spec_up() + 1
    }

    /// The invariant of a kernel: the window holds the sampled cell, the unit
    /// is positive, and there is exactly one weight per cell of the window.
    pub open spec fn wf(&self) -> bool {
        &&& self.spec_left() <= 0 <= self.spec_right()
        &&& self.spec_up() <= 0 <= self.spec_down()
        &&& self.spec_scale() > 0
        &&& self.weights().len() == self.rows() * self.cols()
    }

    /// The stored weight that pairs with the offset `(left + col, up + row)`.
    pub open spec fn weight(&self, row: int, col: int) -> i32 {
        self.weights()[row * self.cols() + col]
    }

    /// The `k`-th weight times the value it pairs with, read with the image
    /// extended at its edges.
    pub open spec fn term(&self, grid: &PixGrid, x: int, y: int, k: int) -> int {
        self.weights()[k] * grid.clamped(
            x + self.spec_left() + k % self.cols(),
            y + self.spec_up() + k / self.cols(),
        )
    }

    /// Sum of the first `n` terms of the window around `(x, y)`.
    pub open spec fn window_sum(&self, grid: &PixGrid, x: int, y: int, n: int) -> int
        decreases n,
    {
        if n <= 0 {
            0
        } else {
            self.window_sum(grid, x, y, n - 1) + self.term(grid, x, y, n - 1)
        }
    }

    /// Sum of the first `n` stored weights.
    pub open spec fn weight_sum(&self, n: int) -> int
        decreases n,
    {
        if n <= 0 {
            0
        } else {
            self.weight_sum(n - 1) + self.weights()[n - 1]
        }
    }

    /// Whether the weights add up to one.
    pub open spec fn is_normalized(&self) -> bool {
        self.weight_sum(self.weights().len() as int) == self.spec_scale()
    }

    /// The value the accumulator starts from, in units of `1 / scale`:
    /// mid-gray for a zero-centered kernel, else nothing.
    pub open spec fn bias(&self) -> int {
        if self.spec_zero_centered() {
            127 * self.spec_scale()
        } else {
            0
        }
    }

    /// The output at `(x, y)`: bias plus the weighted window, rounded to the
    /// nearest value in `0 ..= 255`.
    pub open spec fn sample_spec(&self, grid: &PixGrid, x: int, y: int) -> u8 {
        round_to_u8(
            self.bias() + self.window_sum(grid, x, y, self.weights().len() as int),
            self.spec_scale() as int,
        ) as u8
    }

    /// A kernel from its parts, or `None` if they do not fit together: the
    /// window must hold the sampled cell, `scale` must be positive, and
    /// `mask` must hold one weight per cell of the window, row after row.
    pub fn new(
        left: i32,
        right: i32,
        up: i32,
        down: i32,
        zero_centered: bool,
        mask: Vec<i32>,
        scale: u32,
    ) -> (k: Option<Convolution>)
        ensures
            k.is_some() <==> {
                &&& left <= 0 <= right
                &&& up <= 0 <= down
                &&& scale > 0
                &&& mask@.len() == (down - up + 1) * (right - left + 1)
            },
            k matches Some(c) ==> {
                &&& c.wf()
                &&& c.spec_left() == left
                &&& c.spec_right() == right
                &&& c.spec_up() == up
                &&& c.spec_down() == down
                &&& c.spec_zero_centered() == zero_centered
                &&& c.spec_scale() == scale
                &&& c.weights() == mask@
            },
    {
        if left > 0 || right < 0 || up > 0 || down < 0 || scale == 0 {
            return None;
        }
        let cols: u64 = (right as i64 - left as i64 + 1) as u64;
        let rows: u64 = (down as i64 - up as i64 + 1) as u64;
        assert(rows * cols <= 0x1_0000_0000 * 0x1_0000_0000) by (nonlinear_arith)
            requires
                0 <= rows <= 0x1_0000_0000,
                0 <= cols <= 0x1_0000_0000,
        ;
        if mask.len() as u128 != (rows as u128) * (cols as u128) {
            return None;
        }
        Some(Convolution { zero_centered, left, right, up, down, mask, scale })
    }

    /// A three by three kernel around the sampled cell.
    fn three_by_three(zero_centered: bool, mask: Vec<i32>, scale: u32) -> (c: Convolution)
        requires
            mask@.len() == 9,
            scale > 0,
        ensures
            c.wf(),
            c.spec_left() == -1,
            c.spec_right() == 1,
            c.spec_up() == -1,
            c.spec_down() == 1,
            c.spec_zero_centered() == zero_centered,
            c.spec_scale() == scale,
            c.weights() == mask@,
    {
        let c = Convolution { zero_centered, left: -1, right: 1, up: -1, down: 1, mask, scale };
        assert(c.rows() == 3 && c.cols() == 3);
        assert(c.rows() * c.cols() == 9) by (nonlinear_arith)
            requires
                c.rows() == 3,
                c.cols() == 3,
        ;
        c
    }

    /// The binomial smoothing filter: `1 2 1 / 2 4 2 / 1 2 1`, over 16.
    pub fn binomial() -> (c: Convolution)
        ensures
            c.wf(),
            c.spec_left() == -1,
            c.spec_right() == 1,
            c.spec_up() == -1,
            c.spec_down() == 1,
            !c.spec_zero_centered(),
            c.spec_scale() == 16,
            c.weights() == seq![1i32, 2, 1, 2, 4, 2, 1, 2, 1],
    {
        let mask: Vec<i32> = vec![1, 2, 1, 2, 4, 2, 1, 2, 1];
        assert(mask@ =~= seq![1i32, 2, 1, 2, 4, 2, 1, 2, 1]);
        Self::three_by_three(false, mask, 16)
    }

    /// The Sobel filter that answers to vertical edges, zero-centered:
    /// `-1 0 1 / -2 0 2 / -1 0 1`, written in sixteenths like the binomial
    /// filter.
    pub fn v_sobel() -> (c: Convolution)
        ensures
            c.wf(),
            c.spec_left() == -1,
            c.spec_right() == 1,
            c.spec_up() == -1,
            c.spec_down() == 1,
            c.spec_zero_centered(),
            c.spec_scale() == 16,
            c.weights() == seq![-16i32, 0i32, 16i32, -32i32, 0i32, 32i32, -16i32, 0i32, 16i32],
    {
        let mask: Vec<i32> = vec![-16, 0, 16, -32, 0, 32, -16, 0, 16];
        assert(mask@ =~= seq![-16i32, 0i32, 16i32, -32i32, 0i32, 32i32, -16i32, 0i32, 16i32]);
        Self::three_by_three(true, mask, 16)
    }

    /// The Sobel filter that answers to horizontal edges, zero-centered:
    /// `1 2 1 / 0 0 0 / -1 -2 -1`, written in sixteenths like the binomial
    /// filter.
    pub fn h_sobel() -> (c: Convolution)
        ensures
            c.wf(),
            c.spec_left() == -1,
            c.spec_right() == 1,
            c.spec_up() == -1,
            c.spec_down() == 1,
            c.spec_zero_centered(),
            c.spec_scale() == 16,
            c.weights() == seq![16i32, 32i32, 16i32, 0i32, 0i32, 0i32, -16i32, -32i32, -16i32],
    {
        let mask: Vec<i32> = vec![16, 32, 16, 0, 0, 0, -16, -32, -16];
        assert(mask@ =~= seq![16i32, 32i32, 16i32, 0i32, 0i32, 0i32, -16i32, -32i32, -16i32]);
        Self::three_by_three(true, mask, 16)
    }

    #[verifier::when_used_as_spec(spec_zero_centered)]
    pub fn zero_centered(&self) -> (b: bool)
        ensures
            b == self.spec_zero_centered(),
    {
        self.zero_centered
    }

    #[verifier::when_used_as_spec(spec_left)]
    pub fn left(&self) -> (v: i32)
        ensures
            v == self.spec_left(),
    {
        self.left
    }

    #[verifier::when_used_as_spec(spec_right)]
    pub fn right(&self) -> (v: i32)
        ensures
            v == self.spec_right(),
    {
        self.right
    }

    #[verifier::when_used_as_spec(spec_up)]
    pub fn up(&self) -> (v: i32)
        ensures
            v == self.spec_up(),
    {
        self.up
    }

    #[verifier::when_used_as_spec(spec_down)]
    pub fn down(&self) -> (v: i32)
        ensures
            v == self.spec_down(),
    {
        self.down
    }

    #[verifier::when_used_as_spec(spec_scale)]
    pub fn scale(&self) -> (v: u32)
        ensures
            v == self.spec_scale(),
    {
        self.scale
    }

    /// Chooses whether the accumulator starts at mid-gray.
    pub fn set_zero_centered(&mut self, zero_centered: bool)
        ensures
            final(self).spec_zero_centered() == zero_centered,
            final(self).same_window(old(self)),
            final(self).weights() == old(self).weights(),
    {
        self.zero_centered = zero_centered;
    }

    /// Both kernels have the same window and the same unit.
    pub open spec fn same_window(&self, other: &Convolution) -> bool {
        &&& self.spec_left() == other.spec_left()
        &&& self.spec_right() == other.spec_right()
        &&& self.spec_up() == other.spec_up()
        &&& self.spec_down() == other.spec_down()
        &&& self.spec_scale() == other.spec_scale()
    }

    /// Whether `(row, col)` names a cell of the window.
    pub open spec fn in_window(&self, row: int, col: int) -> bool {
        0 <= row < self.rows() && 0 <= col < self.cols()
    }

    /// Place of a cell of the window among the stored weights.
    fn offset(&self, row: u32, col: u32) -> (idx: usize)
        requires
            self.wf(),
            self.in_window(row as int, col as int),
        ensures
            idx == row * self.cols() + col,
            idx < self.weights().len(),
    {
        let n: usize = self.mask.len();
        let cols: u64 = (self.right as i64 - self.left as i64 + 1) as u64;
        proof {
            lemma_cell_index(col as int, row as int, self.cols(), self.rows());
            assert(self.rows() * self.cols() == self.cols() * self.rows()) by (nonlinear_arith);
        }
        ((row as u64) * cols + (col as u64)) as usize
    }

    /// The stored weight at `(row, col)` of the window, or `None` outside it.
    pub fn weight_at(&self, row: u32, col: u32) -> (w: Option<i32>)
        requires
            self.wf(),
        ensures
            w == if self.in_window(row as int, col as int) {
                Some(self.weight(row as int, col as int))
            } else {
                None
            },
    {
        let cols: i64 = self.right as i64 - self.left as i64 + 1;
        let rows: i64 = self.down as i64 - self.up as i64 + 1;
        if (row as i64) < rows && (col as i64) < cols {
            let idx: usize = self.offset(row, col);
            Some(self.mask[idx])
        } else {
            None
        }
    }

    /// Stores the weight `w` at `(row, col)` if that is a cell of the window,
    /// and says whether it did. Outside the window nothing changes.
    pub fn set_weight(&mut self, row: u32, col: u32, w: i32) -> (done: bool)
        requires
            old(self).wf(),
        ensures
            final(self).wf(),
            final(self).same_window(old(self)),
            final(self).spec_zero_centered() == old(self).spec_zero_centered(),
            done == old(self).in_window(row as int, col as int),
            done ==> final(self).weights() == old(self).weights().update(
                row * old(self).cols() + col,
                w,
            ),
            !done ==> final(self).weights() == old(self).weights(),
    {
        let cols: i64 = self.right as i64 - self.left as i64 + 1;
        let rows: i64 = self.down as i64 - self.up as i64 + 1;
        if (row as i64) < rows && (col as i64) < cols {
            let idx: usize = self.offset(row, col);
            self.mask[idx] = w;
            true
        } else {
            false
        }
    }

    /// The convolution of `grid` at `(x, y)`: every weight times the value at
    /// its offset from `(x, y)`, read with the image extended at its edges,
    /// summed up from the bias, rounded and brought into `0 ..= 255`.
    pub fn sample(&self, grid: &PixGrid, x: u32, y: u32) -> (v: u8)
        requires
            self.wf(),
            grid.wf(),
        ensures
            v == self.sample_spec(grid, x as int, y as int),
    {
        let n: usize = self.mask.len();
        let cols: u64 = (self.right as i64 - self.left as i64 + 1) as u64;
        let rows: u64 = (self.down as i64 - self.up as i64 + 1) as u64;
        let x0: i64 = x as i64 + self.left as i64;
        let y0: i64 = y as i64 + self.up as i64;
        let mut acc: i128 = if self.zero_centered {
            127 * (self.scale as i128)
        } else {
            0
        };
        let mut k: usize = 0;
        let mut row: u64 = 0;
        while row < rows
            invariant
                self.wf(),
                grid.wf(),
                n == self.weights().len(),
                cols == self.cols(),
                rows == self.rows(),
                x0 == x + self.spec_left(),
                y0 == y + self.spec_up(),
                row <= rows,
                k == row * cols,
                k <= n,
                acc == self.bias() + self.window_sum(grid, x as int, y as int, k as int),
                -k * 0x80_0000_0000 <= acc - self.bias() <= k * 0x80_0000_0000,
            decreases rows - row,
        {
            let mut col: u64 = 0;
            while col < cols
                invariant
                    self.wf(),
                    grid.wf(),
                    n == self.weights().len(),
                    cols == self.cols(),
                    rows == self.rows(),
                    x0 == x + self.spec_left(),
                    y0 == y + self.spec_up(),
                    row < rows,
                    col <= cols,
                    k == row * cols + col,
                    k <= n,
                    acc == self.bias() + self.window_sum(grid, x as int, y as int, k as int),
                    -k * 0x80_0000_0000 <= acc - self.bias() <= k * 0x80_0000_0000,
                decreases cols - col,
            {
                proof {
                    lemma_cell_index(col as int, row as int, cols as int, rows as int);
                    assert(rows * cols == cols * rows) by (nonlinear_arith);
                    lemma_fundamental_div_mod_converse(k as int, cols as int, row as int, col as int);
                }
                let w: i128 = self.mask[k] as i128;
                let px: i128 = grid.get_clamped_wide(x0 + col as i64, y0 + row as i64) as i128;
                assert(-0x80_0000_0000 <= w * px <= 0x80_0000_0000) by (nonlinear_arith)
                    requires
                        -0x8000_0000 <= w <= 0x8000_0000,
                        0 <= px <= 255,
                ;
                assert(w * px == self.term(grid, x as int, y as int, k as int));
                acc = acc + w * px;
                k += 1;
                col += 1;
            }
            proof {
                assert(row * cols + cols == (row + 1) * cols) by (nonlinear_arith);
            }
            row += 1;
        }
        proof {
            if k < n {
                assert(rows * cols == n);
            }
        }
        round_sum(acc, self.scale)
    }
}

/// On a grid whose cells all hold `v`, the first `n` terms of a window add up
/// to `v` times the first `n` weights.
pub proof fn lemma_uniform_window_sum(
    kernel: &Convolution,
    grid: &PixGrid,
    v: u8,
    x: int,
    y: int,
    n: int,
)
    requires
        grid.wf(),
        grid.is_uniform(v),
    ensures
        kernel.window_sum(grid, x, y, n) == v * kernel.weight_sum(n),
    decreases n,
{
    if n > 0 {
        lemma_uniform_window_sum(kernel, grid, v, x, y, n - 1);
        let k = n - 1;
        lemma_uniform_reads(
            grid,
            v,
            x + kernel.spec_left() + k % kernel.cols(),
            y + kernel.spec_up() + k / kernel.cols(),
        );
        let w = kernel.weights()[k] as int;
        let s = kernel.weight_sum(k);
        assert(v * s + w * v == v * (s + w)) by (nonlinear_arith);
    }
}

/// Smoothing keeps a flat image flat: a kernel whose weights add up to one
/// and that is not zero-centered, applied to a grid whose cells all hold `v`,
/// gives exactly `v` at every coordinate, inside the grid or at its edges.
pub proof fn lemma_normalized_keeps_uniform(
    kernel: &Convolution,
    grid: &PixGrid,
    v: u8,
    x: int,
    y: int,
)
    requires
        kernel.wf(),
        grid.wf(),
        grid.is_uniform(v),
        kernel.is_normalized(),
        !kernel.spec_zero_centered(),
    ensures
        kernel.sample_spec(grid, x, y) == v,
{
    let n = kernel.weights().len() as int;
    let s = kernel.spec_scale() as int;
    lemma_uniform_window_sum(kernel, grid, v, x, y, n);
    let acc = kernel.window_sum(grid, x, y, n);
    assert(acc == v * s);
    assert(2 * acc + s == v * (2 * s) + s) by (nonlinear_arith)
        requires
            acc == v * s,
    ;
    assert((v + 1) * (2 * s) == v * (2 * s) + 2 * s) by (nonlinear_arith);
    lemma_quotient_between(2 * acc + s, 2 * s, v as int, v as int);
}

} // verus!
