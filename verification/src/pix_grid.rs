//! The pixel buffer: a fixed-size grid of 8-bit intensities, stored row by row.

use crate::arith::{
    lemma_cell_index, lemma_cell_index_distinct, lemma_frame_far_edge, lemma_quotient_between,
    lemma_step_within,
};
use vstd::arithmetic::div_mod::{lemma_fundamental_div_mod, lemma_fundamental_div_mod_converse};
use vstd::prelude::*;

verus! {

/// The largest width or height of a grid. Cell coordinates travel as `i32`,
/// so every valid index has to fit one.
pub const MAX_SIDE: u32 = 0x7fff_ffff;

/// A signed coordinate moved to the nearest index of `0 ..= len - 1`.
pub open spec fn clamp_index(v: int, len: int) -> int {
    if v < 0 {
        0
    } else if v >= len {
        len - 1
    } else {
        v
    }
}

/// A rectangle of display pixels, measured from the top-left corner of the
/// area that the grid is drawn in.
#[derive(Clone, Copy, Debug, PartialEq, Eq, Structural)]
pub struct PixelRect {
    pub min_x: u32,
    pub min_y: u32,
    pub max_x: u32,
    pub max_y: u32,
}

/// One drawn cell: its square on the display and its gray value.
#[derive(Clone, Copy, Debug, PartialEq, Eq, Structural)]
pub struct Swatch {
    pub area: PixelRect,
    pub gray: u8,
}

/// What it takes to outline a block of cells: the frame that shows between
/// and around them, and the cells themselves, row after row, to be drawn on
/// top of it.
pub struct Outline {
    pub frame: PixelRect,
    pub cells: Vec<Swatch>,
}

/// Number of indices in `from ..= to`; none if `to` lies before `from`.
pub open spec fn span(from: int, to: int) -> int {
    if to >= from {
        to - from + 1
    } else {
        0
    }
}

/// A grid of 8-bit intensities, together with the pointer state and the cell
/// geometry that a display needs.
pub struct PixGrid {
    width: u32,
    height: u32,
    pixels: Vec<u8>,
    /// Side of one drawn cell, in display pixels.
    pub pix_size: u32,
    /// Gap between two drawn cells, in display pixels.
    pub margin: u32,
    hovered_idx: Option<(u32, u32)>,
    pressed: bool,
}

impl View for PixGrid {
    type V = Seq<u8>;

    /// The cells, row after row.
    closed spec fn view(&self) -> Seq<u8> {
        self.pixels@
    }
}

impl PixGrid {
    pub closed spec fn spec_width(&self) -> u32 {
        self.width
    }

    pub closed spec fn spec_height(&self) -> u32 {
        self.height
    }

    pub closed spec fn spec_hovered_idx(&self) -> Option<(u32, u32)> {
        self.hovered_idx
    }

    pub closed spec fn spec_pressed(&self) -> bool {
        self.pressed
    }

    /// Side of one drawn cell, in display pixels.
    pub closed spec fn cell_side(&self) -> u32 {
        self.pix_size
    }

    /// Gap between two drawn cells, in display pixels.
    pub closed spec fn cell_gap(&self) -> u32 {
        self.margin
    }

    /// The invariant of a grid: both sides are positive and at most
    /// `MAX_SIDE`, the buffer holds exactly one value per cell, and a hovered
    /// cell lies inside the grid.
    pub open spec fn wf(&self) -> bool {
        &&& 0 < self.spec_width() <= MAX_SIDE
        &&& 0 < self.spec_height() <= MAX_SIDE
        &&& self@.len() == self.spec_width() * self.spec_height()
        &&& match self.spec_hovered_idx() {
            Some((x, y)) => x < self.spec_width() && y < self.spec_height(),
            None => true,
        }
    }

    /// Whether `(x, y)` names a cell of this grid.
    pub open spec fn in_bounds(&self, x: int, y: int) -> bool {
        0 <= x < self.spec_width() && 0 <= y < self.spec_height()
    }

    /// Place of the cell `(x, y)` in the row-major buffer.
    pub open spec fn index_of(&self, x: int, y: int) -> int {
        y * self.spec_width() + x
    }

    /// The value stored at `(x, y)`.
    pub open spec fn cell(&self, x: int, y: int) -> u8
        recommends
            self.in_bounds(x, y),
    {
        self@[self.index_of(x, y)]
    }

    /// The value at `(x, y)` when the image is extended at its edges: each
    /// coordinate is first moved to the nearest valid index.
    pub open spec fn clamped(&self, x: int, y: int) -> u8 {
        self.cell(
            clamp_index(x, self.spec_width() as int),
            clamp_index(y, self.spec_height() as int),
        )
    }

    /// The cells after a bounded write of `color` at `(x, y)`: that one cell
    /// replaced if `(x, y)` lies inside the grid, else nothing changed.
    pub open spec fn written(&self, x: int, y: int, color: u8) -> Seq<u8> {
        if self.in_bounds(x, y) {
            self@.update(self.index_of(x, y), color)
        } else {
            self@
        }
    }

    /// Everything but the cell values is the same in both grids.
    pub open spec fn same_frame(&self, other: &PixGrid) -> bool {
        &&& self.spec_width() == other.spec_width()
        &&& self.spec_height() == other.spec_height()
        &&& self.cell_side() == other.cell_side()
        &&& self.cell_gap() == other.cell_gap()
        &&& self.spec_hovered_idx() == other.spec_hovered_idx()
        &&& self.spec_pressed() == other.spec_pressed()
    }

    /// Every cell holds `color`.
    pub open spec fn is_uniform(&self, color: u8) -> bool {
        forall|i: int| 0 <= i < self@.len() ==> self@[i] == color
    }

    /// Distance between the corners of two neighboring drawn cells.
    pub open spec fn pitch(&self) -> int {
        self.cell_side() + self.cell_gap()
    }

    /// Width of the drawn grid: every cell with a gap before it, and one gap
    /// more at the end.
    pub open spec fn display_width(&self) -> int {
        self.spec_width() * self.pitch() + self.cell_gap()
    }

    /// Height of the drawn grid.
    pub open spec fn display_height(&self) -> int {
        self.spec_height() * self.pitch() + self.cell_gap()
    }

    /// Whether every display coordinate of the drawn grid fits a `u32`.
    pub open spec fn fits_display(&self) -> bool {
        self.display_width() <= u32::MAX && self.display_height() <= u32::MAX
    }

    /// The square in which the cell `(ix, iy)` is drawn.
    pub open spec fn cell_area(&self, ix: int, iy: int) -> PixelRect {
        PixelRect {
            min_x: (self.pitch() * ix + self.cell_gap()) as u32,
            min_y: (self.pitch() * iy + self.cell_gap()) as u32,
            max_x: (self.pitch() * ix + self.cell_gap() + self.cell_side()) as u32,
            max_y: (self.pitch() * iy + self.cell_gap() + self.cell_side()) as u32,
        }
    }

    /// The drawn cell `(ix, iy)` with the value stored in it.
    pub open spec fn swatch_at(&self, ix: int, iy: int) -> Swatch {
        Swatch { area: self.cell_area(ix, iy), gray: self.cell(ix, iy) }
    }

    /// The frame around the cells `from_ix ..= to_ix` by `from_iy ..= to_iy`:
    /// their squares and one gap on every side.
    pub open spec fn frame_area(&self, from_ix: int, from_iy: int, to_ix: int, to_iy: int) -> PixelRect {
        PixelRect {
            min_x: (from_ix * self.pitch()) as u32,
            min_y: (from_iy * self.pitch()) as u32,
            max_x: ((to_ix + 1) * self.cell_side() + (to_ix + 2) * self.cell_gap()) as u32,
            max_y: ((to_iy + 1) * self.cell_side() + (to_iy + 2) * self.cell_gap()) as u32,
        }
    }

    /// The drawn cells of the block `from_ix ..= to_ix` by `from_iy ..= to_iy`,
    /// row after row.
    pub open spec fn block_swatches(&self, from_ix: int, from_iy: int, to_ix: int, to_iy: int) -> Seq<
        Swatch,
    > {
        let cols = span(from_ix, to_ix);
        let rows = span(from_iy, to_iy);
        Seq::new((rows * cols) as nat, |k: int| self.swatch_at(from_ix + k % cols, from_iy + k / cols))
    }

    /// The cell under a pointer that is `px` display pixels right of and `py`
    /// below the corner of the drawn grid. A pointer on the last gap counts
    /// for the last cell.
    pub open spec fn cell_under(&self, px: int, py: int) -> (u32, u32) {
        (
            clamp_index(px / self.pitch(), self.spec_width() as int) as u32,
            clamp_index(py / self.pitch(), self.spec_height() as int) as u32,
        )
    }

    /// A grid of `width` by `height` cells, all set to `init_color`, drawn
    /// with cells of `pix_size` display pixels and a margin of 3.
    pub fn new(width: u32, height: u32, init_color: u8, pix_size: u32) -> (s: Self)
        requires
            0 < width <= MAX_SIDE,
            0 < height <= MAX_SIDE,
            width * height <= usize::MAX,
        ensures
            s.wf(),
            s.spec_width() == width,
            s.spec_height() == height,
            s.is_uniform(init_color),
            s.cell_side() == pix_size,
            s.cell_gap() == 3,
            s.spec_hovered_idx() == None::<(u32, u32)>,
            !s.spec_pressed(),
    {
        let n: usize = (width as usize) * (height as usize);
        let mut pixels: Vec<u8> = Vec::with_capacity(n);
        let mut i: usize = 0;
        while i < n
            invariant
                i <= n,
                pixels@.len() == i,
                forall|k: int| 0 <= k < i ==> pixels@[k] == init_color,
            decreases n - i,
        {
            pixels.push(init_color);
            i += 1;
        }
        PixGrid { width, height, pixels, pix_size, margin: 3, hovered_idx: None, pressed: false }
    }

    #[verifier::when_used_as_spec(spec_width)]
    pub fn width(&self) -> (w: u32)
        ensures
            w == self.spec_width(),
    {
        self.width
    }

    #[verifier::when_used_as_spec(spec_height)]
    pub fn height(&self) -> (h: u32)
        ensures
            h == self.spec_height(),
    {
        self.height
    }

    /// Whether the pointer button is held down over the grid.
    #[verifier::when_used_as_spec(spec_pressed)]
    pub fn pressed(&self) -> (p: bool)
        ensures
            p == self.spec_pressed(),
    {
        self.pressed
    }

    /// The cell under the pointer, if the pointer is over the grid.
    #[verifier::when_used_as_spec(spec_hovered_idx)]
    pub fn hovered_idx(&self) -> (h: Option<(u32, u32)>)
        ensures
            h == self.spec_hovered_idx(),
    {
        self.hovered_idx
    }

    /// Place of a cell of the grid in the buffer.
    fn offset(&self, x: u32, y: u32) -> (idx: usize)
        requires
            self.wf(),
            x < self.spec_width(),
            y < self.spec_height(),
        ensures
            idx == self.index_of(x as int, y as int),
            idx < self@.len(),
    {
        let n: usize = self.pixels.len();
        proof {
            lemma_cell_index(x as int, y as int, self.width as int, self.height as int);
        }
        (y as usize) * (self.width as usize) + (x as usize)
    }

    /// The value at a cell that is known to lie inside the grid.
    pub fn get(&self, x: u32, y: u32) -> (v: u8)
        requires
            self.wf(),
            x < self.spec_width(),
            y < self.spec_height(),
        ensures
            v == self.cell(x as int, y as int),
    {
        let idx: usize = self.offset(x, y);
        self.pixels[idx]
    }

    /// A signed coordinate moved to the nearest index below `len`.
    fn clamp_to(v: i64, len: u32) -> (idx: u32)
        requires
            0 < len,
        ensures
            idx == clamp_index(v as int, len as int),
    {
        if v < 0 {
            0
        } else if v >= len as i64 {
            len - 1
        } else {
            v as u32
        }
    }

    /// The column nearest to `x`.
    pub fn clamp_x(&self, x: i64) -> (ix: u32)
        requires
            self.wf(),
        ensures
            ix == clamp_index(x as int, self.spec_width() as int),
            ix < self.spec_width(),
    {
        Self::clamp_to(x, self.width)
    }

    /// The row nearest to `y`.
    pub fn clamp_y(&self, y: i64) -> (iy: u32)
        requires
            self.wf(),
        ensures
            iy == clamp_index(y as int, self.spec_height() as int),
            iy < self.spec_height(),
    {
        Self::clamp_to(y, self.height)
    }

    /// The value at `(x, y)` with the image extended at its edges, for
    /// coordinates of any size.
    pub fn get_clamped_wide(&self, x: i64, y: i64) -> (v: u8)
        requires
            self.wf(),
        ensures
            v == self.clamped(x as int, y as int),
    {
        let cx: u32 = Self::clamp_to(x, self.width);
        let cy: u32 = Self::clamp_to(y, self.height);
        self.get(cx, cy)
    }

    /// The value at `(x, y)` with the image extended at its edges: a
    /// coordinate outside the grid reads the nearest border cell.
    pub fn get_clamped(&self, x: i32, y: i32) -> (v: u8)
        requires
            self.wf(),
        ensures
            v == self.clamped(x as int, y as int),
    {
        self.get_clamped_wide(x as i64, y as i64)
    }

    /// The value at `(x, y)`, or `None` outside the grid.
    pub fn get_o(&self, x: u32, y: u32) -> (v: Option<u8>)
        requires
            self.wf(),
        ensures
            v == if self.in_bounds(x as int, y as int) {
                Some(self.cell(x as int, y as int))
            } else {
                None
            },
    {
        if x < self.width && y < self.height {
            Some(self.get(x, y))
        } else {
            None
        }
    }

    /// Writes `color` at `(x, y)` if that is a cell of the grid, and says
    /// whether it did. Outside the grid nothing changes.
    pub fn try_set(&mut self, x: i32, y: i32, color: u8) -> (done: bool)
        requires
            old(self).wf(),
        ensures
            final(self).wf(),
            final(self).same_frame(old(self)),
            done == old(self).in_bounds(x as int, y as int),
            final(self)@ == old(self).written(x as int, y as int, color),
            done ==> final(self).cell(x as int, y as int) == color,
            !done ==> *final(self) == *old(self),
            forall|i: int, j: int|
                old(self).in_bounds(i, j) && !(i == x && j == y) ==> #[trigger] final(self).cell(i, j)
                    == old(self).cell(i, j),
    {
        if x >= 0 && (x as u32) < self.width && y >= 0 && (y as u32) < self.height {
            let idx: usize = self.offset(x as u32, y as u32);
            self.pixels[idx] = color;
            proof {
                lemma_written_cells(old(self), self, x as int, y as int, color);
            }
            return true;
        }
        false
    }

    /// Width and height of the drawn grid in display pixels, or `None` if
    /// they do not fit a `u32`.
    pub fn desired_size(&self) -> (size: Option<(u32, u32)>)
        requires
            self.wf(),
        ensures
            size.is_some() <==> self.fits_display(),
            size matches Some((w, h)) ==> w == self.display_width() && h == self.display_height(),
    {
        let pitch: u64 = self.pix_size as u64 + self.margin as u64;
        assert(self.width * pitch <= 0x7fff_ffff * 0x1_ffff_fffe) by (nonlinear_arith)
            requires
                0 <= self.width <= 0x7fff_ffff,
                0 <= pitch <= 0x1_ffff_fffe,
        ;
        assert(self.height * pitch <= 0x7fff_ffff * 0x1_ffff_fffe) by (nonlinear_arith)
            requires
                0 <= self.height <= 0x7fff_ffff,
                0 <= pitch <= 0x1_ffff_fffe,
        ;
        let w: u64 = (self.width as u64) * pitch + self.margin as u64;
        let h: u64 = (self.height as u64) * pitch + self.margin as u64;
        if w <= 0xffff_ffff && h <= 0xffff_ffff {
            Some((w as u32, h as u32))
        } else {
            None
        }
    }

    /// The square in which the cell `(ix, iy)` is drawn, filled with `color`.
    pub fn draw_rect_at_idx(&self, ix: u32, iy: u32, color: u8) -> (s: Swatch)
        requires
            self.wf(),
            self.fits_display(),
            self.in_bounds(ix as int, iy as int),
        ensures
            s == (Swatch { area: self.cell_area(ix as int, iy as int), gray: color }),
    {
        proof {
            lemma_step_within(ix as int, self.width as int, self.pitch());
            lemma_step_within(iy as int, self.height as int, self.pitch());
        }
        let pitch: u32 = self.margin + self.pix_size;
        let x: u32 = pitch * ix + self.margin;
        let y: u32 = pitch * iy + self.margin;
        Swatch {
            area: PixelRect { min_x: x, min_y: y, max_x: x + self.pix_size, max_y: y + self.pix_size },
            gray: color,
        }
    }

    /// The square of the cell `(ix, iy)` filled with `color`, or `None` if
    /// that is no cell of the grid.
    pub fn try_draw_rect_at_idx(&self, ix: i32, iy: i32, color: u8) -> (s: Option<Swatch>)
        requires
            self.wf(),
            self.fits_display(),
        ensures
            s == if self.in_bounds(ix as int, iy as int) {
                Some(Swatch { area: self.cell_area(ix as int, iy as int), gray: color })
            } else {
                None
            },
    {
        if ix >= 0 && (ix as u32) < self.width && iy >= 0 && (iy as u32) < self.height {
            Some(self.draw_rect_at_idx(ix as u32, iy as u32, color))
        } else {
            None
        }
    }

    /// The outline of the block of cells `from_ix ..= to_ix` by
    /// `from_iy ..= to_iy`: its frame, and its cells with their stored values.
    pub fn draw_outline(&self, from_ix: u32, from_iy: u32, to_ix: u32, to_iy: u32) -> (o: Outline)
        requires
            self.wf(),
            self.fits_display(),
            self.in_bounds(from_ix as int, from_iy as int),
            self.in_bounds(to_ix as int, to_iy as int),
        ensures
            o.frame == self.frame_area(from_ix as int, from_iy as int, to_ix as int, to_iy as int),
            o.cells@ == self.block_swatches(from_ix as int, from_iy as int, to_ix as int, to_iy as int),
    {
        proof {
            lemma_step_within(from_ix as int, self.width as int, self.pitch());
            lemma_step_within(from_iy as int, self.height as int, self.pitch());
            lemma_step_within(to_ix as int, self.width as int, self.pitch());
            lemma_step_within(to_iy as int, self.height as int, self.pitch());
            lemma_frame_far_edge(to_ix as int, self.cell_side() as int, self.cell_gap() as int);
            lemma_frame_far_edge(to_iy as int, self.cell_side() as int, self.cell_gap() as int);
        }
        let pitch: u32 = self.pix_size + self.margin;
        let frame = PixelRect {
            min_x: from_ix * pitch,
            min_y: from_iy * pitch,
            max_x: (to_ix + 1) * self.pix_size + (to_ix + 2) * self.margin,
            max_y: (to_iy + 1) * self.pix_size + (to_iy + 2) * self.margin,
        };
        let ghost cols: int = span(from_ix as int, to_ix as int);
        let ghost rows: int = span(from_iy as int, to_iy as int);
        let mut cells: Vec<Swatch> = Vec::new();
        if from_ix <= to_ix && from_iy <= to_iy {
            let mut iy: u32 = from_iy;
            while iy <= to_iy
                invariant
                    self.wf(),
                    self.fits_display(),
                    from_ix <= to_ix < self.spec_width(),
                    from_iy <= iy <= to_iy + 1,
                    to_iy < self.spec_height(),
                    cols == to_ix - from_ix + 1,
                    cells@.len() == (iy - from_iy) * cols,
                    forall|k: int|
                        0 <= k < cells@.len() ==> cells@[k] == self.swatch_at(
                            from_ix + k % cols,
                            from_iy + k / cols,
                        ),
                decreases to_iy + 1 - iy,
            {
                let mut ix: u32 = from_ix;
                while ix <= to_ix
                    invariant
                        self.wf(),
                        self.fits_display(),
                        from_ix <= ix <= to_ix + 1,
                        to_ix < self.spec_width(),
                        from_iy <= iy <= to_iy < self.spec_height(),
                        cols == to_ix - from_ix + 1,
                        cells@.len() == (iy - from_iy) * cols + (ix - from_ix),
                        forall|k: int|
                            0 <= k < cells@.len() ==> cells@[k] == self.swatch_at(
                                from_ix + k % cols,
                                from_iy + k / cols,
                            ),
                    decreases to_ix + 1 - ix,
                {
                    proof {
                        lemma_fundamental_div_mod_converse(
                            cells@.len() as int,
                            cols,
                            iy - from_iy,
                            ix - from_ix,
                        );
                    }
                    let color: u8 = self.get(ix, iy);
                    cells.push(self.draw_rect_at_idx(ix, iy, color));
                    ix += 1;
                }
                proof {
                    assert((iy - from_iy) * cols + cols == (iy + 1 - from_iy) * cols) by (nonlinear_arith);
                }
                iy += 1;
            }
            proof {
                assert(rows == to_iy + 1 - from_iy);
            }
        } else {
            proof {
                assert(rows * cols == 0) by (nonlinear_arith)
                    requires
                        rows == 0 || cols == 0,
                ;
            }
        }
        assert(cells@ =~= self.block_swatches(from_ix as int, from_iy as int, to_ix as int, to_iy as int));
        Outline { frame, cells }
    }

    /// The outline of a block of cells whose corners may lie outside the
    /// grid: each corner is first moved to the nearest cell.
    pub fn draw_outline_clamped(&self, from_ix: i32, from_iy: i32, to_ix: i32, to_iy: i32) -> (o: Outline)
        requires
            self.wf(),
            self.fits_display(),
        ensures
            ({
                let w = self.spec_width() as int;
                let h = self.spec_height() as int;
                let fx = clamp_index(from_ix as int, w);
                let fy = clamp_index(from_iy as int, h);
                let tx = clamp_index(to_ix as int, w);
                let ty = clamp_index(to_iy as int, h);
                &&& o.frame == self.frame_area(fx, fy, tx, ty)
                &&& o.cells@ == self.block_swatches(fx, fy, tx, ty)
            }),
    {
        let fx: u32 = Self::clamp_to(from_ix as i64, self.width);
        let fy: u32 = Self::clamp_to(from_iy as i64, self.height);
        let tx: u32 = Self::clamp_to(to_ix as i64, self.width);
        let ty: u32 = Self::clamp_to(to_iy as i64, self.height);
        self.draw_outline(fx, fy, tx, ty)
    }

    /// Takes note of the pointer and lists every cell for drawing. `pointer`
    /// is where the pointer is, in display pixels from the corner of the
    /// drawn grid, or `None` if it is not over the grid; `button_down` says
    /// whether its button is held. The cell under the pointer becomes the
    /// hovered cell. The result holds all cells, row after row.
    pub fn draw(&mut self, pointer: Option<(u32, u32)>, button_down: bool) -> (cells: Vec<Swatch>)
        requires
            old(self).wf(),
            old(self).fits_display(),
            pointer.is_some() ==> old(self).pitch() > 0,
        ensures
            final(self).wf(),
            final(self)@ == old(self)@,
            final(self).spec_width() == old(self).spec_width(),
            final(self).spec_height() == old(self).spec_height(),
            final(self).cell_side() == old(self).cell_side(),
            final(self).cell_gap() == old(self).cell_gap(),
            final(self).spec_hovered_idx() == match pointer {
                Some((px, py)) => Some(old(self).cell_under(px as int, py as int)),
                None => None,
            },
            final(self).spec_pressed() == (pointer.is_some() && button_down),
            cells@ == old(self).block_swatches(
                0,
                0,
                old(self).spec_width() - 1,
                old(self).spec_height() - 1,
            ),
    {
        match pointer {
            Some((px, py)) => {
                proof {
                    lemma_step_within(0, self.width as int, self.pitch());
                }
                let pitch: u32 = self.pix_size + self.margin;
                let ix: u32 = Self::clamp_to((px / pitch) as i64, self.width);
                let iy: u32 = Self::clamp_to((py / pitch) as i64, self.height);
                self.hovered_idx = Some((ix, iy));
                self.pressed = button_down;
            },
            None => {
                self.hovered_idx = None;
                self.pressed = false;
            },
        }
        let o: Outline = self.draw_outline(0, 0, self.width - 1, self.height - 1);
        o.cells
    }

    /// Sets the whole image to `color`.
    pub fn reset_to_color(&mut self, color: u8)
        requires
            old(self).wf(),
        ensures
            final(self).wf(),
            final(self).same_frame(old(self)),
            final(self).is_uniform(color),
    {
        let n: usize = self.pixels.len();
        let mut i: usize = 0;
        while i < n
            invariant
                i <= n,
                n == self.pixels@.len(),
                self.wf(),
                self.same_frame(old(self)),
                forall|k: int| 0 <= k < i ==> self.pixels@[k] == color,
            decreases n - i,
        {
            self.pixels[i] = color;
            i += 1;
        }
    }

    /// Takes over every cell of `other`, index for index. The two grids must
    /// have the same width and the same height: a grid of another size is
    /// ruled out by the caller, it is neither cut down nor padded here.
    pub fn copy_from(&mut self, other: &PixGrid)
        requires
            old(self).wf(),
            other.wf(),
            old(self).spec_width() == other.spec_width(),
            old(self).spec_height() == other.spec_height(),
        ensures
            final(self).wf(),
            final(self).same_frame(old(self)),
            final(self)@ == other@,
    {
        let n: usize = self.pixels.len();
        let mut i: usize = 0;
        while i < n
            invariant
                i <= n,
                n == self.pixels@.len(),
                n == other.pixels@.len(),
                self.wf(),
                self.same_frame(old(self)),
                forall|k: int| 0 <= k < i ==> self.pixels@[k] == other.pixels@[k],
            decreases n - i,
        {
            self.pixels[i] = other.pixels[i];
            i += 1;
        }
        assert(self.pixels@ =~= other.pixels@);
    }
}

/// Reading outside the grid is reading the nearest border cell: left of the
/// grid the first column, right of it the last, above it the first row, below
/// it the last.
pub proof fn lemma_clamped_extends_edges(grid: &PixGrid, x: int, y: int)
    requires
        grid.wf(),
    ensures
        x < 0 ==> grid.clamped(x, y) == grid.clamped(0, y),
        x >= grid.spec_width() ==> grid.clamped(x, y) == grid.clamped(grid.spec_width() - 1, y),
        y < 0 ==> grid.clamped(x, y) == grid.clamped(x, 0),
        y >= grid.spec_height() ==> grid.clamped(x, y) == grid.clamped(x, grid.spec_height() - 1),
        grid.in_bounds(x, y) ==> grid.clamped(x, y) == grid.cell(x, y),
{
}

/// In a grid whose cells all hold `color`, every read gives `color`, inside
/// the grid or extended past its edges.
pub proof fn lemma_uniform_reads(grid: &PixGrid, color: u8, x: int, y: int)
    requires
        grid.wf(),
        grid.is_uniform(color),
    ensures
        grid.clamped(x, y) == color,
        grid.in_bounds(x, y) ==> grid.cell(x, y) == color,
{
    let w = grid.spec_width() as int;
    let h = grid.spec_height() as int;
    lemma_cell_index(clamp_index(x, w), clamp_index(y, h), w, h);
}

/// Two grids of the same width and height that agree at every cell hold the
/// same sequence of values.
pub proof fn lemma_same_cells_same_view(a: &PixGrid, b: &PixGrid)
    requires
        a.wf(),
        b.wf(),
        a.spec_width() == b.spec_width(),
        a.spec_height() == b.spec_height(),
        forall|x: int, y: int| a.in_bounds(x, y) ==> #[trigger] a.cell(x, y) == b.cell(x, y),
    ensures
        a@ == b@,
{
    let w = a.spec_width() as int;
    let h = a.spec_height() as int;
    assert forall|i: int| 0 <= i < a@.len() implies a@[i] == b@[i] by {
        lemma_fundamental_div_mod(i, w);
        assert(h * w == w * h) by (nonlinear_arith);
        assert((h - 1 + 1) * w == h * w);
        lemma_quotient_between(i, w, 0, h - 1);
        assert(w * (i / w) == (i / w) * w) by (nonlinear_arith);
        assert(a.in_bounds(i % w, i / w));
        assert(a.cell(i % w, i / w) == b.cell(i % w, i / w));
    }
    assert(a@ =~= b@);
}

/// A bounded write inside the grid is read back at its cell, and every other
/// cell reads as before; a bounded write outside the grid changes nothing.
pub proof fn lemma_written_cells(before: &PixGrid, after: &PixGrid, x: int, y: int, color: u8)
    requires
        before.wf(),
        after.spec_width() == before.spec_width(),
        after.spec_height() == before.spec_height(),
        after@ == before.written(x, y, color),
    ensures
        before.in_bounds(x, y) ==> after.cell(x, y) == color,
        !before.in_bounds(x, y) ==> after@ == before@,
        forall|i: int, j: int|
            before.in_bounds(i, j) && !(i == x && j == y) ==> #[trigger] after.cell(i, j)
                == before.cell(i, j),
{
    let w = before.spec_width() as int;
    let h = before.spec_height() as int;
    if before.in_bounds(x, y) {
        lemma_cell_index(x, y, w, h);
        assert forall|i: int, j: int|
            before.in_bounds(i, j) && !(i == x && j == y) implies #[trigger] after.cell(i, j)
            == before.cell(i, j) by {
            lemma_cell_index(i, j, w, h);
            if before.index_of(i, j) == before.index_of(x, y) {
                lemma_cell_index_distinct(i, j, x, y, w);
            }
        }
    }
}

} // verus!
