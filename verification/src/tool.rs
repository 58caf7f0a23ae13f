//! The four pixel tools, at one cell and across the whole image.
//!
//! Both ways of running a tool go through one per-pixel formula,
//! `Tool::value_at`, so they cannot drift apart.

use crate::convolution::Convolution;
use crate::morphology::StructuringElement;
use crate::pix_grid::{clamp_index, lemma_same_cells_same_view, PixGrid};
use vstd::prelude::*;

verus! {

/// The tool in use. It carries no data: every parameter lives in `ToolVars`,
/// so that choosing another tool forgets nothing.
#[derive(Clone, Copy, Debug, PartialEq, Eq, Structural)]
pub enum Tool {
    /// Paints the pen's intensity into the source image.
    Pen,
    /// Convolves the source image into the target image.
    Conv,
    /// Copies the source image into the target image.
    Cpy,
    /// Erodes or dilates the source image into the target image.
    Boolean,
}

/// The parameters of all tools, kept side by side whichever tool is in use.
pub struct ToolVars {
    /// The pen's intensity.
    pub pen_color: u8,
    /// The convolution kernel.
    pub conv: Convolution,
    /// The structuring element of the morphological tool.
    pub element: StructuringElement,
}

impl ToolVars {
    /// The parameters are valid when the kernel is.
    pub open spec fn wf(&self) -> bool {
        self.conv.wf()
    }
}

impl Tool {
    /// The per-pixel formula: the value that this tool computes for the cell
    /// `(x, y)` from the source image and the parameters.
    pub open spec fn value_at(self, vars: &ToolVars, src: &PixGrid, x: int, y: int) -> u8 {
        match self {
            Tool::Pen => vars.pen_color,
            Tool::Cpy => src.clamped(x, y),
            Tool::Conv => vars.conv.sample_spec(src, x, y),
            Tool::Boolean => vars.element.sample_spec(src, x, y),
        }
    }

    /// Whether this tool writes into the source image; the others write into
    /// the target image.
    pub open spec fn writes_source(self) -> bool {
        self == Tool::Pen
    }

    /// Whether this tool writes into the source image.
    pub fn targets_source(&self) -> (b: bool)
        ensures
            b == self.writes_source(),
    {
        match self {
            Tool::Pen => true,
            _ => false,
        }
    }

    /// The morphological output of `src_grid` at `(ix, iy)`.
    pub fn bool_op(ix: i32, iy: i32, tool_vars: &ToolVars, src_grid: &PixGrid) -> (v: u8)
        requires
            src_grid.wf(),
        ensures
            v == tool_vars.element.sample_spec(src_grid, ix as int, iy as int),
            v == Tool::Boolean.value_at(tool_vars, src_grid, ix as int, iy as int),
    {
        tool_vars.element.sample(src_grid, ix, iy)
    }

    /// The convolution of `src_grid` at `(ix, iy)`.
    pub fn convolution(ix: u32, iy: u32, conv: &Convolution, src_grid: &PixGrid) -> (v: u8)
        requires
            conv.wf(),
            src_grid.wf(),
        ensures
            v == conv.sample_spec(src_grid, ix as int, iy as int),
    {
        conv.sample(src_grid, ix, iy)
    }

    /// The value that this tool would write for the cell `(ix, iy)` of the
    /// source image. Nothing is written.
    pub fn preview(&self, tool_vars: &ToolVars, src_grid: &PixGrid, ix: u32, iy: u32) -> (v: u8)
        requires
            tool_vars.wf(),
            src_grid.wf(),
            src_grid.in_bounds(ix as int, iy as int),
        ensures
            v == self.value_at(tool_vars, src_grid, ix as int, iy as int),
    {
        match self {
            Tool::Pen => tool_vars.pen_color,
            Tool::Cpy => src_grid.get_clamped(ix as i32, iy as i32),
            Tool::Conv => Tool::convolution(ix, iy, &tool_vars.conv, src_grid),
            Tool::Boolean => Tool::bool_op(ix as i32, iy as i32, tool_vars, src_grid),
        }
    }

    /// The block of source cells that this tool looks at or paints for the
    /// cell `(x, y)`, before it is cut down to the grid: the cell alone for the
    /// pen and for copying, the kernel's window for convolution, the three by
    /// three neighborhood for morphology. The result is `(from_x, from_y, to_x,
    /// to_y)`.
    pub open spec fn window_of(self, vars: &ToolVars, x: int, y: int) -> (int, int, int, int) {
        match self {
            Tool::Pen => (x, y, x, y),
            Tool::Cpy => (x, y, x, y),
            Tool::Conv => (
                x + vars.conv.spec_left(),
                y + vars.conv.spec_up(),
                x + vars.conv.spec_right(),
                y + vars.conv.spec_down(),
            ),
            Tool::Boolean => (x - 1, y - 1, x + 1, y + 1),
        }
    }

    /// The cells of the source image that this tool highlights for the cell
    /// `(ix, iy)`: the corners of its block, each moved to the nearest cell of
    /// the grid. The result is `(from_ix, from_iy, to_ix, to_iy)`.
    pub fn footprint(
        &self,
        tool_vars: &ToolVars,
        src_grid: &PixGrid,
        ix: u32,
        iy: u32,
    ) -> (r: (u32, u32, u32, u32))
        requires
            src_grid.wf(),
        ensures
            ({
                let win = self.window_of(tool_vars, ix as int, iy as int);
                let w = src_grid.spec_width() as int;
                let h = src_grid.spec_height() as int;
                &&& r.0 == clamp_index(win.0, w)
                &&& r.1 == clamp_index(win.1, h)
                &&& r.2 == clamp_index(win.2, w)
                &&& r.3 == clamp_index(win.3, h)
            }),
            src_grid.in_bounds(r.0 as int, r.1 as int),
            src_grid.in_bounds(r.2 as int, r.3 as int),
    {
        let x: i64 = ix as i64;
        let y: i64 = iy as i64;
        let (fx, fy, tx, ty): (i64, i64, i64, i64) = match self {
            Tool::Pen => (x, y, x, y),
            Tool::Cpy => (x, y, x, y),
            Tool::Conv => (
                x + tool_vars.conv.left() as i64,
                y + tool_vars.conv.up() as i64,
                x + tool_vars.conv.right() as i64,
                y + tool_vars.conv.down() as i64,
            ),
            Tool::Boolean => (x - 1, y - 1, x + 1, y + 1),
        };
        (
            src_grid.clamp_x(fx),
            src_grid.clamp_y(fy),
            src_grid.clamp_x(tx),
            src_grid.clamp_y(ty),
        )
    }

    /// One step of interactive use. With no cell hovered in the source image
    /// nothing happens. Otherwise the result is the value of the per-pixel
    /// formula at the hovered cell, and, if the pointer button is held, that
    /// value is written there by a bounded write: into the source image by
    /// the pen, into the target image by every other tool.
    pub fn interact(
        &self,
        tool_vars: &ToolVars,
        src_grid: &mut PixGrid,
        dst_grid: &mut PixGrid,
    ) -> (shown: Option<u8>)
        requires
            tool_vars.wf(),
            old(src_grid).wf(),
            old(dst_grid).wf(),
        ensures
            final(src_grid).wf(),
            final(dst_grid).wf(),
            final(src_grid).same_frame(old(src_grid)),
            final(dst_grid).same_frame(old(dst_grid)),
            match old(src_grid).spec_hovered_idx() {
                None => {
                    &&& shown.is_none()
                    &&& final(src_grid)@ == old(src_grid)@
                    &&& final(dst_grid)@ == old(dst_grid)@
                },
                Some((ix, iy)) => {
                    let v = self.value_at(tool_vars, old(src_grid), ix as int, iy as int);
                    &&& shown == Some(v)
                    &&& final(src_grid)@ == if old(src_grid).spec_pressed() && self.writes_source() {
                        old(src_grid).written(ix as int, iy as int, v)
                    } else {
                        old(src_grid)@
                    }
                    &&& final(dst_grid)@ == if old(src_grid).spec_pressed() && !self.writes_source() {
                        old(dst_grid).written(ix as int, iy as int, v)
                    } else {
                        old(dst_grid)@
                    }
                },
            },
    {
        match src_grid.hovered_idx() {
            None => None,
            Some((ix, iy)) => {
                let color: u8 = self.preview(tool_vars, src_grid, ix, iy);
                if src_grid.pressed() {
                    if self.targets_source() {
                        src_grid.try_set(ix as i32, iy as i32, color);
                    } else {
                        dst_grid.try_set(ix as i32, iy as i32, color);
                    }
                }
                Some(color)
            },
        }
    }

    /// The target cell `(i, j)` after this tool has run over the whole image:
    /// the value of the per-pixel formula where the source image has that
    /// cell too, and what the target held before where it has not.
    pub open spec fn swept_cell(
        self,
        vars: &ToolVars,
        src: &PixGrid,
        dst_before: &PixGrid,
        i: int,
        j: int,
    ) -> u8 {
        if src.in_bounds(i, j) {
            self.value_at(vars, src, i, j)
        } else {
            dst_before.cell(i, j)
        }
    }

    /// Writes the per-pixel formula of this tool, taken over `src_grid`, into
    /// every cell of `dst_grid` that is also a cell of `src_grid`.
    fn sweep(&self, tool_vars: &ToolVars, src_grid: &PixGrid, dst_grid: &mut PixGrid)
        requires
            tool_vars.wf(),
            src_grid.wf(),
            old(dst_grid).wf(),
        ensures
            final(dst_grid).wf(),
            final(dst_grid).same_frame(old(dst_grid)),
            forall|i: int, j: int|
                old(dst_grid).in_bounds(i, j) ==> #[trigger] final(dst_grid).cell(i, j)
                    == self.swept_cell(tool_vars, src_grid, old(dst_grid), i, j),
    {
        let w: u32 = src_grid.width();
        let h: u32 = src_grid.height();
        let mut iy: u32 = 0;
        while iy < h
            invariant
                tool_vars.wf(),
                src_grid.wf(),
                dst_grid.wf(),
                dst_grid.same_frame(old(dst_grid)),
                w == src_grid.spec_width(),
                h == src_grid.spec_height(),
                iy <= h,
                forall|i: int, j: int|
                    old(dst_grid).in_bounds(i, j) ==> #[trigger] dst_grid.cell(i, j) == (if j < iy {
                        self.swept_cell(tool_vars, src_grid, old(dst_grid), i, j)
                    } else {
                        old(dst_grid).cell(i, j)
                    }),
            decreases h - iy,
        {
            let mut ix: u32 = 0;
            while ix < w
                invariant
                    tool_vars.wf(),
                    src_grid.wf(),
                    dst_grid.wf(),
                    dst_grid.same_frame(old(dst_grid)),
                    w == src_grid.spec_width(),
                    h == src_grid.spec_height(),
                    iy < h,
                    ix <= w,
                    forall|i: int, j: int|
                        old(dst_grid).in_bounds(i, j) ==> #[trigger] dst_grid.cell(i, j) == (if j < iy || (j
                            == iy && i < ix) {
                            self.swept_cell(tool_vars, src_grid, old(dst_grid), i, j)
                        } else {
                            old(dst_grid).cell(i, j)
                        }),
                decreases w - ix,
            {
                let color: u8 = self.preview(tool_vars, src_grid, ix, iy);
                dst_grid.try_set(ix as i32, iy as i32, color);
                ix += 1;
            }
            iy += 1;
        }
    }

    /// Runs this tool over the whole image. The pen fills the entire source
    /// image with its intensity and leaves the target image alone. Every
    /// other tool leaves the source image alone and writes, into each cell of
    /// the target image that is also a cell of the source image, what the
    /// per-pixel formula gives there. Copying between images of one size
    /// makes the target image equal to the source image.
    pub fn apply_to_whole_image(
        &self,
        tool_vars: &ToolVars,
        src_grid: &mut PixGrid,
        dst_grid: &mut PixGrid,
    )
        requires
            tool_vars.wf(),
            old(src_grid).wf(),
            old(dst_grid).wf(),
        ensures
            final(src_grid).wf(),
            final(dst_grid).wf(),
            final(src_grid).same_frame(old(src_grid)),
            final(dst_grid).same_frame(old(dst_grid)),
            self.writes_source() ==> {
                &&& final(src_grid).is_uniform(tool_vars.pen_color)
                &&& final(dst_grid)@ == old(dst_grid)@
            },
            !self.writes_source() ==> {
                &&& final(src_grid)@ == old(src_grid)@
                &&& forall|i: int, j: int|
                    old(dst_grid).in_bounds(i, j) ==> #[trigger] final(dst_grid).cell(i, j)
                        == self.swept_cell(tool_vars, old(src_grid), old(dst_grid), i, j)
            },
            *self == Tool::Conv ==> forall|i: int, j: int|
                old(src_grid).in_bounds(i, j) && old(dst_grid).in_bounds(i, j)
                    ==> #[trigger] final(dst_grid).cell(i, j)
                    == tool_vars.conv.sample_spec(old(src_grid), i, j),
            *self == Tool::Cpy && old(src_grid).spec_width() == old(dst_grid).spec_width()
                && old(src_grid).spec_height() == old(dst_grid).spec_height()
                ==> final(dst_grid)@ == old(src_grid)@,
    {
        if self.targets_source() {
            src_grid.reset_to_color(tool_vars.pen_color);
        } else {
            self.sweep(tool_vars, src_grid, dst_grid);
            proof {
                if *self == Tool::Cpy && src_grid.spec_width() == dst_grid.spec_width()
                    && src_grid.spec_height() == dst_grid.spec_height() {
                    lemma_same_cells_same_view(dst_grid, src_grid);
                }
            }
        }
    }
}

} // verus!
