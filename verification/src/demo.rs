//! A session of the sandbox: a source image, a target image, the tool in use
//! and the parameters of all tools.

use crate::convolution::Convolution;
use crate::morphology::{is_offset, StructuringElement};
use crate::pix_grid::{lemma_uniform_reads, PixGrid};
use crate::tool::{Tool, ToolVars};
use vstd::prelude::*;

verus! {

/// The value that both images start from and are reset to.
pub const BACKGROUND: u8 = 180;

/// A session: two images of one size, the tool in use, and the parameters.
pub struct ImgProcDemo {
    pub src_grid: PixGrid,
    pub dst_grid: PixGrid,
    pub tool: Tool,
    pub tool_vars: ToolVars,
}

impl ImgProcDemo {
    /// The invariant of a session: both images and the parameters are valid,
    /// and the two images have the same width and height.
    pub open spec fn wf(&self) -> bool {
        &&& self.src_grid.wf()
        &&& self.dst_grid.wf()
        &&& self.tool_vars.wf()
        &&& self.src_grid.spec_width() == self.dst_grid.spec_width()
        &&& self.src_grid.spec_height() == self.dst_grid.spec_height()
    }

    /// Only the tool in use may differ between the two sessions.
    pub open spec fn same_but_tool(&self, other: &ImgProcDemo) -> bool {
        &&& self.src_grid == other.src_grid
        &&& self.dst_grid == other.dst_grid
        &&& self.tool_vars == other.tool_vars
    }

    /// Both images are as they are in `other`.
    pub open spec fn same_images(&self, other: &ImgProcDemo) -> bool {
        &&& self.src_grid == other.src_grid
        &&& self.dst_grid == other.dst_grid
    }

    /// A fresh session: two images of 20 by 12 cells at the background value,
    /// drawn with cells of 16 display pixels, one black cell at `(5, 2)` of
    /// the source image; the pen in hand with intensity 50, the binomial
    /// filter, and dilation over the plus-shaped neighborhood.
    pub fn new() -> (s: ImgProcDemo)
        ensures
            s.wf(),
            s.src_grid.spec_width() == 20,
            s.src_grid.spec_height() == 12,
            s.src_grid.cell_side() == 16,
            s.dst_grid.cell_side() == 16,
            s.src_grid.cell_gap() == 3,
            s.dst_grid.cell_gap() == 3,
            s.src_grid.spec_hovered_idx() == None::<(u32, u32)>,
            s.dst_grid.spec_hovered_idx() == None::<(u32, u32)>,
            !s.src_grid.spec_pressed(),
            !s.dst_grid.spec_pressed(),
            forall|x: int, y: int|
                s.src_grid.in_bounds(x, y) ==> #[trigger] s.src_grid.cell(x, y) == (if x == 5 && y == 2 {
                    0u8
                } else {
                    BACKGROUND
                }),
            s.dst_grid.is_uniform(BACKGROUND),
            s.tool == Tool::Pen,
            s.tool_vars.pen_color == 50,
            s.tool_vars.conv.weights() == seq![1i32, 2, 1, 2, 4, 2, 1, 2, 1],
            s.tool_vars.conv.spec_scale() == 16,
            !s.tool_vars.conv.spec_zero_centered(),
            s.tool_vars.conv.spec_left() == -1,
            s.tool_vars.conv.spec_right() == 1,
            s.tool_vars.conv.spec_up() == -1,
            s.tool_vars.conv.spec_down() == 1,
            s.tool_vars.element.spec_dilation(),
            forall|dx: int, dy: int|
                is_offset(dx, dy) ==> (#[trigger] s.tool_vars.element.includes(dx, dy) <==> (dx == 0 || dy
                    == 0)),
    {
        let mut src_grid = PixGrid::new(20, 12, BACKGROUND, 16);
        let dst_grid = PixGrid::new(20, 12, BACKGROUND, 16);
        let ghost before = src_grid;
        src_grid.try_set(5, 2, 0);
        proof {
            assert forall|x: int, y: int| src_grid.in_bounds(x, y) implies #[trigger] src_grid.cell(x, y)
                == (if x == 5 && y == 2 {
                0u8
            } else {
                BACKGROUND
            }) by {
                lemma_uniform_reads(&before, BACKGROUND, x, y);
            }
        }
        ImgProcDemo {
            src_grid,
            dst_grid,
            tool: Tool::Pen,
            tool_vars: ToolVars {
                pen_color: 50,
                conv: Convolution::binomial(),
                element: StructuringElement::cross(),
            },
        }
    }

    /// Replaces the kernel by the binomial smoothing filter.
    pub fn conv_binomial(&mut self)
        requires
            old(self).wf(),
        ensures
            final(self).wf(),
            final(self).same_images(old(self)),
            final(self).tool == old(self).tool,
            final(self).tool_vars.pen_color == old(self).tool_vars.pen_color,
            final(self).tool_vars.element == old(self).tool_vars.element,
            final(self).tool_vars.conv.weights() == seq![1i32, 2, 1, 2, 4, 2, 1, 2, 1],
            final(self).tool_vars.conv.spec_scale() == 16,
            !final(self).tool_vars.conv.spec_zero_centered(),
            final(self).tool_vars.conv.spec_left() == -1,
            final(self).tool_vars.conv.spec_right() == 1,
            final(self).tool_vars.conv.spec_up() == -1,
            final(self).tool_vars.conv.spec_down() == 1,
    {
        self.tool_vars.conv = Convolution::binomial();
    }

    /// Replaces the kernel by the Sobel filter for vertical edges.
    pub fn conv_v_sobel(&mut self)
        requires
            old(self).wf(),
        ensures
            final(self).wf(),
            final(self).same_images(old(self)),
            final(self).tool == old(self).tool,
            final(self).tool_vars.pen_color == old(self).tool_vars.pen_color,
            final(self).tool_vars.element == old(self).tool_vars.element,
            final(self).tool_vars.conv.weights() == seq![
                -16i32,
                0i32,
                16i32,
                -32i32,
                0i32,
                32i32,
                -16i32,
                0i32,
                16i32,
            ],
            final(self).tool_vars.conv.spec_scale() == 16,
            final(self).tool_vars.conv.spec_zero_centered(),
            final(self).tool_vars.conv.spec_left() == -1,
            final(self).tool_vars.conv.spec_right() == 1,
            final(self).tool_vars.conv.spec_up() == -1,
            final(self).tool_vars.conv.spec_down() == 1,
    {
        self.tool_vars.conv = Convolution::v_sobel();
    }

    /// Replaces the kernel by the Sobel filter for horizontal edges.
    pub fn conv_h_sobel(&mut self)
        requires
            old(self).wf(),
        ensures
            final(self).wf(),
            final(self).same_images(old(self)),
            final(self).tool == old(self).tool,
            final(self).tool_vars.pen_color == old(self).tool_vars.pen_color,
            final(self).tool_vars.element == old(self).tool_vars.element,
            final(self).tool_vars.conv.weights() == seq![
                16i32,
                32i32,
                16i32,
                0i32,
                0i32,
                0i32,
                -16i32,
                -32i32,
                -16i32,
            ],
            final(self).tool_vars.conv.spec_scale() == 16,
            final(self).tool_vars.conv.spec_zero_centered(),
            final(self).tool_vars.conv.spec_left() == -1,
            final(self).tool_vars.conv.spec_right() == 1,
            final(self).tool_vars.conv.spec_up() == -1,
            final(self).tool_vars.conv.spec_down() == 1,
    {
        self.tool_vars.conv = Convolution::h_sobel();
    }

    /// Takes another tool in hand. Neither the images nor the parameters
    /// change.
    pub fn select_tool(&mut self, tool: Tool)
        ensures
            final(self).tool == tool,
            final(self).same_but_tool(old(self)),
    {
        self.tool = tool;
    }

    /// Sets the pen's intensity and takes the pen in hand.
    pub fn set_pen_color(&mut self, color: u8)
        ensures
            final(self).tool == Tool::Pen,
            final(self).tool_vars.pen_color == color,
            final(self).tool_vars.conv == old(self).tool_vars.conv,
            final(self).tool_vars.element == old(self).tool_vars.element,
            final(self).same_images(old(self)),
    {
        self.tool_vars.pen_color = color;
        self.tool = Tool::Pen;
    }

    /// Sets both images back to the background value.
    pub fn reset(&mut self)
        requires
            old(self).wf(),
        ensures
            final(self).wf(),
            final(self).src_grid.is_uniform(BACKGROUND),
            final(self).dst_grid.is_uniform(BACKGROUND),
            final(self).src_grid.same_frame(&old(self).src_grid),
            final(self).dst_grid.same_frame(&old(self).dst_grid),
            final(self).tool == old(self).tool,
            final(self).tool_vars == old(self).tool_vars,
    {
        self.src_grid.reset_to_color(BACKGROUND);
        self.dst_grid.reset_to_color(BACKGROUND);
    }

    /// Copies the target image over the source image.
    pub fn copy_target_to_source(&mut self)
        requires
            old(self).wf(),
        ensures
            final(self).wf(),
            final(self).src_grid@ == old(self).dst_grid@,
            final(self).src_grid.same_frame(&old(self).src_grid),
            final(self).dst_grid == old(self).dst_grid,
            final(self).tool == old(self).tool,
            final(self).tool_vars == old(self).tool_vars,
    {
        self.src_grid.copy_from(&self.dst_grid);
    }

    /// Runs the tool in use over the whole image, as
    /// `Tool::apply_to_whole_image` does.
    pub fn apply_to_whole_image(&mut self)
        requires
            old(self).wf(),
        ensures
            final(self).wf(),
            final(self).tool == old(self).tool,
            final(self).tool_vars == old(self).tool_vars,
            final(self).src_grid.same_frame(&old(self).src_grid),
            final(self).dst_grid.same_frame(&old(self).dst_grid),
            old(self).tool.writes_source() ==> {
                &&& final(self).src_grid.is_uniform(old(self).tool_vars.pen_color)
                &&& final(self).dst_grid@ == old(self).dst_grid@
            },
            !old(self).tool.writes_source() ==> {
                &&& final(self).src_grid@ == old(self).src_grid@
                &&& forall|i: int, j: int|
                    old(self).src_grid.in_bounds(i, j) ==> #[trigger] final(self).dst_grid.cell(i, j) == old(
                        self,
                    ).tool.value_at(&old(self).tool_vars, &old(self).src_grid, i, j)
            },
    {
        let tool: Tool = self.tool;
        tool.apply_to_whole_image(&self.tool_vars, &mut self.src_grid, &mut self.dst_grid);
    }

    /// One step of interactive use with the tool in use, as `Tool::interact`
    /// does: the result is the value to show at the hovered cell, if there is
    /// one.
    pub fn interact(&mut self) -> (shown: Option<u8>)
        requires
            old(self).wf(),
        ensures
            final(self).wf(),
            final(self).tool == old(self).tool,
            final(self).tool_vars == old(self).tool_vars,
            final(self).src_grid.same_frame(&old(self).src_grid),
            final(self).dst_grid.same_frame(&old(self).dst_grid),
            match old(self).src_grid.spec_hovered_idx() {
                None => {
                    &&& shown.is_none()
                    &&& final(self).src_grid@ == old(self).src_grid@
                    &&& final(self).dst_grid@ == old(self).dst_grid@
                },
                Some((ix, iy)) => {
                    let tool = old(self).tool;
                    let v = tool.value_at(&old(self).tool_vars, &old(self).src_grid, ix as int, iy as int);
                    let held = old(self).src_grid.spec_pressed();
                    &&& shown == Some(v)
                    &&& final(self).src_grid@ == if held && tool.writes_source() {
                        old(self).src_grid.written(ix as int, iy as int, v)
                    } else {
                        old(self).src_grid@
                    }
                    &&& final(self).dst_grid@ == if held && !tool.writes_source() {
                        old(self).dst_grid.written(ix as int, iy as int, v)
                    } else {
                        old(self).dst_grid@
                    }
                },
            },
    {
        let tool: Tool = self.tool;
        tool.interact(&self.tool_vars, &mut self.src_grid, &mut self.dst_grid)
    }
}

} // verus!
