//! Binary morphology: erosion and dilation over a three by three neighborhood.

use crate::pix_grid::{lemma_uniform_reads, PixGrid};
use vstd::prelude::*;

verus! {

/// A value above this threshold counts as "on".
pub const THRESHOLD: u8 = 127;

/// Whether the cell at `(x, y)` is "on", read with the image extended at its
/// edges.
pub open spec fn is_on(grid: &PixGrid, x: int, y: int) -> bool {
    grid.clamped(x, y) > THRESHOLD
}

/// Whether `(dx, dy)` is an offset to one of the nine cells of the
/// neighborhood.
pub open spec fn is_offset(dx: int, dy: int) -> bool {
    -1 <= dx <= 1 && -1 <= dy <= 1
}

/// Whether the offset `(dx, dy)` comes before `(ex, ey)` when the
/// neighborhood is walked row by row.
pub open spec fn walked_before(dx: int, dy: int, ex: int, ey: int) -> bool {
    dy < ey || (dy == ey && dx < ex)
}

/// A structuring element: which of the nine neighbors take part, and whether
/// they are combined by dilation or by erosion.
pub struct StructuringElement {
    mask: [bool; 9],
    dilation: bool,
}

impl StructuringElement {
    /// The nine inclusion flags, row after row.
    pub closed spec fn flags(&self) -> Seq<bool> {
        self.mask@
    }

    pub closed spec fn spec_dilation(&self) -> bool {
        self.dilation
    }

    /// Whether the neighbor at offset `(dx, dy)` takes part.
    pub open spec fn includes(&self, dx: int, dy: int) -> bool
        recommends
            is_offset(dx, dy),
    {
        self.flags()[(dy + 1) * 3 + (dx + 1)]
    }

    /// Whether every included neighbor of `(x, y)` is on.
    pub open spec fn all_on(&self, grid: &PixGrid, x: int, y: int) -> bool {
        forall|dx: int, dy: int|
            is_offset(dx, dy) && #[trigger] self.includes(dx, dy) ==> is_on(grid, x + dx, y + dy)
    }

    /// Whether some included neighbor of `(x, y)` is on.
    pub open spec fn any_on(&self, grid: &PixGrid, x: int, y: int) -> bool {
        exists|dx: int, dy: int|
            is_offset(dx, dy) && #[trigger] self.includes(dx, dy) && is_on(grid, x + dx, y + dy)
    }

    /// The output at `(x, y)`: 255 if dilation finds some included neighbor
    /// on, or erosion finds all of them on, else 0.
    pub open spec fn sample_spec(&self, grid: &PixGrid, x: int, y: int) -> u8 {
        if self.spec_dilation() {
            if self.any_on(grid, x, y) {
                255
            } else {
                0
            }
        } else {
            if self.all_on(grid, x, y) {
                255
            } else {
                0
            }
        }
    }

    /// A structuring element from its nine flags, row after row, and its mode.
    pub fn new(mask: [bool; 9], dilation: bool) -> (s: StructuringElement)
        ensures
            s.flags() == mask@,
            s.spec_dilation() == dilation,
    {
        StructuringElement { mask, dilation }
    }

    /// The plus-shaped neighborhood, combined by dilation.
    pub fn cross() -> (s: StructuringElement)
        ensures
            s.spec_dilation(),
            forall|dx: int, dy: int|
                is_offset(dx, dy) ==> (#[trigger] s.includes(dx, dy) <==> (dx == 0 || dy == 0)),
    {
        StructuringElement {
            mask: [false, true, false, true, true, true, false, true, false],
            dilation: true,
        }
    }

    /// Whether neighbors are combined by dilation; otherwise by erosion.
    #[verifier::when_used_as_spec(spec_dilation)]
    pub fn dilation(&self) -> (d: bool)
        ensures
            d == self.spec_dilation(),
    {
        self.dilation
    }

    /// Chooses dilation or erosion.
    pub fn set_dilation(&mut self, dilation: bool)
        ensures
            final(self).spec_dilation() == dilation,
            final(self).flags() == old(self).flags(),
    {
        self.dilation = dilation;
    }

    /// Whether the neighbor at offset `(dx, dy)` takes part; `false` for an
    /// offset outside the neighborhood.
    pub fn is_included(&self, dx: i32, dy: i32) -> (b: bool)
        ensures
            b == (is_offset(dx as int, dy as int) && self.includes(dx as int, dy as int)),
    {
        if dx < -1 || dx > 1 || dy < -1 || dy > 1 {
            return false;
        }
        let idx: usize = ((dy + 1) * 3 + (dx + 1)) as usize;
        self.mask[idx]
    }

    /// Includes or excludes the neighbor at offset `(dx, dy)`, and says
    /// whether that is an offset of the neighborhood. For any other offset
    /// nothing changes.
    pub fn set_included(&mut self, dx: i32, dy: i32, included: bool) -> (done: bool)
        ensures
            done == is_offset(dx as int, dy as int),
            final(self).spec_dilation() == old(self).spec_dilation(),
            done ==> final(self).flags() == old(self).flags().update(
                (dy + 1) * 3 + (dx + 1),
                included,
            ),
            !done ==> final(self).flags() == old(self).flags(),
    {
        if dx < -1 || dx > 1 || dy < -1 || dy > 1 {
            return false;
        }
        let idx: usize = ((dy + 1) * 3 + (dx + 1)) as usize;
        self.mask[idx] = included;
        true
    }

    /// The morphological output at `(x, y)`: the included neighbors are read
    /// with the image extended at its edges and compared with the threshold;
    /// erosion asks for all of them to be on, dilation for one.
    pub fn sample(&self, grid: &PixGrid, x: i32, y: i32) -> (v: u8)
        requires
            grid.wf(),
        ensures
            v == self.sample_spec(grid, x as int, y as int),
    {
        let mut b: bool = !self.dilation;
        let ghost mut hit: (int, int) = (0, 0);
        let mut dy: i64 = -1;
        while dy <= 1
            invariant
                grid.wf(),
                -1 <= dy <= 2,
                self.dilation ==> (b <==> (is_offset(hit.0, hit.1) && walked_before(
                    hit.0,
                    hit.1,
                    -1,
                    dy as int,
                ) && self.includes(hit.0, hit.1) && is_on(grid, x + hit.0, y + hit.1))),
                self.dilation && !b ==> forall|ex: int, ey: int|
                    is_offset(ex, ey) && walked_before(ex, ey, -1, dy as int)
                        && #[trigger] self.includes(ex, ey) ==> !is_on(grid, x + ex, y + ey),
                !self.dilation ==> (b <==> forall|ex: int, ey: int|
                    is_offset(ex, ey) && walked_before(ex, ey, -1, dy as int)
                        && #[trigger] self.includes(ex, ey) ==> is_on(grid, x + ex, y + ey)),
            decreases 2 - dy,
        {
            let mut dx: i64 = -1;
            while dx <= 1
                invariant
                    grid.wf(),
                    -1 <= dy <= 1,
                    -1 <= dx <= 2,
                    self.dilation ==> (b <==> (is_offset(hit.0, hit.1) && walked_before(
                        hit.0,
                        hit.1,
                        dx as int,
                        dy as int,
                    ) && self.includes(hit.0, hit.1) && is_on(grid, x + hit.0, y + hit.1))),
                    self.dilation && !b ==> forall|ex: int, ey: int|
                        is_offset(ex, ey) && walked_before(ex, ey, dx as int, dy as int)
                            && #[trigger] self.includes(ex, ey) ==> !is_on(grid, x + ex, y + ey),
                    !self.dilation ==> (b <==> forall|ex: int, ey: int|
                        is_offset(ex, ey) && walked_before(ex, ey, dx as int, dy as int)
                            && #[trigger] self.includes(ex, ey) ==> is_on(grid, x + ex, y + ey)),
                decreases 2 - dx,
            {
                let idx: usize = ((dy + 1) * 3 + (dx + 1)) as usize;
                if self.mask[idx] {
                    let on: bool = grid.get_clamped_wide(x as i64 + dx, y as i64 + dy) > THRESHOLD;
                    assert(self.includes(dx as int, dy as int));
                    if self.dilation {
                        if on && !b {
                            proof {
                                hit = (dx as int, dy as int);
                            }
                        }
                        b = b || on;
                    } else {
                        b = b && on;
                    }
                }
                dx += 1;
            }
            dy += 1;
        }
        if b {
            255
        } else {
            0
        }
    }
}

/// Erosion of an image that is white everywhere is white everywhere,
/// whichever neighbors the mask includes, the center among them or not.
pub proof fn lemma_erosion_keeps_white(
    element: &StructuringElement,
    grid: &PixGrid,
    x: int,
    y: int,
)
    requires
        grid.wf(),
        grid.is_uniform(255),
        !element.spec_dilation(),
    ensures
        element.sample_spec(grid, x, y) == 255,
{
    assert forall|dx: int, dy: int|
        is_offset(dx, dy) && #[trigger] element.includes(dx, dy) implies is_on(
        grid,
        x + dx,
        y + dy,
    ) by {
        lemma_uniform_reads(grid, 255, x + dx, y + dy);
    }
}

/// Dilation of an image that is black everywhere is black everywhere.
pub proof fn lemma_dilation_keeps_black(
    element: &StructuringElement,
    grid: &PixGrid,
    x: int,
    y: int,
)
    requires
        grid.wf(),
        grid.is_uniform(0),
        element.spec_dilation(),
    ensures
        element.sample_spec(grid, x, y) == 0,
{
    assert forall|dx: int, dy: int|
        is_offset(dx, dy) && #[trigger] element.includes(dx, dy) implies !is_on(
        grid,
        x + dx,
        y + dy,
    ) by {
        lemma_uniform_reads(grid, 0, x + dx, y + dy);
    }
}

} // verus!
