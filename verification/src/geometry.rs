//! Where an image goes inside a rectangle of cells, and how large it is drawn.
//!
//! A cell is one column wide and two pixel rows tall: the upper row shows as
//! the cell's background, the lower row as the foreground of a half block.

use vstd::prelude::*;

verus! {

/// A rectangle of terminal cells, given by its top-left cell and its extent.
#[derive(Clone, Copy, Debug, PartialEq, Eq, Structural)]
pub struct Region {
    pub left: u16,
    pub top: u16,
    pub width: u16,
    pub height: u16,
}

/// The size an image is scaled to, in pixels, and the cell at which its
/// top-left corner is drawn.
#[derive(Clone, Copy, Debug, PartialEq, Eq, Structural)]
pub struct Layout {
    pub pixel_width: u32,
    pub pixel_height: u32,
    pub offset_x: u32,
    pub offset_y: u32,
}

/// The largest even number that is at most `n`.
pub open spec fn even_floor(n: int) -> int {
    n - n % 2
}

/// The smaller of two numbers.
pub open spec fn lesser(a: int, b: int) -> int {
    if a <= b {
        a
    } else {
        b
    }
}

/// The larger of two numbers.
pub open spec fn greater(a: int, b: int) -> int {
    if a >= b {
        a
    } else {
        b
    }
}

/// The pixel width an image of native width `image_width` is scaled to.
pub open spec fn target_width(region: Region, image_width: int, upscale: bool) -> int {
    if upscale {
        even_floor(region.width as int)
    } else {
        even_floor(lesser(region.width as int, image_width))
    }
}

/// The pixel height an image of native height `image_height` is scaled to.
pub open spec fn target_height(region: Region, image_height: int, upscale: bool) -> int {
    if upscale {
        even_floor(2 * region.height)
    } else {
        even_floor(lesser(2 * region.height, image_height))
    }
}

/// The column of the leftmost cell of an image `pixel_width` pixels wide.
pub open spec fn centered_column(region: Region, pixel_width: int) -> int {
    region.left + (region.width - pixel_width) / 2
}

/// The row of the topmost cell of an image `pixel_height` pixels tall: half
/// the pixel rows left over, counted in cells.
pub open spec fn centered_row(region: Region, pixel_height: int) -> int {
    region.top + (2 * region.height - pixel_height) / 2 / 2
}

impl Region {
    /// Whether the cell in column `x` and row `y` lies in the rectangle.
    pub open spec fn contains(self, x: int, y: int) -> bool {
        &&& self.left <= x < self.left + self.width
        &&& self.top <= y < self.top + self.height
    }

    /// Whether every cell of this rectangle is a cell of `outer`.
    pub open spec fn within(self, outer: Region) -> bool {
        &&& outer.left <= self.left
        &&& self.left + self.width <= outer.left + outer.width
        &&& outer.top <= self.top
        &&& self.top + self.height <= outer.top + outer.height
    }

    /// Whether the two rectangles share a cell.
    pub open spec fn overlaps(self, other: Region) -> bool {
        &&& greater(self.left as int, other.left as int) < lesser(
            self.left + self.width,
            other.left + other.width,
        )
        &&& greater(self.top as int, other.top as int) < lesser(
            self.top + self.height,
            other.top + other.height,
        )
    }

    /// The cells of this rectangle that `bounds` has too; where there are
    /// none, the empty rectangle at the corner of `bounds`.
    pub open spec fn clipped(self, bounds: Region) -> Region {
        if self.overlaps(bounds) {
            let left = greater(self.left as int, bounds.left as int);
            let top = greater(self.top as int, bounds.top as int);
            let right = lesser(self.left + self.width, bounds.left + bounds.width);
            let bottom = lesser(self.top + self.height, bounds.top + bounds.height);
            Region {
                left: left as u16,
                top: top as u16,
                width: (right - left) as u16,
                height: (bottom - top) as u16,
            }
        } else {
            Region { left: bounds.left, top: bounds.top, width: 0, height: 0 }
        }
    }

    /// Clips this rectangle to `bounds`: what is left lies in both, and holds
    /// every cell that both have.
    pub fn intersect(self, bounds: Region) -> (clipped: Region)
        ensures
            clipped == self.clipped(bounds),
            clipped.within(bounds),
            forall|x: int, y: int|
                #[trigger] clipped.contains(x, y) <==> self.contains(x, y) && bounds.contains(x, y),
    {
        let left: u32 = if self.left >= bounds.left {
            self.left as u32
        } else {
            bounds.left as u32
        };
        let top: u32 = if self.top >= bounds.top {
            self.top as u32
        } else {
            bounds.top as u32
        };
        let own_right: u32 = self.left as u32 + self.width as u32;
        let own_bottom: u32 = self.top as u32 + self.height as u32;
        let bounds_right: u32 = bounds.left as u32 + bounds.width as u32;
        let bounds_bottom: u32 = bounds.top as u32 + bounds.height as u32;
        let right: u32 = if own_right <= bounds_right {
            own_right
        } else {
            bounds_right
        };
        let bottom: u32 = if own_bottom <= bounds_bottom {
            own_bottom
        } else {
            bounds_bottom
        };
        if left < right && top < bottom {
            Region {
                left: left as u16,
                top: top as u16,
                width: (right - left) as u16,
                height: (bottom - top) as u16,
            }
        } else {
            Region { left: bounds.left, top: bounds.top, width: 0, height: 0 }
        }
    }
}

impl Layout {
    /// The number of cell rows the image fills.
    pub open spec fn rows(self) -> int {
        self.pixel_height as int / 2
    }

    /// Whether the image fills the cell in column `x` and row `y`.
    pub open spec fn covers(self, x: int, y: int) -> bool {
        &&& self.offset_x <= x < self.offset_x + self.pixel_width
        &&& self.offset_y <= y < self.offset_y + self.rows()
    }

    /// The layout that `compute_layout` gives.
    pub open spec fn of(region: Region, image_width: int, image_height: int, upscale: bool) -> Layout {
        let w = target_width(region, image_width, upscale);
        let h = target_height(region, image_height, upscale);
        Layout {
            pixel_width: w as u32,
            pixel_height: h as u32,
            offset_x: centered_column(region, w) as u32,
            offset_y: centered_row(region, h) as u32,
        }
    }
}

/// Places an image of `image_width` by `image_height` pixels in `region`.
///
/// Without `upscale` the image is never enlarged: each target dimension is
/// the smaller of what the region offers and what the image has. With
/// `upscale` the target is what the region offers, whatever the image's own
/// size. Both dimensions are then rounded down to an even number, and the
/// image is centred on both axes.
pub fn compute_layout(region: Region, image_width: u32, image_height: u32, upscale: bool) -> (layout: Layout)
    ensures
        layout == Layout::of(region, image_width as int, image_height as int, upscale),
        layout.pixel_width == target_width(region, image_width as int, upscale),
        layout.pixel_height == target_height(region, image_height as int, upscale),
        layout.offset_x == centered_column(region, layout.pixel_width as int),
        layout.offset_y == centered_row(region, layout.pixel_height as int),
        layout.pixel_width % 2 == 0,
        layout.pixel_height % 2 == 0,
        layout.pixel_width <= region.width,
        layout.pixel_height <= 2 * region.height,
        !upscale ==> layout.pixel_width <= image_width && layout.pixel_height <= image_height,
        upscale ==> layout.pixel_width == even_floor(region.width as int),
        upscale ==> layout.pixel_height == 2 * region.height,
        region.left <= layout.offset_x,
        layout.offset_x + layout.pixel_width <= region.left + region.width,
        region.top <= layout.offset_y,
        layout.offset_y + layout.rows() <= region.top + region.height,
        0 <= (region.left + region.width - (layout.offset_x + layout.pixel_width)) - (layout.offset_x
            - region.left) <= 1,
        0 <= (region.top + region.height - (layout.offset_y + layout.rows())) - (layout.offset_y
            - region.top) <= 1,
{
    let cells_wide: u32 = region.width as u32;
    let rows_tall: u32 = 2 * (region.height as u32);
    let fit_width: u32 = if upscale || cells_wide <= image_width {
        cells_wide
    } else {
        image_width
    };
    let fit_height: u32 = if upscale || rows_tall <= image_height {
        rows_tall
    } else {
        image_height
    };
    let pixel_width: u32 = fit_width - fit_width % 2;
    let pixel_height: u32 = fit_height - fit_height % 2;
    let offset_x: u32 = region.left as u32 + (cells_wide - pixel_width) / 2;
    let offset_y: u32 = region.top as u32 + (rows_tall - pixel_height) / 2 / 2;
    Layout { pixel_width, pixel_height, offset_x, offset_y }
}

/// Without upscaling the image is never drawn larger than the region or than
/// itself, and its dimensions are even.
pub proof fn lemma_layout_never_enlarges(region: Region, image_width: int, image_height: int)
    requires
        0 <= image_width,
        0 <= image_height,
    ensures
        ({
            let layout = Layout::of(region, image_width, image_height, false);
            &&& layout.pixel_width <= region.width
            &&& layout.pixel_height <= 2 * region.height
            &&& layout.pixel_width <= image_width
            &&& layout.pixel_height <= image_height
            &&& layout.pixel_width % 2 == 0
            &&& layout.pixel_height % 2 == 0
        }),
{
}

/// With upscaling the image is drawn at the size of the region in pixels,
/// the width rounded down to an even number, whatever its own size.
pub proof fn lemma_layout_fills_when_upscaling(region: Region, image_width: int, image_height: int)
    ensures
        ({
            let layout = Layout::of(region, image_width, image_height, true);
            &&& layout.pixel_width == even_floor(region.width as int)
            &&& layout.pixel_height == 2 * region.height
            &&& layout.pixel_width % 2 == 0
            &&& layout.pixel_height % 2 == 0
        }),
{
}

/// The image is centred: its cells are cells of the region, and the space
/// left over is shared between the two sides of each axis, the odd cell going
/// to the right and to the bottom.
pub proof fn lemma_layout_is_centred(region: Region, image_width: int, image_height: int, upscale: bool)
    requires
        0 <= image_width,
        0 <= image_height,
    ensures
        ({
            let layout = Layout::of(region, image_width, image_height, upscale);
            let before = layout.offset_x - region.left;
            let after = region.left + region.width - (layout.offset_x + layout.pixel_width);
            let above = layout.offset_y - region.top;
            let below = region.top + region.height - (layout.offset_y + layout.rows());
            &&& 0 <= before <= after <= before + 1
            &&& 0 <= above <= below <= above + 1
            &&& forall|x: int, y: int| #[trigger] layout.covers(x, y) ==> region.contains(x, y)
        }),
{
}

/// A product of two numbers that are not negative lies between zero and the
/// product of their bounds.
pub proof fn lemma_product_bounds(a: int, b: int, most_a: int, most_b: int)
    requires
        0 <= a <= most_a,
        0 <= b <= most_b,
    ensures
        0 <= a * b <= most_a * most_b,
{
    assert(0 <= a * b <= most_a * most_b) by (nonlinear_arith)
        requires
            0 <= a <= most_a,
            0 <= b <= most_b,
    ;
}

} // verus!
