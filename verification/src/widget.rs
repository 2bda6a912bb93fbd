//! The image widget: what to draw and how, set up by chained calls.

use crate::canvas::{buffer_area, buffer_cells, column_of, row_of, shade, shaded};
use crate::geometry::Region;
use crate::pixmap::{FilterType, Pixmap, Raster};
use crate::render::{draw_image, rendered};
use tui::buffer::Buffer;
use tui::layout::Rect;
use tui::style::Style;
use tui::widgets::Block;
use vstd::prelude::*;

verus! {

/// `tui::widgets::Block`, opaque here: a value to hand on to `tui`.
#[verifier::external_type_specification]
#[verifier::external_body]
pub struct ExBlock<'a>(Block<'a>);

/// The rectangle that `Block::inner` returns for `block` and the rectangle
/// `area`.
pub uninterp spec fn inner_of(block: Block, area: Region) -> Region;

/// Calls `Block::inner` with the rectangle `area`.
///
/// Trusted: the result is `inner_of` the block and `area`, that is, the
/// outside function computes from these alone. It takes one cell off each
/// side that has a border (the top also for a title), never below zero, so
/// the result lies within `area` and is at most one cell off on each side.
#[verifier::external_body]
fn block_inner(block: &Block, area: Region) -> (inner: Region)
    ensures
        inner == inner_of(*block, area),
        inner.within(area),
        inner.left - area.left <= 1,
        inner.top - area.top <= 1,
        area.width - inner.width <= 2,
        area.height - inner.height <= 2,
{
    let inner = block.inner(Rect { x: area.left, y: area.top, width: area.width, height: area.height });
    Region { left: inner.x, top: inner.y, width: inner.width, height: inner.height }
}

/// A widget that shows an image, centred on the space it is given.
///
/// Rendering takes three steps, in this order: `apply_style` merges the
/// widget's style into the whole area; the frame, where there is one, is
/// drawn on the area by `tui`, to which `take_block` hands it; `draw` paints
/// the image into what `inner_area` says the frame leaves.
///
/// Transparency is not supported.
pub struct ImageWidget<'a> {
    image: &'a Pixmap,
    block: Option<Block<'a>>,
    style: Option<Style>,
    scale_up: bool,
    filter_mode: FilterType,
}

impl<'a> ImageWidget<'a> {
    /// The image shown.
    pub closed spec fn source(&self) -> Raster {
        self.image@
    }

    /// The frame around the image, where one is set.
    pub closed spec fn frame(&self) -> Option<Block<'a>> {
        self.block
    }

    /// The style of the space around the image, where one is set.
    pub closed spec fn background(&self) -> Option<Style> {
        self.style
    }

    /// Whether a small image is enlarged to fill the space.
    pub closed spec fn upscales(&self) -> bool {
        self.scale_up
    }

    /// The filter the image is resampled with.
    pub closed spec fn filter(&self) -> FilterType {
        self.filter_mode
    }

    /// A widget for `image` with no frame and no style of its own, that
    /// never enlarges the image and resamples with `Lanczos3`.
    pub fn new(image: &'a Pixmap) -> (widget: ImageWidget<'a>)
        ensures
            widget.source() == image@,
            widget.frame() is None,
            widget.background() is None,
            !widget.upscales(),
            widget.filter() == FilterType::Lanczos3,
    {
        ImageWidget {
            image,
            block: None,
            style: None,
            scale_up: false,
            filter_mode: FilterType::Lanczos3,
        }
    }

    /// Sets the style of the background around the displayed image.
    pub fn style(self, style: Style) -> (widget: ImageWidget<'a>)
        ensures
            widget.background() == Some(style),
            widget.source() == self.source(),
            widget.frame() == self.frame(),
            widget.upscales() == self.upscales(),
            widget.filter() == self.filter(),
    {
        ImageWidget {
            image: self.image,
            block: self.block,
            style: Some(style),
            scale_up: self.scale_up,
            filter_mode: self.filter_mode,
        }
    }

    /// Says whether the image is scaled up to fill the space available.
    /// Without this call it is not.
    pub fn upscale(self, upscale: bool) -> (widget: ImageWidget<'a>)
        ensures
            widget.upscales() == upscale,
            widget.source() == self.source(),
            widget.frame() == self.frame(),
            widget.background() == self.background(),
            widget.filter() == self.filter(),
    {
        ImageWidget {
            image: self.image,
            block: self.block,
            style: self.style,
            scale_up: upscale,
            filter_mode: self.filter_mode,
        }
    }

    /// Puts a frame around the image.
    pub fn block(self, block: Block<'a>) -> (widget: ImageWidget<'a>)
        ensures
            widget.frame() == Some(block),
            widget.source() == self.source(),
            widget.background() == self.background(),
            widget.upscales() == self.upscales(),
            widget.filter() == self.filter(),
    {
        ImageWidget {
            image: self.image,
            block: Some(block),
            style: self.style,
            scale_up: self.scale_up,
            filter_mode: self.filter_mode,
        }
    }

    /// Sets the filter used when the image is scaled up or down. Without
    /// this call it is `Lanczos3`.
    pub fn filter_mode(self, filter_mode: FilterType) -> (widget: ImageWidget<'a>)
        ensures
            widget.filter() == filter_mode,
            widget.source() == self.source(),
            widget.frame() == self.frame(),
            widget.background() == self.background(),
            widget.upscales() == self.upscales(),
    {
        ImageWidget {
            image: self.image,
            block: self.block,
            style: self.style,
            scale_up: self.scale_up,
            filter_mode,
        }
    }

    /// Merges the widget's style into the cells of `area`. A widget without a
    /// style changes nothing; no symbol changes, and no cell outside `area`.
    pub fn apply_style(&self, area: Region, buffer: &mut Buffer)
        ensures
            buffer_area(*final(buffer)) == buffer_area(*old(buffer)),
            buffer_cells(*final(buffer)) == (match self.background() {
                Some(style) => shaded(
                    buffer_cells(*old(buffer)),
                    buffer_area(*old(buffer)),
                    area,
                    style,
                ),
                None => buffer_cells(*old(buffer)),
            }),
            buffer_cells(*final(buffer)).len() == buffer_cells(*old(buffer)).len(),
            forall|index: int|
                0 <= index < buffer_cells(*old(buffer)).len() ==> (#[trigger] buffer_cells(
                    *final(buffer),
                )[index]).symbol == buffer_cells(*old(buffer))[index].symbol,
            forall|index: int|
                0 <= index < buffer_cells(*old(buffer)).len() && !area.contains(
                    column_of(buffer_area(*old(buffer)), index),
                    row_of(buffer_area(*old(buffer)), index),
                ) ==> #[trigger] buffer_cells(*final(buffer))[index] == buffer_cells(
                    *old(buffer),
                )[index],
    {
        match self.style {
            Some(style) => {
                shade(area, style, buffer);
            },
            None => {},
        }
    }

    /// The rectangle left for the image when the frame is drawn on `area`:
    /// `area` itself without a frame, else what the frame leaves inside.
    pub fn inner_area(&self, area: Region) -> (inner: Region)
        ensures
            inner == (match self.frame() {
                Some(block) => inner_of(block, area),
                None => area,
            }),
            inner.within(area),
            inner.left - area.left <= 1,
            inner.top - area.top <= 1,
            area.width - inner.width <= 2,
            area.height - inner.height <= 2,
    {
        match &self.block {
            Some(block) => block_inner(block, area),
            None => area,
        }
    }

    /// Hands out the frame, for `tui` to draw, and leaves the widget
    /// without one.
    pub fn take_block(&mut self) -> (block: Option<Block<'a>>)
        ensures
            block == old(self).frame(),
            final(self).frame() is None,
            final(self).source() == old(self).source(),
            final(self).background() == old(self).background(),
            final(self).upscales() == old(self).upscales(),
            final(self).filter() == old(self).filter(),
    {
        self.block.take()
    }

    /// Draws the image into the cells of `area`: scaled to fit (to fill, for
    /// a widget that upscales), centred, two pixel rows to a cell. Writes no
    /// cell outside `area`.
    pub fn draw(&self, area: Region, buffer: &mut Buffer)
        ensures
            buffer_area(*final(buffer)) == buffer_area(*old(buffer)),
            buffer_cells(*final(buffer)) == rendered(
                buffer_cells(*old(buffer)),
                buffer_area(*old(buffer)),
                area,
                self.source(),
                self.upscales(),
                self.filter(),
            ),
            buffer_cells(*final(buffer)).len() == buffer_cells(*old(buffer)).len(),
            forall|index: int|
                0 <= index < buffer_cells(*old(buffer)).len() && !area.contains(
                    column_of(buffer_area(*old(buffer)), index),
                    row_of(buffer_area(*old(buffer)), index),
                ) ==> #[trigger] buffer_cells(*final(buffer))[index] == buffer_cells(
                    *old(buffer),
                )[index],
    {
        draw_image(self.image, area, self.scale_up, self.filter_mode, buffer);
    }
}

} // verus!
