//! One pass from an image and a rectangle of cells to the cells drawn:
//! place, resample, paint.

use crate::canvas::{
    buffer_area,
    buffer_cells,
    column_of,
    grid_sound,
    image_covers,
    paint,
    painted,
    painted_cell,
    row_of,
    Glyph,
};
use crate::geometry::{compute_layout, Layout, Region};
use crate::pixmap::{FilterType, Pixmap, Raster};
use tui::buffer::Buffer;
use vstd::prelude::*;

verus! {

/// The cells of a buffer for `grid` once `image` is rendered into `area`:
/// the image is placed by `Layout::of`, resampled to the size the layout
/// gives, and painted at the layout's offsets. Where the image cannot be
/// resampled to that size, which an empty image and an empty target are,
/// nothing is drawn.
pub open spec fn rendered(
    cells: Seq<Glyph>,
    grid: Region,
    area: Region,
    image: Raster,
    upscale: bool,
    filter: FilterType,
) -> Seq<Glyph> {
    let layout = Layout::of(area, image.width, image.height, upscale);
    if image.resizable(layout.pixel_width as int, layout.pixel_height as int) {
        painted(
            cells,
            grid,
            image.resized(layout.pixel_width as int, layout.pixel_height as int, filter),
            layout.offset_x as int,
            layout.offset_y as int,
        )
    } else {
        cells
    }
}

/// Renders `image` into the cells of `area`: scaled to fit the rectangle
/// (and to fill it with `upscale`), to even dimensions, centred, two pixel
/// rows to a cell.
///
/// Nothing is written outside `area`, and nothing at all for an empty image
/// or a rectangle too small for two pixels.
pub fn draw_image(image: &Pixmap, area: Region, upscale: bool, filter: FilterType, buffer: &mut Buffer)
    ensures
        buffer_area(*final(buffer)) == buffer_area(*old(buffer)),
        buffer_cells(*final(buffer)) == rendered(
            buffer_cells(*old(buffer)),
            buffer_area(*old(buffer)),
            area,
            image@,
            upscale,
            filter,
        ),
        buffer_cells(*final(buffer)).len() == buffer_cells(*old(buffer)).len(),
        forall|index: int|
            0 <= index < buffer_cells(*old(buffer)).len() && !area.contains(
                column_of(buffer_area(*old(buffer)), index),
                row_of(buffer_area(*old(buffer)), index),
            ) ==> #[trigger] buffer_cells(*final(buffer))[index] == buffer_cells(*old(buffer))[index],
{
    let layout = compute_layout(area, image.width(), image.height(), upscale);
    proof {
        lemma_rendered_keeps_outside(
            buffer_cells(*buffer),
            buffer_area(*buffer),
            area,
            image@,
            upscale,
            filter,
        );
    }
    match image.resize(layout.pixel_width, layout.pixel_height, filter) {
        Some(scaled) => {
            paint(&scaled, layout.offset_x, layout.offset_y, buffer);
        },
        None => {},
    }
}

/// Painting keeps the number of cells, and whether the buffer is sound.
pub proof fn lemma_painted_len(cells: Seq<Glyph>, grid: Region, image: Raster, offset_x: int, offset_y: int)
    ensures
        painted(cells, grid, image, offset_x, offset_y).len() == cells.len(),
        grid_sound(painted(cells, grid, image, offset_x, offset_y), grid) == grid_sound(cells, grid),
{
}

/// Painting an image over cells it was already painted on changes nothing.
pub proof fn lemma_painted_twice(cells: Seq<Glyph>, grid: Region, image: Raster, offset_x: int, offset_y: int)
    ensures
        painted(painted(cells, grid, image, offset_x, offset_y), grid, image, offset_x, offset_y)
            == painted(cells, grid, image, offset_x, offset_y),
{
    let once = painted(cells, grid, image, offset_x, offset_y);
    let twice = painted(once, grid, image, offset_x, offset_y);
    lemma_painted_len(cells, grid, image, offset_x, offset_y);
    if grid_sound(cells, grid) {
        assert forall|index: int| 0 <= index < once.len() implies twice[index] == once[index] by {
            assert(twice[index] == painted_cell(once, grid, image, offset_x, offset_y, index));
            assert(once[index] == painted_cell(cells, grid, image, offset_x, offset_y, index));
        }
        assert(twice =~= once);
    }
}

/// Rendering the same image into the same rectangle with the same settings a
/// second time gives the cells that the first rendering gave.
pub proof fn lemma_rendered_twice(
    cells: Seq<Glyph>,
    grid: Region,
    area: Region,
    image: Raster,
    upscale: bool,
    filter: FilterType,
)
    ensures
        rendered(rendered(cells, grid, area, image, upscale, filter), grid, area, image, upscale, filter)
            == rendered(cells, grid, area, image, upscale, filter),
{
    let layout = Layout::of(area, image.width, image.height, upscale);
    if image.resizable(layout.pixel_width as int, layout.pixel_height as int) {
        lemma_painted_twice(
            cells,
            grid,
            image.resized(layout.pixel_width as int, layout.pixel_height as int, filter),
            layout.offset_x as int,
            layout.offset_y as int,
        );
    }
}

/// What rendering writes does not depend on what the cells held: on any two
/// buffers for the same rectangle, each cell is either left alone in both or
/// shows the same in both.
pub proof fn lemma_rendered_on_any_cells(
    cells: Seq<Glyph>,
    others: Seq<Glyph>,
    grid: Region,
    area: Region,
    image: Raster,
    upscale: bool,
    filter: FilterType,
    index: int,
)
    requires
        cells.len() == others.len(),
        0 <= index < cells.len(),
    ensures
        ({
            let first = rendered(cells, grid, area, image, upscale, filter);
            let second = rendered(others, grid, area, image, upscale, filter);
            ||| first[index] == second[index]
            ||| first[index] == cells[index] && second[index] == others[index]
        }),
{
    let layout = Layout::of(area, image.width, image.height, upscale);
    let scaled = image.resized(layout.pixel_width as int, layout.pixel_height as int, filter);
    if image.resizable(layout.pixel_width as int, layout.pixel_height as int) && grid_sound(cells, grid) {
        assert(rendered(cells, grid, area, image, upscale, filter)[index] == painted_cell(
            cells,
            grid,
            scaled,
            layout.offset_x as int,
            layout.offset_y as int,
            index,
        ));
        assert(rendered(others, grid, area, image, upscale, filter)[index] == painted_cell(
            others,
            grid,
            scaled,
            layout.offset_x as int,
            layout.offset_y as int,
            index,
        ));
    }
}

/// The cells an image fills when it is placed in `area` are cells of `area`.
pub proof fn lemma_image_within_area(
    area: Region,
    image: Raster,
    upscale: bool,
    filter: FilterType,
    x: int,
    y: int,
)
    requires
        image.wf(),
    ensures
        ({
            let layout = Layout::of(area, image.width, image.height, upscale);
            image_covers(
                image.resized(layout.pixel_width as int, layout.pixel_height as int, filter),
                layout.offset_x as int,
                layout.offset_y as int,
                x,
                y,
            ) ==> area.contains(x, y)
        }),
{
}

/// Rendering leaves every cell outside `area` as it was, and keeps the
/// number of cells.
pub proof fn lemma_rendered_keeps_outside(
    cells: Seq<Glyph>,
    grid: Region,
    area: Region,
    image: Raster,
    upscale: bool,
    filter: FilterType,
)
    requires
        image.wf(),
    ensures
        rendered(cells, grid, area, image, upscale, filter).len() == cells.len(),
        forall|index: int|
            0 <= index < cells.len() && !area.contains(column_of(grid, index), row_of(grid, index))
                ==> #[trigger] rendered(cells, grid, area, image, upscale, filter)[index] == cells[index],
{
    let layout = Layout::of(area, image.width, image.height, upscale);
    let scaled = image.resized(layout.pixel_width as int, layout.pixel_height as int, filter);
    let after = rendered(cells, grid, area, image, upscale, filter);
    assert forall|index: int|
        0 <= index < cells.len() && !area.contains(
            column_of(grid, index),
            row_of(grid, index),
        ) implies #[trigger] after[index] == cells[index] by {
        lemma_image_within_area(
            area,
            image,
            upscale,
            filter,
            column_of(grid, index),
            row_of(grid, index),
        );
        if image.resizable(layout.pixel_width as int, layout.pixel_height as int) && grid_sound(
            cells,
            grid,
        ) {
            assert(after[index] == painted_cell(
                cells,
                grid,
                scaled,
                layout.offset_x as int,
                layout.offset_y as int,
                index,
            ));
        }
    }
}

} // verus!
