//! Half-block drawing into a `tui` cell buffer.
//!
//! The buffer stays the one of `tui`. What the contracts here say of it is
//! said over two names: the rectangle it stands for, `buffer_area`, and the
//! cells it holds, `buffer_cells`. A third name, `styled`, stands for the
//! cells that `tui` leaves when it merges a style.

use crate::geometry::{lemma_product_bounds, Region};
use crate::pixmap::{Pixmap, Raster, Rgb};
use tui::buffer::Buffer;
use tui::layout::Rect;
use tui::style::{Color, Style};
use vstd::arithmetic::div_mod::{
    lemma_div_pos_is_pos,
    lemma_fundamental_div_mod,
    lemma_fundamental_div_mod_converse,
    lemma_mod_bound,
};
use vstd::prelude::*;

verus! {

/// The lower half block: the cell's foreground fills its lower half, its
/// background shows in the upper half.
pub const HALF_BLOCK: char = '\u{2584}';

/// What a cell shows, as far as this library writes it: its symbol, and its
/// foreground and background where they are 24-bit colours (`None` for any
/// other colour of `tui`).
pub struct Glyph {
    pub symbol: Seq<char>,
    pub fg: Option<Rgb>,
    pub bg: Option<Rgb>,
}

/// `tui::buffer::Buffer`, opaque here: contracts speak of it through
/// `buffer_area` and `buffer_cells` alone.
#[verifier::external_type_specification]
#[verifier::external_body]
pub struct ExBuffer(Buffer);

/// `tui::style::Style`, opaque here: a value to hand on to `tui`.
#[verifier::external_type_specification]
#[verifier::external_body]
pub struct ExStyle(Style);

/// The rectangle a buffer stands for: its field `area`.
pub uninterp spec fn buffer_area(buffer: Buffer) -> Region;

/// The cells a buffer holds, in the order of its field `content`: row by
/// row from the top, each row from the left.
pub uninterp spec fn buffer_cells(buffer: Buffer) -> Seq<Glyph>;

/// The cells that `Buffer::set_style` leaves in a buffer for `grid` that held
/// `cells`, called with the rectangle `area` and `style`.
pub uninterp spec fn styled(cells: Seq<Glyph>, grid: Region, area: Region, style: Style) -> Seq<Glyph>;

/// Whether a buffer with these cells for this rectangle has one cell for each
/// position and few enough for a 16-bit index, as `tui` keeps its buffers.
pub open spec fn grid_sound(cells: Seq<Glyph>, grid: Region) -> bool {
    &&& cells.len() == grid.width * grid.height
    &&& cells.len() <= u16::MAX
}

/// Whether the buffer for `grid` has a cell in column `x` of row `y` that
/// `tui` lets be addressed: one inside the rectangle and before the last
/// 16-bit coordinate.
pub open spec fn addressable(grid: Region, x: int, y: int) -> bool {
    &&& grid.contains(x, y)
    &&& x < u16::MAX
    &&& y < u16::MAX
}

/// The place among the buffer's cells of the cell in column `x` of row `y`.
pub open spec fn cell_index(grid: Region, x: int, y: int) -> int {
    (y - grid.top) * grid.width + (x - grid.left)
}

/// The column of the cell at place `index`.
pub open spec fn column_of(grid: Region, index: int) -> int {
    grid.left + index % (grid.width as int)
}

/// The row of the cell at place `index`.
pub open spec fn row_of(grid: Region, index: int) -> int {
    grid.top + index / (grid.width as int)
}

/// Whether an image drawn with its top-left corner at cell (`offset_x`,
/// `offset_y`) fills the cell in column `x` of row `y`. A last odd pixel row
/// fills no cell.
pub open spec fn image_covers(image: Raster, offset_x: int, offset_y: int, x: int, y: int) -> bool {
    &&& offset_x <= x < offset_x + image.width
    &&& offset_y <= y < offset_y + image.height / 2
}

/// What the cell shows that stands for column `column` and cell row `row` of
/// the image: the upper pixel as background, the lower one as foreground.
pub open spec fn half_block(image: Raster, column: int, row: int) -> Glyph {
    Glyph {
        symbol: seq![HALF_BLOCK],
        fg: Some(image.pixel(column, 2 * row + 1)),
        bg: Some(image.pixel(column, 2 * row)),
    }
}

/// The cell at place `index` once the image is drawn.
pub open spec fn painted_cell(
    cells: Seq<Glyph>,
    grid: Region,
    image: Raster,
    offset_x: int,
    offset_y: int,
    index: int,
) -> Glyph {
    let x = column_of(grid, index);
    let y = row_of(grid, index);
    if addressable(grid, x, y) && image_covers(image, offset_x, offset_y, x, y) {
        half_block(image, x - offset_x, y - offset_y)
    } else {
        cells[index]
    }
}

/// The cells of a buffer for `grid` once the image is drawn with its top-left
/// corner at cell (`offset_x`, `offset_y`): every cell of the buffer that the
/// image fills shows its pixel pair, every other cell is as before. A buffer
/// that is not sound is left as it is.
pub open spec fn painted(
    cells: Seq<Glyph>,
    grid: Region,
    image: Raster,
    offset_x: int,
    offset_y: int,
) -> Seq<Glyph> {
    if grid_sound(cells, grid) {
        Seq::new(cells.len(), |index: int| painted_cell(cells, grid, image, offset_x, offset_y, index))
    } else {
        cells
    }
}

/// Reads `Buffer::area`.
///
/// Trusted: the result holds the four fields of the rectangle as they are.
#[verifier::external_body]
fn grid_of(buffer: &Buffer) -> (grid: Region)
    ensures
        grid == buffer_area(*buffer),
{
    let area = buffer.area();
    Region { left: area.x, top: area.y, width: area.width, height: area.height }
}

/// Reads the length of `Buffer::content`.
///
/// Trusted: the result is the number of cells the buffer holds.
#[verifier::external_body]
fn cell_count(buffer: &Buffer) -> (count: usize)
    ensures
        count == buffer_cells(*buffer).len(),
{
    buffer.content().len()
}

/// Calls `Buffer::get_mut` for the cell in column `x` of row `y`, then
/// `Cell::set_char`, `Cell::set_bg` and `Cell::set_fg` on that cell, with
/// `Color::Rgb` of the two colours.
///
/// Trusted: the cell at `cell_index` then shows the symbol alone and the two
/// colours; no other cell changes, nor the rectangle. `get_mut` computes that
/// index in 16 bits and panics outside the rectangle or the cells held, which
/// `requires` leaves out.
#[verifier::external_body]
fn put_cell(buffer: &mut Buffer, x: u16, y: u16, symbol: char, background: Rgb, foreground: Rgb)
    requires
        grid_sound(buffer_cells(*old(buffer)), buffer_area(*old(buffer))),
        addressable(buffer_area(*old(buffer)), x as int, y as int),
    ensures
        buffer_area(*final(buffer)) == buffer_area(*old(buffer)),
        buffer_cells(*final(buffer)) == buffer_cells(*old(buffer)).update(
            cell_index(buffer_area(*old(buffer)), x as int, y as int),
            (Glyph { symbol: seq![symbol], fg: Some(foreground), bg: Some(background) }),
        ),
{
    buffer.get_mut(x, y)
        .set_char(symbol)
        .set_bg(Color::Rgb(background.r, background.g, background.b))
        .set_fg(Color::Rgb(foreground.r, foreground.g, foreground.b));
}

/// Calls `Buffer::set_style` with the rectangle `area` and `style`.
///
/// Trusted: the cells are then `styled` of the cells before, the buffer's
/// rectangle, `area` and `style`, that is, the outside function computes from
/// these alone. It merges the style into each cell of `area`, which changes
/// no symbol and no cell outside `area`, nor the rectangle of the buffer. It
/// reaches each cell through `get_mut`, which panics outside the buffer:
/// `requires` keeps `area` inside it.
#[verifier::external_body]
fn fill_style(buffer: &mut Buffer, area: Region, style: Style)
    requires
        grid_sound(buffer_cells(*old(buffer)), buffer_area(*old(buffer))),
        area.within(buffer_area(*old(buffer))),
    ensures
        buffer_area(*final(buffer)) == buffer_area(*old(buffer)),
        buffer_cells(*final(buffer)) == styled(
            buffer_cells(*old(buffer)),
            buffer_area(*old(buffer)),
            area,
            style,
        ),
        buffer_cells(*final(buffer)).len() == buffer_cells(*old(buffer)).len(),
        forall|index: int|
            0 <= index < buffer_cells(*old(buffer)).len() ==> (#[trigger] buffer_cells(
                *final(buffer),
            )[index]).symbol == buffer_cells(*old(buffer))[index].symbol,
        forall|index: int|
            0 <= index < buffer_cells(*old(buffer)).len() && !area.contains(
                column_of(buffer_area(*old(buffer)), index),
                row_of(buffer_area(*old(buffer)), index),
            ) ==> #[trigger] buffer_cells(*final(buffer))[index] == buffer_cells(*old(buffer))[index],
{
    buffer.set_style(Rect { x: area.left, y: area.top, width: area.width, height: area.height }, style);
}

/// The cell in column `x` of row `y` has a place among the cells, from which
/// its column and row are found again.
pub proof fn lemma_cell_index(grid: Region, x: int, y: int)
    requires
        grid.contains(x, y),
    ensures
        0 <= cell_index(grid, x, y) < grid.width * grid.height,
        column_of(grid, cell_index(grid, x, y)) == x,
        row_of(grid, cell_index(grid, x, y)) == y,
{
    let w = grid.width as int;
    let h = grid.height as int;
    let q = y - grid.top;
    let r = x - grid.left;
    assert(0 <= q * w && q * w + w <= h * w && h * w == w * h) by (nonlinear_arith)
        requires
            0 <= q < h,
            0 < w,
    ;
    lemma_fundamental_div_mod_converse(q * w + r, w, q, r);
}

/// The cell at place `index` lies in the rectangle, and its place is found
/// again from its column and row.
pub proof fn lemma_cell_position(grid: Region, index: int)
    requires
        0 <= index < grid.width * grid.height,
    ensures
        grid.contains(column_of(grid, index), row_of(grid, index)),
        cell_index(grid, column_of(grid, index), row_of(grid, index)) == index,
{
    let w = grid.width as int;
    let h = grid.height as int;
    assert(0 < w) by (nonlinear_arith)
        requires
            0 <= index < w * h,
            0 <= w,
    ;
    lemma_fundamental_div_mod(index, w);
    lemma_mod_bound(index, w);
    lemma_div_pos_is_pos(index, w);
    let q = index / w;
    assert(q < h) by (nonlinear_arith)
        requires
            0 <= q,
            0 < w,
            w * q <= index,
            index < w * h,
    ;
    assert(w * q == q * w) by (nonlinear_arith);
}

/// Once an image is drawn, each cell that it fills shows its pixel pair: the
/// pixel of the upper row as background, the one below as foreground. Each
/// other cell is as before.
pub proof fn lemma_painted_at(
    cells: Seq<Glyph>,
    grid: Region,
    image: Raster,
    offset_x: int,
    offset_y: int,
    x: int,
    y: int,
)
    requires
        grid_sound(cells, grid),
        addressable(grid, x, y),
    ensures
        0 <= cell_index(grid, x, y) < cells.len(),
        painted(cells, grid, image, offset_x, offset_y)[cell_index(grid, x, y)] == (if image_covers(
            image,
            offset_x,
            offset_y,
            x,
            y,
        ) {
            half_block(image, x - offset_x, y - offset_y)
        } else {
            cells[cell_index(grid, x, y)]
        }),
{
    lemma_cell_index(grid, x, y);
}

/// Whether the buffer for `grid` has an addressable cell in column `x` of
/// row `y`.
fn in_grid(grid: Region, x: u64, y: u64) -> (inside: bool)
    ensures
        inside == addressable(grid, x as int, y as int),
{
    grid.left as u64 <= x && x < grid.left as u64 + grid.width as u64 && x < u16::MAX as u64
        && grid.top as u64 <= y && y < grid.top as u64 + grid.height as u64 && y < u16::MAX as u64
}

/// The rectangle of `buffer` where the buffer is sound, `None` where it is
/// not.
pub fn sound_grid(buffer: &Buffer) -> (found: Option<Region>)
    ensures
        found is Some <==> grid_sound(buffer_cells(*buffer), buffer_area(*buffer)),
        found matches Some(grid) ==> grid == buffer_area(*buffer),
{
    let grid = grid_of(buffer);
    let count = cell_count(buffer);
    proof {
        lemma_product_bounds(grid.width as int, grid.height as int, u16::MAX as int, u16::MAX as int);
    }
    let expected: u32 = grid.width as u32 * grid.height as u32;
    if count <= u16::MAX as usize && count as u32 == expected {
        Some(grid)
    } else {
        None
    }
}

/// The cells of a buffer for `grid` once `style` is merged into the cells of
/// `area` that the buffer has. A buffer that is not sound is left as it is.
pub open spec fn shaded(cells: Seq<Glyph>, grid: Region, area: Region, style: Style) -> Seq<Glyph> {
    if grid_sound(cells, grid) {
        styled(cells, grid, area.clipped(grid), style)
    } else {
        cells
    }
}

/// Merges `style` into every cell of `area` that `buffer` has. Symbols stay,
/// and so does every cell outside `area`; a buffer that is not sound is left
/// as it is.
pub fn shade(area: Region, style: Style, buffer: &mut Buffer)
    ensures
        buffer_area(*final(buffer)) == buffer_area(*old(buffer)),
        buffer_cells(*final(buffer)) == shaded(
            buffer_cells(*old(buffer)),
            buffer_area(*old(buffer)),
            area,
            style,
        ),
        buffer_cells(*final(buffer)).len() == buffer_cells(*old(buffer)).len(),
        forall|index: int|
            0 <= index < buffer_cells(*old(buffer)).len() ==> (#[trigger] buffer_cells(
                *final(buffer),
            )[index]).symbol == buffer_cells(*old(buffer))[index].symbol,
        forall|index: int|
            0 <= index < buffer_cells(*old(buffer)).len() && !area.contains(
                column_of(buffer_area(*old(buffer)), index),
                row_of(buffer_area(*old(buffer)), index),
            ) ==> #[trigger] buffer_cells(*final(buffer))[index] == buffer_cells(*old(buffer))[index],
{
    match sound_grid(buffer) {
        Some(grid) => {
            let visible = area.intersect(grid);
            fill_style(buffer, visible, style);
        },
        None => {},
    }
}

/// Whether the pair (`row`, `column`) comes before (`next_row`,
/// `next_column`) when an image is walked row by row.
spec fn walked(row: int, column: int, next_row: int, next_column: int) -> bool {
    row < next_row || (row == next_row && column < next_column)
}

/// The cell at place `index` while the image is being drawn, when all of it
/// before (`next_row`, `next_column`) has been.
spec fn painted_so_far(
    cells: Seq<Glyph>,
    grid: Region,
    image: Raster,
    offset_x: int,
    offset_y: int,
    next_row: int,
    next_column: int,
    index: int,
) -> Glyph {
    let x = column_of(grid, index);
    let y = row_of(grid, index);
    if addressable(grid, x, y) && image_covers(image, offset_x, offset_y, x, y) && walked(
        y - offset_y,
        x - offset_x,
        next_row,
        next_column,
    ) {
        half_block(image, x - offset_x, y - offset_y)
    } else {
        cells[index]
    }
}

/// Draws `image` into `buffer` with its top-left corner at the cell in column
/// `offset_x` of row `offset_y`, one cell for each pixel column and each pair
/// of pixel rows: the upper pixel becomes the cell's background, the lower
/// one its foreground, the symbol a lower half block.
///
/// Cells that the buffer does not have are skipped, and so is a last odd
/// pixel row.
pub fn paint(image: &Pixmap, offset_x: u32, offset_y: u32, buffer: &mut Buffer)
    ensures
        buffer_area(*final(buffer)) == buffer_area(*old(buffer)),
        buffer_cells(*final(buffer)) == painted(
            buffer_cells(*old(buffer)),
            buffer_area(*old(buffer)),
            image@,
            offset_x as int,
            offset_y as int,
        ),
{
    let grid = match sound_grid(buffer) {
        Some(grid) => grid,
        None => {
            return ;
        },
    };
    let width = image.width();
    let rows = image.height() / 2;
    let ghost before = buffer_cells(*buffer);
    let ghost raster = image@;
    let ghost ox = offset_x as int;
    let ghost oy = offset_y as int;
    let mut row: u32 = 0;
    while row < rows
        invariant
            raster == image@,
            raster.wf(),
            width == raster.width,
            rows == raster.height / 2,
            row <= rows,
            ox == offset_x,
            oy == offset_y,
            grid_sound(before, grid),
            buffer_area(*buffer) == grid,
            buffer_cells(*buffer).len() == before.len(),
            forall|index: int|
                0 <= index < before.len() ==> #[trigger] buffer_cells(*buffer)[index]
                    == painted_so_far(before, grid, raster, ox, oy, row as int, 0, index),
        decreases rows - row,
    {
        let mut column: u32 = 0;
        while column < width
            invariant
                raster == image@,
                raster.wf(),
                width == raster.width,
                rows == raster.height / 2,
                row < rows,
                column <= width,
                ox == offset_x,
                oy == offset_y,
                grid_sound(before, grid),
                buffer_area(*buffer) == grid,
                buffer_cells(*buffer).len() == before.len(),
                forall|index: int|
                    0 <= index < before.len() ==> #[trigger] buffer_cells(*buffer)[index]
                        == painted_so_far(before, grid, raster, ox, oy, row as int, column as int, index),
            decreases width - column,
        {
            let x: u64 = offset_x as u64 + column as u64;
            let y: u64 = offset_y as u64 + row as u64;
            if in_grid(grid, x, y) {
                let upper = image.pixel(column, 2 * row);
                let lower = image.pixel(column, 2 * row + 1);
                let ghost earlier = buffer_cells(*buffer);
                put_cell(buffer, x as u16, y as u16, HALF_BLOCK, upper.unwrap(), lower.unwrap());
                proof {
                    lemma_cell_index(grid, x as int, y as int);
                    assert forall|index: int| 0 <= index < before.len() implies #[trigger] buffer_cells(
                        *buffer,
                    )[index] == painted_so_far(
                        before,
                        grid,
                        raster,
                        ox,
                        oy,
                        row as int,
                        column + 1,
                        index,
                    ) by {
                        lemma_cell_position(grid, index);
                        assert(earlier[index] == painted_so_far(
                            before,
                            grid,
                            raster,
                            ox,
                            oy,
                            row as int,
                            column as int,
                            index,
                        ));
                    }
                }
            } else {
                proof {
                    assert forall|index: int| 0 <= index < before.len() implies #[trigger] buffer_cells(
                        *buffer,
                    )[index] == painted_so_far(
                        before,
                        grid,
                        raster,
                        ox,
                        oy,
                        row as int,
                        column + 1,
                        index,
                    ) by {
                        lemma_cell_position(grid, index);
                    }
                }
            }
            column = column + 1;
        }
        row = row + 1;
    }
    proof {
        assert forall|index: int| 0 <= index < before.len() implies #[trigger] buffer_cells(
            *buffer,
        )[index] == painted_cell(before, grid, raster, ox, oy, index) by {
            assert(buffer_cells(*buffer)[index] == painted_so_far(
                before,
                grid,
                raster,
                ox,
                oy,
                row as int,
                0,
                index,
            ));
        }
        assert(buffer_cells(*buffer) =~= painted(before, grid, raster, ox, oy));
    }
}

} // verus!
