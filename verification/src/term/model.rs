use vstd::prelude::*;
use crate::display::{paint, shifted, solid};
use crate::geometry::{Bounds, Limit, Span};
use crate::term::glyph::glyph_pixels_transposed;
use crate::term::split::CharOrNewline;
use crate::term::vertical_scroller::scroll_windows;

verus! {

/// What a terminal is set up with: the surface, the region of it that the text goes to,
/// the font, the colours, and the longest row that its scroller moves.
pub struct Layout {
    pub cols: nat,
    pub rows: nat,
    pub bounds: Bounds,
    pub glyph_width: nat,
    pub glyph_height: nat,
    pub bitmap: Seq<u8>,
    pub fgcolor: u16,
    pub bgcolor: u16,
    pub capacity: nat,
}

/// Where the next character goes, in pixels from the first column and row of the
/// region, and whether a line has been ended that is still to be begun anew.
pub struct Cursor {
    pub line_offset: int,
    pub column_offset: int,
    pub pending: bool,
}

/// The rectangle with the given first and last column and row, if it is a rectangle of
/// the surface.
pub open spec fn window_at(cols: nat, rows: nat, x0: int, x1: int, y0: int, y1: int) -> Option<
    Bounds,
> {
    if 0 <= x0 <= x1 < cols && 0 <= y0 <= y1 < rows {
        Some(Bounds { x_start: x0 as u16, x_end: x1 as u16, y_start: y0 as u16, y_end: y1 as u16 })
    } else {
        None
    }
}

/// The colours of a character's cell in the order in which they are written: the
/// foreground where the glyph has a pixel, the background elsewhere.
pub open spec fn glyph_colors(l: Layout, ch: char) -> Seq<u16> {
    Seq::new(
        l.glyph_width * l.glyph_height,
        |k: int|
            if glyph_pixels_transposed(l.bitmap, l.glyph_width, l.glyph_height, ch)[k] {
                l.fgcolor
            } else {
                l.bgcolor
            },
    )
}

/// Rows of the region below the text row of the cursor.
pub open spec fn room_below(l: Layout, line_offset: int) -> int {
    l.bounds.spec_height() - line_offset - l.glyph_height
}

/// The text row that begins when a line is begun anew: the next one where the region
/// has room for it, the last one that fits otherwise.
pub open spec fn next_line(l: Layout, line_offset: int) -> int {
    if room_below(l, line_offset) < l.glyph_height {
        l.bounds.spec_height() - l.glyph_height
    } else {
        line_offset + l.glyph_height
    }
}

/// The surface after the rest of the cursor's text row, from the cursor to the last
/// column of the region, has taken the background colour. A strip that is no rectangle of
/// the surface is left out.
pub open spec fn cleared(l: Layout, pixels: Seq<u16>, at: Cursor) -> Seq<u16> {
    match window_at(
        l.cols,
        l.rows,
        l.bounds.x_start + at.column_offset,
        l.bounds.x_end as int,
        l.bounds.y_start + at.line_offset,
        l.bounds.y_start + at.line_offset + l.glyph_height - 1,
    ) {
        Some(strip) => paint(pixels, l.cols as int, strip, solid(strip.spec_area(), l.bgcolor)),
        None => pixels,
    }
}

/// The surface after the region has been moved up by `by` rows. Where the region cannot
/// go up that far on the surface, or a row of it is longer than the scroller takes,
/// nothing moves.
pub open spec fn scrolled_up(l: Layout, pixels: Seq<u16>, by: int) -> Seq<u16> {
    match scroll_windows(
        l.cols,
        l.rows,
        Span { start: Limit::Included(l.bounds.x_start), end: Limit::Included(l.bounds.x_end) },
        Span { start: Limit::Included(l.bounds.y_start), end: Limit::Included(l.bounds.y_end) },
        0,
        -by,
    ) {
        Some((from, to)) => if l.capacity < from.spec_width() {
            pixels
        } else {
            shifted(pixels, pixels, l.cols as int, to, 0, -by)
        },
        None => pixels,
    }
}

/// The surface after room has been made for a new text row: the region goes up by the
/// rows that are missing below the cursor's row for one more row of text, if any are.
pub open spec fn made_room(l: Layout, pixels: Seq<u16>, line_offset: int) -> Seq<u16> {
    if room_below(l, line_offset) < l.glyph_height {
        scrolled_up(l, pixels, l.glyph_height - room_below(l, line_offset))
    } else {
        pixels
    }
}

/// The surface after the glyph of `ch` has been written into the cell at the given
/// offsets. A cell that is no rectangle of the surface is left out.
pub open spec fn drawn(
    l: Layout,
    pixels: Seq<u16>,
    line_offset: int,
    column_offset: int,
    ch: char,
) -> Seq<u16> {
    match window_at(
        l.cols,
        l.rows,
        l.bounds.x_start + column_offset,
        l.bounds.x_start + column_offset + l.glyph_width - 1,
        l.bounds.y_start + line_offset,
        l.bounds.y_start + line_offset + l.glyph_height - 1,
    ) {
        Some(cell) => paint(pixels, l.cols as int, cell, glyph_colors(l, ch)),
        None => pixels,
    }
}

/// The column offset after a character: one pixel less than a glyph is wide further on,
/// and never beyond what 16 bits hold.
pub open spec fn next_column(l: Layout, column_offset: int) -> int {
    if column_offset + l.glyph_width - 1 > u16::MAX {
        u16::MAX as int
    } else {
        column_offset + l.glyph_width - 1
    }
}

/// The cursor after one item.
pub open spec fn cursor_step(l: Layout, at: Cursor, item: CharOrNewline) -> Cursor {
    match item {
        CharOrNewline::NewLine => Cursor { pending: true, ..at },
        CharOrNewline::Char(ch) => if at.pending {
            Cursor {
                line_offset: next_line(l, at.line_offset),
                column_offset: next_column(l, 0),
                pending: false,
            }
        } else {
            Cursor {
                line_offset: at.line_offset,
                column_offset: next_column(l, at.column_offset),
                pending: false,
            }
        },
    }
}

/// The surface after one item. The end of a line changes nothing yet. A character that
/// follows the end of a line first clears the rest of the old text row, makes room for
/// a new one and begins it; then it is drawn at the cursor.
pub open spec fn pixels_step(
    l: Layout,
    pixels: Seq<u16>,
    at: Cursor,
    item: CharOrNewline,
) -> Seq<u16> {
    match item {
        CharOrNewline::NewLine => pixels,
        CharOrNewline::Char(ch) => if at.pending {
            drawn(
                l,
                made_room(l, cleared(l, pixels, at), at.line_offset),
                next_line(l, at.line_offset),
                0,
                ch,
            )
        } else {
            drawn(l, pixels, at.line_offset, at.column_offset, ch)
        },
    }
}

/// The cursor after a sequence of items.
pub open spec fn cursor_after(l: Layout, at: Cursor, items: Seq<CharOrNewline>) -> Cursor
    decreases items.len(),
{
    if items.len() == 0 {
        at
    } else {
        cursor_after(l, cursor_step(l, at, items[0]), items.drop_first())
    }
}

/// The surface after a sequence of items.
pub open spec fn pixels_after(
    l: Layout,
    pixels: Seq<u16>,
    at: Cursor,
    items: Seq<CharOrNewline>,
) -> Seq<u16>
    decreases items.len(),
{
    if items.len() == 0 {
        pixels
    } else {
        pixels_after(
            l,
            pixels_step(l, pixels, at, items[0]),
            cursor_step(l, at, items[0]),
            items.drop_first(),
        )
    }
}

/// A text row of the cursor stays inside the region: no item moves it out.
pub proof fn lemma_cursor_stays(l: Layout, at: Cursor, item: CharOrNewline)
    requires
        1 <= l.glyph_height,
        0 <= at.line_offset,
        at.line_offset + l.glyph_height <= l.bounds.spec_height(),
        0 <= at.column_offset <= u16::MAX,
        1 <= l.glyph_width,
    ensures
        0 <= cursor_step(l, at, item).line_offset,
        cursor_step(l, at, item).line_offset + l.glyph_height <= l.bounds.spec_height(),
        0 <= cursor_step(l, at, item).column_offset <= u16::MAX,
{
}

} // verus!
