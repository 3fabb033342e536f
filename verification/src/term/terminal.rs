use vstd::prelude::*;
use crate::display::{extent, Display};
use crate::error::Error;
use crate::geometry::{lemma_clip_own_ranges, Bounds, Span};
use crate::term::font::MonoFont;
use crate::term::glyph::{get_bits_transposed, glyph_pixels_transposed};
use crate::term::model::{
    cleared, cursor_after, cursor_step, drawn, glyph_colors, made_room, next_column, next_line,
    pixels_after, pixels_step, window_at, Cursor, Layout,
};
use crate::term::split::{split_stream, CharOrNewline, SplitByLenOrNewline};
use crate::term::vertical_scroller::{scroll_outcome, Scroller};

verus! {

/// The whole surface of a display.
pub fn display_size<Disp: Display>(display: &Disp) -> (b: Bounds)
    requires
        display.inv(),
    ensures
        b == extent(display.cols(), display.rows()),
        b.wf(),
{
    proof {
        display.lemma_inv();
    }
    Bounds { x_start: 0, x_end: display.width() - 1, y_start: 0, y_end: display.height() - 1 }
}

/// A text terminal on a region of a display.
pub struct Term<'me, Disp: Display, Font: MonoFont, Scroll: Scroller<Disp>> {
    pub display: &'me mut Disp,
    pub font: &'me Font,
    pub scroller: Scroll,
    pub bgcolor: u16,
    pub fgcolor: u16,
    pub bounds: Bounds,
    pub line_offset: u16,
    pub column_offset: u16,
    pub start_with_newline: bool,
}

impl<'me, Disp, Font, Scroll> Term<'me, Disp, Font, Scroll> where
    Disp: Display,
    Font: MonoFont,
    Scroll: Scroller<Disp>,
 {
    /// The display is usable and the region is a rectangle of it.
    pub open spec fn inv(&self) -> bool {
        &&& self.display.inv()
        &&& self.bounds.wf()
        &&& self.bounds.within(extent(self.display.cols(), self.display.rows()))
    }

    /// The terminal can take text: a row of the display takes at least one glyph and at
    /// most 255, and the text row of the cursor lies inside the region.
    pub open spec fn wf(&self) -> bool {
        &&& self.inv()
        &&& 1 <= self.display.cols() as int / Font::glyph_width() as int <= u8::MAX
        &&& self.line_offset + Font::glyph_height() <= self.bounds.spec_height()
    }

    /// What the terminal is set up with.
    pub open spec fn layout(&self) -> Layout {
        Layout {
            cols: self.display.cols(),
            rows: self.display.rows(),
            bounds: self.bounds,
            glyph_width: Font::glyph_width(),
            glyph_height: Font::glyph_height(),
            bitmap: Font::bitmap(),
            fgcolor: self.fgcolor,
            bgcolor: self.bgcolor,
            capacity: self.scroller.row_capacity(),
        }
    }

    /// Where the next character goes.
    pub open spec fn cursor(&self) -> Cursor {
        Cursor {
            line_offset: self.line_offset as int,
            column_offset: self.column_offset as int,
            pending: self.start_with_newline,
        }
    }

    /// Characters that a line takes before it is ended for being full.
    pub open spec fn line_len(&self) -> nat {
        (self.display.cols() as int / Font::glyph_width() as int) as nat
    }

    /// A terminal on the whole display, white on black, with the cursor in the first
    /// column of the first row.
    pub fn new(display: &'me mut Disp, font: &'me Font, scroller: Scroll) -> (t: Self)
        requires
            old(display).inv(),
        ensures
            t.inv(),
            *t.display == *old(display),
            *final(t.display) == *final(display),
            t.scroller == scroller,
            t.bgcolor == 0,
            t.fgcolor == 0xFFFF,
            t.bounds == extent(old(display).cols(), old(display).rows()),
            t.cursor() == (Cursor { line_offset: 0, column_offset: 0, pending: false }),
    {
        let bounds = display_size(display);
        Self {
            font,
            scroller,
            bgcolor: 0u16,
            fgcolor: 0b1111111111111111u16,
            bounds,
            display,
            line_offset: 0,
            column_offset: 0,
            start_with_newline: false,
        }
    }

    /// Makes the requested rectangle of the display the region of the terminal, and
    /// puts the cursor into its first column and row.
    pub fn dimensions(self, x: Span, y: Span) -> (t: Self)
        requires
            self.inv(),
            Bounds::clipped(x, y, extent(self.display.cols(), self.display.rows())) is Some,
        ensures
            t.inv(),
            *t.display == *old(self.display),
            *final(t.display) == *final(self.display),
            t.scroller == self.scroller,
            t.bgcolor == self.bgcolor,
            t.fgcolor == self.fgcolor,
            Some(t.bounds) == Bounds::clipped(
                x,
                y,
                extent(old(self.display).cols(), old(self.display).rows()),
            ),
            t.cursor() == (Cursor { line_offset: 0, column_offset: 0, pending: false }),
    {
        let mut t = self;
        let max = display_size(t.display);
        match Bounds::clip(x, y, &max) {
            Ok(b) => {
                t.bounds = b;
            },
            Err(_) => {},
        }
        t.line_offset = 0;
        t.column_offset = 0;
        t.start_with_newline = false;
        t
    }

    /// Moves what the region shows up by `by` rows.
    fn scroll_up(&mut self, by: u16) -> (r: Result<(), Error>)
        requires
            old(self).inv(),
            by <= i16::MAX,
        ensures
            final(self).inv(),
            final(self).layout() == old(self).layout(),
            final(self).cursor() == old(self).cursor(),
            *final(final(self).display) == *final(old(self).display),
            scroll_outcome(
                *old(self).display,
                *final(self).display,
                old(self).scroller.row_capacity(),
                Span {
                    start: crate::geometry::Limit::Included(old(self).bounds.x_start),
                    end: crate::geometry::Limit::Included(old(self).bounds.x_end),
                },
                Span {
                    start: crate::geometry::Limit::Included(old(self).bounds.y_start),
                    end: crate::geometry::Limit::Included(old(self).bounds.y_end),
                },
                0,
                -(by as int),
                r,
            ),
    {
        let by: i16 = -(by as i16);
        self.scroller.scroll_area(
            self.display,
            self.bounds.range_horiz(),
            self.bounds.range_vert(),
            0,
            by,
        )
    }

    /// The rectangle with the given first and last column and row, if the display has it.
    fn window(&self, x0: u32, x1: u32, y0: u32, y1: u32) -> (r: Option<Bounds>)
        requires
            self.inv(),
        ensures
            r == window_at(
                old(self.display).cols(),
                old(self.display).rows(),
                x0 as int,
                x1 as int,
                y0 as int,
                y1 as int,
            ),
            r matches Some(b) ==> b.wf() && Bounds::clipped(
                Span {
                    start: crate::geometry::Limit::Included(b.x_start),
                    end: crate::geometry::Limit::Included(b.x_end),
                },
                Span {
                    start: crate::geometry::Limit::Included(b.y_start),
                    end: crate::geometry::Limit::Included(b.y_end),
                },
                extent(old(self.display).cols(), old(self.display).rows()),
            ) == Some(b),
    {
        proof {
            self.display.lemma_inv();
        }
        let cols: u32 = self.display.width() as u32;
        let rows: u32 = self.display.height() as u32;
        if x0 <= x1 && x1 < cols && y0 <= y1 && y1 < rows {
            let b = Bounds {
                x_start: x0 as u16,
                x_end: x1 as u16,
                y_start: y0 as u16,
                y_end: y1 as u16,
            };
            proof {
                lemma_clip_own_ranges(b, extent(self.display.cols(), self.display.rows()));
            }
            Some(b)
        } else {
            None
        }
    }

    /// Ends the text row of the cursor and begins the next: clears the rest of the row,
    /// makes room below it where there is none, and puts the cursor into the first
    /// column of the new row.
    fn begin_line(&mut self)
        requires
            old(self).wf(),
        ensures
            final(self).wf(),
            final(self).layout() == old(self).layout(),
            *final(final(self).display) == *final(old(self).display),
            final(self).cursor() == (Cursor {
                line_offset: next_line(old(self).layout(), old(self).line_offset as int),
                column_offset: 0,
                pending: false,
            }),
            Disp::dependable() ==> final(self).display.pixels() == made_room(
                old(self).layout(),
                cleared(old(self).layout(), old(self).display.pixels(), old(self).cursor()),
                old(self).line_offset as int,
            ),
    {
        let height: u16 = Font::char_height() as u16;
        let top: u32 = self.bounds.y_start as u32 + self.line_offset as u32;
        match self.window(
            self.bounds.x_start as u32 + self.column_offset as u32,
            self.bounds.x_end as u32,
            top,
            top + height as u32 - 1,
        ) {
            Some(strip) => {
                let _ = self.display.fill_area_color(
                    strip.range_horiz(),
                    strip.range_vert(),
                    self.bgcolor,
                );
            },
            None => {},
        }
        // is there room for another row below this one?
        let remaining_height: u16 = self.bounds.height() - self.line_offset - height;
        if remaining_height < height {
            let _ = self.scroll_up(height - remaining_height);
            self.line_offset = self.bounds.height() - height;
        } else {
            self.line_offset = self.line_offset + height;
        }
        self.start_with_newline = false;
        self.column_offset = 0;
    }

    /// The colours of the cell of `ch`, in the order in which the display takes them.
    fn cell_colors(&self, ch: char) -> (colors: Vec<u16>)
        ensures
            colors@ == glyph_colors(self.layout(), ch),
    {
        let (fg, bg) = (self.fgcolor, self.bgcolor);
        let mut bits = get_bits_transposed(self.font, ch);
        let mut colors: Vec<u16> = Vec::new();
        let ghost all = glyph_pixels_transposed(
            Font::bitmap(),
            Font::glyph_width(),
            Font::glyph_height(),
            ch,
        );
        loop
            invariant
                fg == self.fgcolor,
                bg == self.bgcolor,
                colors@.len() + bits.remaining().len() == all.len(),
                bits.remaining() == all.skip(colors@.len() as int),
                forall|k: int|
                    0 <= k < colors@.len() ==> colors@[k] == if all[k] {
                        fg
                    } else {
                        bg
                    },
            ensures
                colors@.len() == all.len(),
            decreases bits.remaining().len(),
        {
            match bits.next() {
                Some(bit) => {
                    colors.push(
                        if bit {
                            fg
                        } else {
                            bg
                        },
                    );
                    assert(all.skip(colors@.len() - 1).drop_first() =~= all.skip(
                        colors@.len() as int,
                    ));
                },
                None => {
                    break ;
                },
            }
        }
        assert(colors@ =~= glyph_colors(self.layout(), ch));
        colors
    }

    /// Draws `ch` at the cursor and moves the cursor on by one pixel less than a glyph
    /// is wide.
    fn draw_char(&mut self, ch: char)
        requires
            old(self).wf(),
        ensures
            final(self).wf(),
            final(self).layout() == old(self).layout(),
            *final(final(self).display) == *final(old(self).display),
            final(self).cursor() == (Cursor {
                line_offset: old(self).line_offset as int,
                column_offset: next_column(old(self).layout(), old(self).column_offset as int),
                pending: old(self).start_with_newline,
            }),
            Disp::dependable() ==> final(self).display.pixels() == drawn(
                old(self).layout(),
                old(self).display.pixels(),
                old(self).line_offset as int,
                old(self).column_offset as int,
                ch,
            ),
    {
        let width: u32 = Font::char_width() as u32;
        let height: u32 = Font::char_height() as u32;
        let left: u32 = self.bounds.x_start as u32 + self.column_offset as u32;
        let top: u32 = self.bounds.y_start as u32 + self.line_offset as u32;
        match self.window(left, left + width - 1, top, top + height - 1) {
            Some(cell) => {
                let colors = self.cell_colors(ch);
                let _ = self.display.fill_area(
                    cell.range_horiz(),
                    cell.range_vert(),
                    colors.as_slice(),
                );
            },
            None => {},
        }
        let end_column_offset: u32 = self.column_offset as u32 + width;
        self.column_offset = if end_column_offset - 1 > 0xFFFF {
            0xFFFF
        } else {
            (end_column_offset - 1) as u16
        };
    }

    /// Writes `text` at the cursor.
    ///
    /// A line ends at every line break of the text and whenever it holds as many
    /// characters as a row of the display takes glyphs. The end of a line shows with the
    /// next character only: that character starts the next text row, for which the
    /// region moves up once its last row is in use.
    pub fn write(&mut self, text: &str)
        requires
            old(self).wf(),
        ensures
            final(self).wf(),
            final(self).layout() == old(self).layout(),
            *final(final(self).display) == *final(old(self).display),
            final(self).cursor() == cursor_after(
                old(self).layout(),
                old(self).cursor(),
                split_stream(text@, old(self).line_len(), 0),
            ),
            Disp::dependable() ==> final(self).display.pixels() == pixels_after(
                old(self).layout(),
                old(self).display.pixels(),
                old(self).cursor(),
                split_stream(text@, old(self).line_len(), 0),
            ),
    {
        proof {
            self.display.lemma_inv();
        }
        let line_len: u8 = (self.display.width() / Font::char_width() as u16) as u8;
        let mut chars = SplitByLenOrNewline::new(text, line_len);
        let ghost l = self.layout();
        let ghost all = split_stream(text@, line_len as nat, 0);
        loop
            invariant
                self.wf(),
                self.layout() == l,
                l == old(self).layout(),
                *final(self.display) == *final(old(self).display),
                chars.line_len() == line_len == old(self).line_len(),
                line_len >= 1,
                all == split_stream(text@, line_len as nat, 0),
                cursor_after(l, self.cursor(), chars.pending()) == cursor_after(
                    l,
                    old(self).cursor(),
                    all,
                ),
                Disp::dependable() ==> pixels_after(
                    l,
                    self.display.pixels(),
                    self.cursor(),
                    chars.pending(),
                ) == pixels_after(l, old(self).display.pixels(), old(self).cursor(), all),
            decreases chars.pending().len(),
        {
            let ghost before = *self;
            let ghost pending = chars.pending();
            match chars.next() {
                None => {
                    return ;
                },
                Some(CharOrNewline::NewLine) => {
                    self.start_with_newline = true;
                },
                Some(CharOrNewline::Char(c)) => {
                    if self.start_with_newline {
                        self.begin_line();
                    }
                    self.draw_char(c);
                },
            }
            assert(self.cursor() == cursor_step(l, before.cursor(), pending[0]));
            assert(Disp::dependable() ==> self.display.pixels() == pixels_step(
                l,
                before.display.pixels(),
                before.cursor(),
                pending[0],
            ));
        }
    }

    /// Writes `s` at the cursor; this cannot fail.
    pub fn write_str(&mut self, s: &str) -> (r: Result<(), Error>)
        requires
            old(self).wf(),
        ensures
            r is Ok,
            final(self).wf(),
            final(self).layout() == old(self).layout(),
            *final(final(self).display) == *final(old(self).display),
            final(self).cursor() == cursor_after(
                old(self).layout(),
                old(self).cursor(),
                split_stream(s@, old(self).line_len(), 0),
            ),
            Disp::dependable() ==> final(self).display.pixels() == pixels_after(
                old(self).layout(),
                old(self).display.pixels(),
                old(self).cursor(),
                split_stream(s@, old(self).line_len(), 0),
            ),
    {
        Ok(self.write(s))
    }
}

} // verus!
