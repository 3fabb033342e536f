use vstd::prelude::*;
use vstd::slice::slice_subrange;
use crate::term::font::{MonoFont, GLYPH_COUNT};

verus! {

/// Bit `n` of a packed table, counted from the least significant bit of the first byte.
pub open spec fn bit_at(data: Seq<u8>, n: int) -> bool {
    data[n / 8] & (1u8 << ((n % 8) as u8)) != 0
}

/// Place of a character's glyph in the table: the codes 32 to 126 have their own, and
/// every other character shares the last one.
pub open spec fn glyph_index(ch: char) -> int {
    if 32 <= ch as u32 <= 127 {
        ch as u32 - 32
    } else {
        GLYPH_COUNT - 1
    }
}

/// The pixels of a character's glyph in the order in which they are stored: row after row.
pub open spec fn glyph_pixels(data: Seq<u8>, width: nat, height: nat, ch: char) -> Seq<bool> {
    Seq::new(width * height, |k: int| bit_at(data, glyph_index(ch) * (width * height) + k))
}

/// The pixels of a character's glyph column after column: first the leading bit of every
/// stored row, then the second bit of every row, and so on.
pub open spec fn glyph_pixels_transposed(data: Seq<u8>, width: nat, height: nat, ch: char) -> Seq<
    bool,
> {
    Seq::new(
        width * height,
        |k: int|
            bit_at(
                data,
                glyph_index(ch) * (width * height) + (k % height as int) * width + k / height as int,
            ),
    )
}

/// Yields the pixels of one glyph in stored order.
pub struct CharPixelIter<'a> {
    data: &'a [u8],
    bit_offset: u8,
    count: u16,
}

impl<'a> CharPixelIter<'a> {
    #[verifier::type_invariant]
    spec fn inv(self) -> bool {
        &&& self.bit_offset < 8
        &&& self.bit_offset + self.count <= self.data@.len() * 8
    }

    /// The pixels that are still to come.
    pub closed spec fn remaining(self) -> Seq<bool> {
        Seq::new(self.count as nat, |k: int| bit_at(self.data@, self.bit_offset + k))
    }

    /// Hands out the next pixel, or `None` once the glyph is through.
    pub fn next(&mut self) -> (r: Option<bool>)
        ensures
            old(self).remaining().len() == 0 ==> r is None && final(self).remaining()
                == old(self).remaining(),
            old(self).remaining().len() > 0 ==> r == Some(old(self).remaining()[0])
                && final(self).remaining() == old(self).remaining().drop_first(),
    {
        proof {
            use_type_invariant(&*self);
        }
        if self.count == 0 {
            return None;
        }
        let bit: u8 = self.data[0] & (1u8 << self.bit_offset);
        let ghost before = *self;
        if self.bit_offset == 7 {
            *self = CharPixelIter {
                data: slice_subrange(self.data, 1, self.data.len()),
                bit_offset: 0,
                count: self.count - 1,
            };
            assert forall|k: int| 0 <= k < self.count implies bit_at(self.data@, k) == bit_at(
                before.data@,
                8 + k,
            ) by {
                assert((8 + k) / 8 == 1 + k / 8);
                assert((8 + k) % 8 == k % 8);
            }
        } else {
            *self = CharPixelIter {
                data: self.data,
                bit_offset: self.bit_offset + 1,
                count: self.count - 1,
            };
        }
        assert(self.remaining() =~= before.remaining().drop_first());
        Some(bit != 0)
    }
}

/// Yields the pixels of one glyph column after column.
pub struct CharPixelTransIter<'font, Font: MonoFont> {
    data: &'font [u8],
    bit_offset: u32,
    row: u8,
    col: u8,
    _font: &'font Font,
}

impl<'font, Font: MonoFont> CharPixelTransIter<'font, Font> {
    #[verifier::type_invariant]
    spec fn inv(self) -> bool {
        let w = Font::glyph_width();
        let h = Font::glyph_height();
        &&& 1 <= w <= 255 && 1 <= h <= 255
        &&& self.col <= w
        &&& self.row < h
        &&& self.col == w ==> self.row == 0
        &&& self.bit_offset + w * h <= self.data@.len() * 8
        &&& self.bit_offset + w * h <= u32::MAX
    }

    /// The pixels that are still to come.
    pub closed spec fn remaining(self) -> Seq<bool> {
        let w = Font::glyph_width();
        let h = Font::glyph_height();
        Seq::new(
            (w * h - (self.col * h + self.row)) as nat,
            |k: int|
                bit_at(
                    self.data@,
                    self.bit_offset + ((self.col * h + self.row + k) % h as int) * w + (self.col * h
                        + self.row + k) / h as int,
                ),
        )
    }

    /// Hands out the next pixel, or `None` once the glyph is through.
    pub fn next(&mut self) -> (r: Option<bool>)
        ensures
            old(self).remaining().len() == 0 ==> r is None && final(self).remaining()
                == old(self).remaining(),
            old(self).remaining().len() > 0 ==> r == Some(old(self).remaining()[0])
                && final(self).remaining() == old(self).remaining().drop_first(),
    {
        proof {
            use_type_invariant(&*self);
        }
        let width: u8 = Font::char_width();
        let height: u8 = Font::char_height();
        let ghost w = width as int;
        let ghost h = height as int;
        let ghost before = *self;
        let ghost done = self.col * h + self.row;
        if self.col == width {
            return None;
        }
        proof {
            lemma_cell_position(w, h, self.col as int, self.row as int);
        }
        let bit_offset: u32 = self.bit_offset + self.row as u32 * width as u32 + self.col as u32;
        let byte_offset: usize = (bit_offset / 8) as usize;
        let shift: u8 = (bit_offset % 8) as u8;
        let bit: u8 = self.data[byte_offset] & (1u8 << shift);
        if self.row + 1 == height {
            *self = CharPixelTransIter {
                data: self.data,
                bit_offset: self.bit_offset,
                row: 0,
                col: self.col + 1,
                _font: self._font,
            };
            assert(self.col * h + self.row == done + 1) by (nonlinear_arith)
                requires
                    self.col == before.col + 1,
                    self.row == 0,
                    before.row + 1 == h,
                    done == before.col * h + before.row,
            ;
        } else {
            *self = CharPixelTransIter {
                data: self.data,
                bit_offset: self.bit_offset,
                row: self.row + 1,
                col: self.col,
                _font: self._font,
            };
        }
        assert(self.remaining() =~= before.remaining().drop_first());
        Some(bit != 0)
    }
}

/// Where the cell in column `col` and row `row` of a `w` by `h` glyph stands: at place
/// `col * h + row` of the column-after-column order, and at bit `row * w + col` of the
/// glyph.
pub proof fn lemma_cell_position(w: int, h: int, col: int, row: int)
    requires
        0 < w,
        0 < h,
        0 <= col < w,
        0 <= row < h,
    ensures
        0 <= col * h + row < w * h,
        0 <= row * w + col < w * h,
        (col * h + row) % h == row,
        (col * h + row) / h == col,
{
    assert(0 <= col * h + row < w * h) by (nonlinear_arith)
        requires
            0 <= col < w,
            0 <= row < h,
    ;
    assert(0 <= row * w + col < w * h) by (nonlinear_arith)
        requires
            0 <= col < w,
            0 <= row < h,
    ;
    vstd::arithmetic::div_mod::lemma_fundamental_div_mod_converse(col * h + row, h, col, row);
}

/// A glyph has exactly `width * height` pixels in either order, whatever the character.
pub proof fn lemma_glyph_pixel_count(data: Seq<u8>, width: nat, height: nat, ch: char)
    ensures
        glyph_pixels(data, width, height, ch).len() == width * height,
        glyph_pixels_transposed(data, width, height, ch).len() == width * height,
{
}

/// A character outside the codes 32 to 126 is drawn exactly as the code 127 is: with the
/// last glyph of the table.
pub proof fn lemma_fallback_glyph(data: Seq<u8>, width: nat, height: nat, ch: char)
    requires
        !(32 <= ch as u32 <= 126),
    ensures
        glyph_index(ch) == GLYPH_COUNT - 1,
        glyph_pixels(data, width, height, ch) == glyph_pixels(data, width, height, '\u{7f}'),
        glyph_pixels_transposed(data, width, height, ch) == glyph_pixels_transposed(
            data,
            width,
            height,
            '\u{7f}',
        ),
{
    assert(glyph_index(ch) == glyph_index('\u{7f}'));
    assert(glyph_pixels(data, width, height, ch) =~= glyph_pixels(data, width, height, '\u{7f}'));
    assert(glyph_pixels_transposed(data, width, height, ch) =~= glyph_pixels_transposed(
        data,
        width,
        height,
        '\u{7f}',
    ));
}

/// The two orders hold the same pixels: the one at place `col * height + row` of the
/// column-after-column order is the one at place `row * width + col` of the stored order.
pub proof fn lemma_transposed_pixel(
    data: Seq<u8>,
    width: nat,
    height: nat,
    ch: char,
    col: int,
    row: int,
)
    requires
        0 <= col < width,
        0 <= row < height,
    ensures
        0 <= col * height + row < width * height,
        0 <= row * width + col < width * height,
        glyph_pixels_transposed(data, width, height, ch)[col * height + row] == glyph_pixels(
            data,
            width,
            height,
            ch,
        )[row * width + col],
{
    lemma_cell_position(width as int, height as int, col, row);
}

/// The table of a font holds `GLYPH_COUNT` times the bits of one glyph.
proof fn lemma_table_size(w: int, h: int)
    ensures
        GLYPH_COUNT * w * h == GLYPH_COUNT * (w * h),
        w * h == h * w,
{
    assert(GLYPH_COUNT * w * h == GLYPH_COUNT * (w * h)) by (nonlinear_arith);
    assert(w * h == h * w) by (nonlinear_arith);
}

/// The bit offset of a character's glyph in a table whose glyphs have `bits` bits each.
fn glyph_offset(ch: char, bits: u16) -> (offset: u32)
    ensures
        offset == glyph_index(ch) * bits,
        offset + bits <= GLYPH_COUNT * bits,
{
    let mut code: u32 = ch as u32;
    if code < 32 || code > 127 {
        code = 127;
    }
    let index: u32 = code - 32;
    assert(index * bits + bits <= 96 * bits && index * bits <= 95 * 0xFFFF) by (nonlinear_arith)
        requires
            0 <= index <= 95,
            0 <= bits <= 0xFFFF,
    ;
    index * bits as u32
}

/// The pixels of `ch` in the order in which the font stores them.
///
/// A character without a glyph of its own is drawn with the last glyph of the table.
pub fn get_bits<'font, Font: MonoFont>(_font: &'font Font, ch: char) -> (it: CharPixelIter<
    'static,
>)
    ensures
        it.remaining() == glyph_pixels(
            Font::bitmap(),
            Font::glyph_width(),
            Font::glyph_height(),
            ch,
        ),
{
    let width: u8 = Font::char_width();
    let height: u8 = Font::char_height();
    assert(height * width <= 255 * 255) by (nonlinear_arith)
        requires
            width <= 255,
            height <= 255,
    ;
    let bits_per_char: u16 = height as u16 * width as u16;
    let bit_offset: u32 = glyph_offset(ch, bits_per_char);
    proof {
        lemma_table_size(Font::glyph_width() as int, Font::glyph_height() as int);
    }
    let data: &'static [u8] = Font::data();
    let byte_offset: usize = (bit_offset / 8) as usize;
    let it = CharPixelIter {
        data: slice_subrange(data, byte_offset, data.len()),
        bit_offset: (bit_offset % 8) as u8,
        count: bits_per_char,
    };
    proof {
        let ghost whole = glyph_pixels(
            Font::bitmap(),
            Font::glyph_width(),
            Font::glyph_height(),
            ch,
        );
        assert(Font::glyph_width() * Font::glyph_height() == bits_per_char);
        assert forall|k: int| 0 <= k < bits_per_char implies it.remaining()[k] == whole[k] by {
            let n = bit_offset % 8 + k;
            assert((byte_offset * 8 + n) / 8 == byte_offset + n / 8);
            assert((byte_offset * 8 + n) % 8 == n % 8);
        }
        assert(it.remaining() =~= whole);
    }
    it
}

/// The pixels of `ch` column after column, as a window that is written row by row
/// wants them when the font stores the columns of the drawing.
///
/// A character without a glyph of its own is drawn with the last glyph of the table.
pub fn get_bits_transposed<'font, Font: MonoFont>(_font: &'font Font, ch: char) -> (it:
    CharPixelTransIter<'font, Font>)
    ensures
        it.remaining() == glyph_pixels_transposed(
            Font::bitmap(),
            Font::glyph_width(),
            Font::glyph_height(),
            ch,
        ),
{
    let width: u8 = Font::char_width();
    let height: u8 = Font::char_height();
    assert(height * width <= 255 * 255) by (nonlinear_arith)
        requires
            width <= 255,
            height <= 255,
    ;
    let bits_per_char: u16 = height as u16 * width as u16;
    let bit_offset: u32 = glyph_offset(ch, bits_per_char);
    proof {
        lemma_table_size(Font::glyph_width() as int, Font::glyph_height() as int);
    }
    let it = CharPixelTransIter { data: Font::data(), bit_offset, row: 0, col: 0, _font };
    proof {
        assert(Font::glyph_width() * Font::glyph_height() == bits_per_char);
        assert(it.remaining() =~= glyph_pixels_transposed(
            Font::bitmap(),
            Font::glyph_width(),
            Font::glyph_height(),
            ch,
        ));
    }
    it
}

} // verus!
