use vstd::prelude::*;
use vstd::array::array_as_slice;

verus! {

/// Number of glyphs in a font table: one for each code from 32 to 126, then the glyph
/// that stands for every other character.
pub const GLYPH_COUNT: usize = 96;

/// A fixed-size monochrome font.
///
/// The table is a packed bit array: glyph after glyph, row after row within a glyph, and
/// the bits of each byte taken from the least significant one up.
pub trait MonoFont {
    /// Bits in one stored row of a glyph.
    spec fn glyph_width() -> nat;

    /// Stored rows of a glyph.
    spec fn glyph_height() -> nat;

    /// The packed table.
    spec fn bitmap() -> Seq<u8>;

    fn char_width() -> (w: u8)
        ensures
            w == Self::glyph_width(),
            w >= 1,
    ;

    fn char_height() -> (h: u8)
        ensures
            h == Self::glyph_height(),
            h >= 1,
    ;

    /// The table holds all `GLYPH_COUNT` glyphs.
    fn data() -> (d: &'static [u8])
        ensures
            d@ == Self::bitmap(),
            d@.len() * 8 >= GLYPH_COUNT * Self::glyph_width() * Self::glyph_height(),
    ;
}

/// The built-in font: 5 by 7 drawings in cells of 8 by 8. A byte of the table is one
/// column of the drawing as it appears on the panel, its least significant bit on top.
pub struct ThisFont;

pub const THIS_FONT_DATA: [u8; 768] = [
    0x00, 0x00, 0x00, 0x00, 0x00, 0x00, 0x00, 0x00,  // ' '
    0x00, 0x00, 0x00, 0x5F, 0x00, 0x00, 0x00, 0x00,  // '!'
    0x00, 0x00, 0x07, 0x00, 0x07, 0x00, 0x00, 0x00,  // '"'
    0x00, 0x14, 0x7F, 0x14, 0x7F, 0x14, 0x00, 0x00,  // '#'
    0x00, 0x24, 0x2A, 0x7F, 0x2A, 0x12, 0x00, 0x00,  // '$'
    0x00, 0x23, 0x13, 0x08, 0x64, 0x62, 0x00, 0x00,  // '%'
    0x00, 0x36, 0x49, 0x55, 0x22, 0x50, 0x00, 0x00,  // '&'
    0x00, 0x00, 0x00, 0x07, 0x00, 0x00, 0x00, 0x00,  // "'"
    0x00, 0x00, 0x1C, 0x22, 0x41, 0x00, 0x00, 0x00,  // '('
    0x00, 0x00, 0x41, 0x22, 0x1C, 0x00, 0x00, 0x00,  // ')'
    0x00, 0x14, 0x08, 0x3E, 0x08, 0x14, 0x00, 0x00,  // '*'
    0x00, 0x08, 0x08, 0x3E, 0x08, 0x08, 0x00, 0x00,  // '+'
    0x00, 0x00, 0x50, 0x30, 0x00, 0x00, 0x00, 0x00,  // ','
    0x00, 0x08, 0x08, 0x08, 0x08, 0x08, 0x00, 0x00,  // '-'
    0x00, 0x00, 0x60, 0x60, 0x00, 0x00, 0x00, 0x00,  // '.'
    0x00, 0x20, 0x10, 0x08, 0x04, 0x02, 0x00, 0x00,  // '/'
    0x00, 0x3E, 0x51, 0x49, 0x45, 0x3E, 0x00, 0x00,  // '0'
    0x00, 0x00, 0x42, 0x7F, 0x40, 0x00, 0x00, 0x00,  // '1'
    0x00, 0x42, 0x61, 0x51, 0x49, 0x46, 0x00, 0x00,  // '2'
    0x00, 0x21, 0x41, 0x45, 0x4B, 0x31, 0x00, 0x00,  // '3'
    0x00, 0x18, 0x14, 0x12, 0x7F, 0x10, 0x00, 0x00,  // '4'
    0x00, 0x27, 0x45, 0x45, 0x45, 0x39, 0x00, 0x00,  // '5'
    0x00, 0x3C, 0x4A, 0x49, 0x49, 0x30, 0x00, 0x00,  // '6'
    0x00, 0x01, 0x71, 0x09, 0x05, 0x03, 0x00, 0x00,  // '7'
    0x00, 0x36, 0x49, 0x49, 0x49, 0x36, 0x00, 0x00,  // '8'
    0x00, 0x06, 0x49, 0x49, 0x29, 0x1E, 0x00, 0x00,  // '9'
    0x00, 0x00, 0x36, 0x36, 0x00, 0x00, 0x00, 0x00,  // ':'
    0x00, 0x00, 0x56, 0x36, 0x00, 0x00, 0x00, 0x00,  // ';'
    0x00, 0x08, 0x14, 0x22, 0x41, 0x00, 0x00, 0x00,  // '<'
    0x00, 0x14, 0x14, 0x14, 0x14, 0x14, 0x00, 0x00,  // '='
    0x00, 0x00, 0x41, 0x22, 0x14, 0x08, 0x00, 0x00,  // '>'
    0x00, 0x02, 0x01, 0x51, 0x09, 0x06, 0x00, 0x00,  // '?'
    0x00, 0x32, 0x49, 0x79, 0x41, 0x3E, 0x00, 0x00,  // '@'
    0x00, 0x7E, 0x11, 0x11, 0x11, 0x7E, 0x00, 0x00,  // 'A'
    0x00, 0x7F, 0x49, 0x49, 0x49, 0x36, 0x00, 0x00,  // 'B'
    0x00, 0x3E, 0x41, 0x41, 0x41, 0x22, 0x00, 0x00,  // 'C'
    0x00, 0x7F, 0x41, 0x41, 0x22, 0x1C, 0x00, 0x00,  // 'D'
    0x00, 0x7F, 0x49, 0x49, 0x49, 0x41, 0x00, 0x00,  // 'E'
    0x00, 0x7F, 0x09, 0x09, 0x09, 0x01, 0x00, 0x00,  // 'F'
    0x00, 0x3E, 0x41, 0x49, 0x49, 0x7A, 0x00, 0x00,  // 'G'
    0x00, 0x7F, 0x08, 0x08, 0x08, 0x7F, 0x00, 0x00,  // 'H'
    0x00, 0x00, 0x41, 0x7F, 0x41, 0x00, 0x00, 0x00,  // 'I'
    0x00, 0x20, 0x40, 0x41, 0x3F, 0x01, 0x00, 0x00,  // 'J'
    0x00, 0x7F, 0x08, 0x14, 0x22, 0x41, 0x00, 0x00,  // 'K'
    0x00, 0x7F, 0x40, 0x40, 0x40, 0x40, 0x00, 0x00,  // 'L'
    0x00, 0x7F, 0x02, 0x0C, 0x02, 0x7F, 0x00, 0x00,  // 'M'
    0x00, 0x7F, 0x04, 0x08, 0x10, 0x7F, 0x00, 0x00,  // 'N'
    0x00, 0x3E, 0x41, 0x41, 0x41, 0x3E, 0x00, 0x00,  // 'O'
    0x00, 0x7F, 0x09, 0x09, 0x09, 0x06, 0x00, 0x00,  // 'P'
    0x00, 0x3E, 0x41, 0x51, 0x21, 0x5E, 0x00, 0x00,  // 'Q'
    0x00, 0x7F, 0x09, 0x19, 0x29, 0x46, 0x00, 0x00,  // 'R'
    0x00, 0x46, 0x49, 0x49, 0x49, 0x31, 0x00, 0x00,  // 'S'
    0x00, 0x01, 0x01, 0x7F, 0x01, 0x01, 0x00, 0x00,  // 'T'
    0x00, 0x3F, 0x40, 0x40, 0x40, 0x3F, 0x00, 0x00,  // 'U'
    0x00, 0x1F, 0x20, 0x40, 0x20, 0x1F, 0x00, 0x00,  // 'V'
    0x00, 0x3F, 0x40, 0x38, 0x40, 0x3F, 0x00, 0x00,  // 'W'
    0x00, 0x63, 0x14, 0x08, 0x14, 0x63, 0x00, 0x00,  // 'X'
    0x00, 0x07, 0x08, 0x70, 0x08, 0x07, 0x00, 0x00,  // 'Y'
    0x00, 0x61, 0x51, 0x49, 0x45, 0x43, 0x00, 0x00,  // 'Z'
    0x00, 0x00, 0x7F, 0x41, 0x41, 0x00, 0x00, 0x00,  // '['
    0x00, 0x02, 0x04, 0x08, 0x10, 0x20, 0x00, 0x00,  // '\\'
    0x00, 0x00, 0x41, 0x41, 0x7F, 0x00, 0x00, 0x00,  // ']'
    0x00, 0x04, 0x02, 0x01, 0x02, 0x04, 0x00, 0x00,  // '^'
    0x00, 0x40, 0x40, 0x40, 0x40, 0x40, 0x00, 0x00,  // '_'
    0x00, 0x00, 0x01, 0x02, 0x04, 0x00, 0x00, 0x00,  // '`'
    0x00, 0x20, 0x54, 0x54, 0x54, 0x78, 0x00, 0x00,  // 'a'
    0x00, 0x7F, 0x48, 0x44, 0x44, 0x38, 0x00, 0x00,  // 'b'
    0x00, 0x38, 0x44, 0x44, 0x44, 0x20, 0x00, 0x00,  // 'c'
    0x00, 0x38, 0x44, 0x44, 0x48, 0x7F, 0x00, 0x00,  // 'd'
    0x00, 0x38, 0x54, 0x54, 0x54, 0x18, 0x00, 0x00,  // 'e'
    0x00, 0x08, 0x7E, 0x09, 0x01, 0x02, 0x00, 0x00,  // 'f'
    0x00, 0x0C, 0x52, 0x52, 0x52, 0x3E, 0x00, 0x00,  // 'g'
    0x00, 0x7F, 0x08, 0x04, 0x04, 0x78, 0x00, 0x00,  // 'h'
    0x00, 0x00, 0x44, 0x7D, 0x40, 0x00, 0x00, 0x00,  // 'i'
    0x00, 0x20, 0x40, 0x44, 0x3D, 0x00, 0x00, 0x00,  // 'j'
    0x00, 0x7F, 0x10, 0x28, 0x44, 0x00, 0x00, 0x00,  // 'k'
    0x00, 0x00, 0x41, 0x7F, 0x40, 0x00, 0x00, 0x00,  // 'l'
    0x00, 0x7C, 0x04, 0x18, 0x04, 0x78, 0x00, 0x00,  // 'm'
    0x00, 0x7C, 0x08, 0x04, 0x04, 0x78, 0x00, 0x00,  // 'n'
    0x00, 0x38, 0x44, 0x44, 0x44, 0x38, 0x00, 0x00,  // 'o'
    0x00, 0x7C, 0x14, 0x14, 0x14, 0x08, 0x00, 0x00,  // 'p'
    0x00, 0x08, 0x14, 0x14, 0x18, 0x7C, 0x00, 0x00,  // 'q'
    0x00, 0x7C, 0x08, 0x04, 0x04, 0x08, 0x00, 0x00,  // 'r'
    0x00, 0x48, 0x54, 0x54, 0x54, 0x20, 0x00, 0x00,  // 's'
    0x00, 0x04, 0x3F, 0x44, 0x40, 0x20, 0x00, 0x00,  // 't'
    0x00, 0x3C, 0x40, 0x40, 0x20, 0x7C, 0x00, 0x00,  // 'u'
    0x00, 0x1C, 0x20, 0x40, 0x20, 0x1C, 0x00, 0x00,  // 'v'
    0x00, 0x3C, 0x40, 0x30, 0x40, 0x3C, 0x00, 0x00,  // 'w'
    0x00, 0x44, 0x28, 0x10, 0x28, 0x44, 0x00, 0x00,  // 'x'
    0x00, 0x0C, 0x50, 0x50, 0x50, 0x3C, 0x00, 0x00,  // 'y'
    0x00, 0x44, 0x64, 0x54, 0x4C, 0x44, 0x00, 0x00,  // 'z'
    0x00, 0x00, 0x08, 0x36, 0x41, 0x00, 0x00, 0x00,  // '{'
    0x00, 0x00, 0x00, 0x7F, 0x00, 0x00, 0x00, 0x00,  // '|'
    0x00, 0x00, 0x41, 0x36, 0x08, 0x00, 0x00, 0x00,  // '}'
    0x00, 0x08, 0x04, 0x08, 0x10, 0x08, 0x00, 0x00,  // '~'
    0x00, 0x7F, 0x41, 0x41, 0x41, 0x7F, 0x00, 0x00,  // fallback
];

impl MonoFont for ThisFont {
    open spec fn glyph_width() -> nat {
        8
    }

    open spec fn glyph_height() -> nat {
        8
    }

    open spec fn bitmap() -> Seq<u8> {
        THIS_FONT_DATA@
    }

    fn char_width() -> (w: u8) {
        8
    }

    fn char_height() -> (h: u8) {
        8
    }

    fn data() -> (d: &'static [u8]) {
        array_as_slice(&THIS_FONT_DATA)
    }
}

} // verus!
