use lcd_term::display::Display;
use lcd_term::framebuffer::Framebuffer;
use lcd_term::geometry::{Bounds, Span};
use lcd_term::term::font::ThisFont;
use lcd_term::term::vertical_scroller::CopyScroller;
use lcd_term::term::{display_size, get_bits_transposed, Term};

const FG: u16 = 0xFFFF;
const BG: u16 = 0;

fn snapshot(fb: &Framebuffer) -> Vec<u16> {
    let mut all = Vec::new();
    for y in 0..fb.height() {
        for x in 0..fb.width() {
            all.push(fb.pixel(x, y).unwrap());
        }
    }
    all
}

// draws the cell of a character into a copy of the surface, independently of the terminal
fn draw(surface: &mut Vec<u16>, width: usize, left: usize, top: usize, ch: char) {
    let mut bits = get_bits_transposed(&ThisFont, ch);
    for row in 0..8 {
        for col in 0..8 {
            let bit = bits.next().unwrap();
            surface[(top + row) * width + left + col] = if bit { FG } else { BG };
        }
    }
}

fn clear(surface: &mut Vec<u16>, width: usize, x: (usize, usize), y: (usize, usize)) {
    for row in y.0..=y.1 {
        for col in x.0..=x.1 {
            surface[row * width + col] = BG;
        }
    }
}

#[test]
fn display_size_is_the_whole_surface() {
    let fb = Framebuffer::new(32, 24, 0).unwrap();
    assert_eq!(display_size(&fb), Bounds { x_start: 0, x_end: 31, y_start: 0, y_end: 23 });
}

#[test]
fn a_new_terminal_covers_the_display() {
    let mut fb = Framebuffer::new(32, 24, 0).unwrap();
    let mut buffer = [0u16; 64];
    let term = Term::new(&mut fb, &ThisFont, CopyScroller::new(&mut buffer));
    assert_eq!(term.bounds, Bounds { x_start: 0, x_end: 31, y_start: 0, y_end: 23 });
    assert_eq!((term.line_offset, term.column_offset, term.start_with_newline), (0, 0, false));
    assert_eq!((term.fgcolor, term.bgcolor), (0xFFFF, 0));
    let term = term.dimensions(Span::full(), Span::from(8));
    assert_eq!(term.bounds, Bounds { x_start: 0, x_end: 31, y_start: 8, y_end: 23 });
}

#[test]
fn characters_go_side_by_side_with_one_pixel_shared() {
    let mut fb = Framebuffer::new(32, 24, 0x1111).unwrap();
    let mut expected = snapshot(&fb);
    let mut buffer = [0u16; 64];
    {
        let mut term = Term::new(&mut fb, &ThisFont, CopyScroller::new(&mut buffer));
        term.write("Hi");
        assert_eq!((term.line_offset, term.column_offset, term.start_with_newline), (0, 14, false));
    }
    draw(&mut expected, 32, 0, 0, 'H');
    draw(&mut expected, 32, 7, 0, 'i');
    assert_eq!(snapshot(&fb), expected);
}

#[test]
fn a_line_break_shows_with_the_next_character() {
    let mut fb = Framebuffer::new(32, 24, 0x1111).unwrap();
    let mut expected = snapshot(&fb);
    let mut buffer = [0u16; 64];
    {
        let mut term = Term::new(&mut fb, &ThisFont, CopyScroller::new(&mut buffer));
        term.write("a\n");
        assert_eq!((term.line_offset, term.column_offset, term.start_with_newline), (0, 7, true));
    }
    draw(&mut expected, 32, 0, 0, 'a');
    assert_eq!(snapshot(&fb), expected);
    {
        let mut term = Term::new(&mut fb, &ThisFont, CopyScroller::new(&mut buffer));
        term.write("a\nb");
        assert_eq!((term.line_offset, term.column_offset, term.start_with_newline), (8, 7, false));
    }
    clear(&mut expected, 32, (7, 31), (0, 7));
    draw(&mut expected, 32, 0, 8, 'b');
    assert_eq!(snapshot(&fb), expected);
}

#[test]
fn text_in_a_region_of_one_row_scrolls_up_once() {
    let mut fb = Framebuffer::new(32, 24, 0x1111).unwrap();
    let mut expected = snapshot(&fb);
    let mut buffer = [0u16; 64];
    {
        let term = Term::new(&mut fb, &ThisFont, CopyScroller::new(&mut buffer));
        let mut term = term.dimensions(Span::full(), Span::new(8, 16));
        term.write("AB\nC");
        assert_eq!((term.line_offset, term.column_offset, term.start_with_newline), (0, 7, false));
    }
    // 'A' and 'B' in the only row of the region
    draw(&mut expected, 32, 0, 8, 'A');
    draw(&mut expected, 32, 7, 8, 'B');
    // the rest of the row is cleared, from the cursor on
    clear(&mut expected, 32, (14, 31), (8, 15));
    // the region goes up by one glyph height, once
    for row in 8..16 {
        for col in 0..32 {
            expected[(row - 8) * 32 + col] = expected[row * 32 + col];
        }
    }
    // 'C' in the first cell of the row
    draw(&mut expected, 32, 0, 8, 'C');
    assert_eq!(snapshot(&fb), expected);
    // the rows below the region are untouched
    assert_eq!(fb.pixel(0, 16), Some(0x1111));
}

#[test]
fn a_region_taller_than_the_text_scrolls_by_what_is_missing() {
    let mut fb = Framebuffer::new(16, 32, 0x2222).unwrap();
    let mut expected = snapshot(&fb);
    let mut buffer = [0u16; 16];
    {
        let term = Term::new(&mut fb, &ThisFont, CopyScroller::new(&mut buffer));
        // 12 rows: one text row and a half
        let mut term = term.dimensions(Span::full(), Span::new(10, 22));
        term.write("x\ny");
        assert_eq!((term.line_offset, term.column_offset), (4, 7));
    }
    draw(&mut expected, 16, 0, 10, 'x');
    clear(&mut expected, 16, (7, 15), (10, 17));
    let before = expected.clone();
    for row in 10..22 {
        for col in 0..16 {
            expected[(row - 4) * 16 + col] = before[row * 16 + col];
        }
    }
    draw(&mut expected, 16, 0, 14, 'y');
    assert_eq!(snapshot(&fb), expected);
}

#[test]
fn a_scroll_that_cannot_be_made_is_skipped() {
    let mut fb = Framebuffer::new(16, 8, 0x3333).unwrap();
    let mut expected = snapshot(&fb);
    let mut buffer = [0u16; 16];
    {
        let mut term = Term::new(&mut fb, &ThisFont, CopyScroller::new(&mut buffer));
        term.write("p\nq");
        assert_eq!((term.line_offset, term.column_offset), (0, 7));
    }
    draw(&mut expected, 16, 0, 0, 'p');
    clear(&mut expected, 16, (7, 15), (0, 7));
    draw(&mut expected, 16, 0, 0, 'q');
    assert_eq!(snapshot(&fb), expected);
}

#[test]
fn a_full_line_wraps() {
    // a display of 16 columns takes two glyphs in a row
    let mut fb = Framebuffer::new(16, 24, 0).unwrap();
    let mut expected = snapshot(&fb);
    let mut buffer = [0u16; 16];
    {
        let mut term = Term::new(&mut fb, &ThisFont, CopyScroller::new(&mut buffer));
        term.write("abc");
        assert_eq!((term.line_offset, term.column_offset), (8, 7));
    }
    draw(&mut expected, 16, 0, 0, 'a');
    draw(&mut expected, 16, 7, 0, 'b');
    clear(&mut expected, 16, (14, 15), (0, 7));
    draw(&mut expected, 16, 0, 8, 'c');
    assert_eq!(snapshot(&fb), expected);
}

#[test]
fn a_cell_that_leaves_the_display_is_not_drawn() {
    let mut fb = Framebuffer::new(20, 8, 0).unwrap();
    let mut expected = snapshot(&fb);
    let mut buffer = [0u16; 20];
    {
        let mut term = Term::new(&mut fb, &ThisFont, CopyScroller::new(&mut buffer));
        // every write starts a new count of the characters in the line
        term.write("a");
        term.write("b");
        assert_eq!((term.line_offset, term.column_offset), (0, 14));
        term.write("c");
        assert_eq!((term.line_offset, term.column_offset), (0, 21));
        term.write("d");
        assert_eq!((term.line_offset, term.column_offset), (0, 28));
    }
    draw(&mut expected, 20, 0, 0, 'a');
    draw(&mut expected, 20, 7, 0, 'b');
    assert_eq!(snapshot(&fb), expected);
}

#[test]
fn write_str_writes() {
    let mut fb = Framebuffer::new(32, 24, 0).unwrap();
    let mut expected = snapshot(&fb);
    let mut buffer = [0u16; 64];
    {
        let mut term = Term::new(&mut fb, &ThisFont, CopyScroller::new(&mut buffer));
        assert_eq!(term.write_str("ok"), Ok(()));
    }
    draw(&mut expected, 32, 0, 0, 'o');
    draw(&mut expected, 32, 7, 0, 'k');
    assert_eq!(snapshot(&fb), expected);
}
