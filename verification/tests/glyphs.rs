use lcd_term::term::font::{MonoFont, ThisFont, GLYPH_COUNT, THIS_FONT_DATA};
use lcd_term::term::{get_bits, get_bits_transposed};

fn collect_rows(ch: char) -> Vec<bool> {
    let mut it = get_bits(&ThisFont, ch);
    let mut pixels = Vec::new();
    while let Some(p) = it.next() {
        pixels.push(p);
    }
    assert!(it.next().is_none());
    pixels
}

fn collect_columns(ch: char) -> Vec<bool> {
    let mut it = get_bits_transposed(&ThisFont, ch);
    let mut pixels = Vec::new();
    while let Some(p) = it.next() {
        pixels.push(p);
    }
    assert!(it.next().is_none());
    pixels
}

#[test]
fn row_major_pixels_of_capital_a() {
    let pixels = collect_rows('A');
    assert_eq!(pixels.len(), 64);
    // second stored row is 0x7E: bits 1 to 6 are set
    let row: Vec<bool> = pixels[8..16].to_vec();
    assert_eq!(row, vec![false, true, true, true, true, true, true, false]);
    assert_eq!(ThisFont::char_width(), 8);
    assert_eq!(ThisFont::char_height(), 8);
}

#[test]
fn transposed_pixels_of_capital_a() {
    let pixels = collect_columns('A');
    assert_eq!(pixels.len(), 64);
    // the first eight are bit 0 of every stored row
    let top: Vec<bool> = pixels[0..8].to_vec();
    assert_eq!(top, vec![false, false, true, true, true, false, false, false]);
}

#[test]
fn every_character_has_sixty_four_pixels() {
    for code in 0u32..0x300 {
        let ch = char::from_u32(code).unwrap();
        assert_eq!(collect_rows(ch).len(), 64);
        assert_eq!(collect_columns(ch).len(), 64);
    }
    assert_eq!(collect_rows('\u{10FFFF}').len(), 64);
}

#[test]
fn characters_without_a_glyph_get_the_last_one() {
    let fallback = collect_rows('\u{7f}');
    assert!(fallback.iter().any(|p| *p));
    let expected: Vec<bool> = (0..64)
        .map(|k| THIS_FONT_DATA[(GLYPH_COUNT - 1) * 8 + k / 8] & (1 << (k % 8)) != 0)
        .collect();
    assert_eq!(fallback, expected);
    for ch in ['\0', '\n', '\u{1f}', '\u{80}', 'é', '€', '\u{10FFFF}'] {
        assert_eq!(collect_rows(ch), fallback);
        assert_eq!(collect_columns(ch), collect_columns('\u{7f}'));
    }
    assert_ne!(collect_rows('~'), fallback);
    assert_ne!(collect_rows(' '), fallback);
}

#[test]
fn the_two_orders_hold_the_same_pixels() {
    for ch in ['A', 'g', '#', '\u{7f}'] {
        let rows = collect_rows(ch);
        let columns = collect_columns(ch);
        for col in 0..8 {
            for row in 0..8 {
                assert_eq!(columns[col * 8 + row], rows[row * 8 + col]);
            }
        }
    }
}

#[test]
fn glyph_bits_come_from_the_table() {
    let pixels = collect_rows('B');
    let base = (('B' as usize) - 32) * 8;
    for k in 0..64 {
        assert_eq!(pixels[k], THIS_FONT_DATA[base + k / 8] & (1 << (k % 8)) != 0);
    }
    assert_eq!(ThisFont::data().len(), 768);
}
