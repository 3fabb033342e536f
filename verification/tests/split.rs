use lcd_term::term::{CharOrNewline, SplitByLenOrNewline};

fn collect(text: &str, line_len: u8) -> Vec<CharOrNewline> {
    let mut split = SplitByLenOrNewline::new(text, line_len);
    let mut items = Vec::new();
    while let Some(item) = split.next() {
        items.push(item);
        assert!(items.len() < 1000);
    }
    items
}

#[test]
fn line_breaks_end_a_line() {
    assert_eq!(
        collect("AB\nC", 10),
        vec![
            CharOrNewline::Char('A'),
            CharOrNewline::Char('B'),
            CharOrNewline::NewLine,
            CharOrNewline::Char('C'),
        ]
    );
    assert_eq!(collect("\r\n", 10), vec![CharOrNewline::NewLine, CharOrNewline::NewLine]);
    assert_eq!(collect("", 10), vec![]);
}

#[test]
fn a_full_line_ends_by_itself() {
    assert_eq!(
        collect("abcde", 2),
        vec![
            CharOrNewline::Char('a'),
            CharOrNewline::Char('b'),
            CharOrNewline::NewLine,
            CharOrNewline::Char('c'),
            CharOrNewline::Char('d'),
            CharOrNewline::NewLine,
            CharOrNewline::Char('e'),
        ]
    );
}

#[test]
fn a_full_line_ends_even_at_the_end_of_the_text() {
    assert_eq!(
        collect("ab", 2),
        vec![CharOrNewline::Char('a'), CharOrNewline::Char('b'), CharOrNewline::NewLine]
    );
}

#[test]
fn a_line_break_after_a_full_line_ends_two_lines() {
    assert_eq!(
        collect("ab\nc", 2),
        vec![
            CharOrNewline::Char('a'),
            CharOrNewline::Char('b'),
            CharOrNewline::NewLine,
            CharOrNewline::NewLine,
            CharOrNewline::Char('c'),
        ]
    );
}

#[test]
fn line_offset_counts_the_characters_of_the_line() {
    let mut split = SplitByLenOrNewline::new("ab\ncd", 3);
    assert_eq!(split.line_offset(), 0);
    split.next();
    assert_eq!(split.line_offset(), 1);
    split.next();
    assert_eq!(split.line_offset(), 2);
    split.next();
    assert_eq!(split.line_offset(), 0);
    split.next();
    assert_eq!(split.line_offset(), 1);
}

#[test]
fn characters_beyond_ascii_count_as_one() {
    assert_eq!(
        collect("é€x", 2),
        vec![
            CharOrNewline::Char('é'),
            CharOrNewline::Char('€'),
            CharOrNewline::NewLine,
            CharOrNewline::Char('x'),
        ]
    );
}

#[test]
fn a_line_without_room_only_ends() {
    let mut split = SplitByLenOrNewline::new("a", 0);
    assert_eq!(split.next(), Some(CharOrNewline::NewLine));
    assert_eq!(split.next(), Some(CharOrNewline::NewLine));
}
