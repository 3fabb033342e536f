use vstd::prelude::*;
use crate::bus::{lemma_read_cycle, lemma_write_cycle, Selector};
use crate::chip::{
    after_signals, cursor_address, handed_out, idle, latched, lemma_after_concat,
    lemma_after_push, window_area, window_ok, Chip, READ_MEMORY_START, SET_COLUMN_ADDRESS,
    SET_LCD_MODE, SET_PAGE_ADDRESS, WRITE_MEMORY_START,
};
use crate::display::{lemma_paint_step, paint, region, solid};
use crate::geometry::Bounds;
use crate::protocol::{
    encode, fetch_words, fill_words, init_words, mode_words, output_words, pixel_words,
    pll_words, clock_words, read_words, signals_of, timing_words, two_bytes, window_words,
    BusWord, Screen,
};

verus! {

/// The chip after one step of talking to it.
#[verifier::opaque]
pub open spec fn after_word(c: Chip, word: BusWord) -> Chip {
    match word {
        BusWord::Command(x) => latched(Chip { data: false, lines: x, ..c }),
        BusWord::Data(x) => latched(Chip { data: true, lines: x, ..c }),
        BusWord::Fetch(_) => handed_out(c),
        BusWord::Pause(_) => c,
    }
}

/// The chip after a sequence of steps.
pub open spec fn after_words(c: Chip, words: Seq<BusWord>) -> Chip
    decreases words.len(),
{
    if words.len() == 0 {
        c
    } else {
        after_word(after_words(c, words.drop_last()), words.last())
    }
}

pub proof fn lemma_words_push(c: Chip, words: Seq<BusWord>, word: BusWord)
    ensures
        after_words(c, words.push(word)) == after_word(after_words(c, words), word),
{
    assert(words.push(word).drop_last() =~= words);
}

pub proof fn lemma_words_concat(c: Chip, first: Seq<BusWord>, then: Seq<BusWord>)
    ensures
        after_words(c, first + then) == after_words(after_words(c, first), then),
    decreases then.len(),
{
    if then.len() == 0 {
        assert(first + then =~= first);
    } else {
        assert((first + then).drop_last() =~= first + then.drop_last());
        lemma_words_concat(c, first, then.drop_last());
    }
}

/// The strobes do what the words say: an idle chip that sees the signals of a sequence
/// of steps has taken every word of it, and is idle again.
pub proof fn lemma_signals_are_words(c: Chip, words: Seq<BusWord>)
    requires
        idle(c),
    ensures
        after_signals(c, encode(words)) == after_words(c, words),
        idle(after_words(c, words)),
    decreases words.len(),
{
    if words.len() > 0 {
        reveal(after_word);
        let lead = words.drop_last();
        lemma_signals_are_words(c, lead);
        let mid = after_words(c, lead);
        lemma_after_concat(c, encode(lead), signals_of(words.last()));
        match words.last() {
            BusWord::Command(x) => {
                lemma_write_cycle(mid, Selector::Command, x);
            },
            BusWord::Data(x) => {
                lemma_write_cycle(mid, Selector::Data, x);
            },
            BusWord::Fetch(x) => {
                lemma_read_cycle(mid, x);
            },
            BusWord::Pause(us) => {
                let s = signals_of(words.last());
                assert(s =~= Seq::empty().push(s[0]));
                lemma_after_push(mid, Seq::empty(), s[0]);
            },
        }
    }
}

/// Two states of the chip with the same panel, window and frame memory.
pub open spec fn same_panel(a: Chip, b: Chip) -> bool {
    &&& a.cols == b.cols
    &&& a.rows == b.rows
    &&& a.col_start == b.col_start
    &&& a.col_end == b.col_end
    &&& a.row_start == b.row_start
    &&& a.row_end == b.row_end
    &&& a.memory == b.memory
}

/// A command whose data reach the panel, the window or the frame memory.
pub open spec fn reaching(command: u16) -> bool {
    ||| command == SET_COLUMN_ADDRESS
    ||| command == SET_PAGE_ADDRESS
    ||| command == WRITE_MEMORY_START
    ||| command == SET_LCD_MODE
}

/// Steps that begin with a command and hold no command that reaches the panel, the
/// window or the frame memory.
pub open spec fn harmless(words: Seq<BusWord>) -> bool {
    &&& words.len() > 0 ==> words[0] is Command
    &&& forall|i: int|
        0 <= i < words.len() ==> (#[trigger] words[i] matches BusWord::Command(x) ==> !reaching(x))
}

/// Harmless steps leave the panel, the window and the frame memory as they are.
pub proof fn lemma_harmless(c: Chip, words: Seq<BusWord>)
    requires
        harmless(words),
    ensures
        same_panel(after_words(c, words), c),
        words.len() > 0 ==> !reaching(after_words(c, words).command),
    decreases words.len(),
{
    if words.len() > 0 {
        reveal(after_word);
        let lead = words.drop_last();
        assert(forall|i: int| 0 <= i < lead.len() ==> lead[i] == words[i]);
        if lead.len() > 0 {
            assert(lead[0] == words[0]);
        }
        lemma_harmless(c, lead);
        assert(words.last() == words[words.len() - 1]);
    }
}

/// The chip is set up for the panel, and idle.
pub open spec fn set_up(c: Chip, s: Screen) -> bool {
    &&& idle(c)
    &&& c.cols == s.width
    &&& c.rows == s.height
    &&& c.memory.len() == c.cols * c.rows
}

/// A command word makes the chip begin a command.
pub proof fn lemma_step_command(c: Chip, x: u16)
    ensures
        after_word(c, BusWord::Command(x)) == (Chip {
            data: false,
            lines: x,
            command: x,
            params: Seq::empty(),
            cursor: 0,
            ..c
        }),
{
    reveal(after_word);
}

/// A data word that does not complete a command is kept as a parameter.
pub proof fn lemma_step_param(c: Chip, x: u16)
    requires
        c.command != WRITE_MEMORY_START,
        c.params.len() < 8,
        !((c.command == SET_COLUMN_ADDRESS || c.command == SET_PAGE_ADDRESS) && c.params.len()
            == 3),
        !(c.command == SET_LCD_MODE && c.params.len() == 6),
    ensures
        after_word(c, BusWord::Data(x)) == (Chip {
            data: true,
            lines: x,
            params: c.params.push(x),
            ..c
        }),
{
    reveal(after_word);
}

/// The fourth byte of a column command sets the columns of the window.
pub proof fn lemma_step_columns(c: Chip, x: u16)
    requires
        c.command == SET_COLUMN_ADDRESS,
        c.params.len() == 3,
    ensures
        after_word(c, BusWord::Data(x)) == (Chip {
            data: true,
            lines: x,
            params: c.params.push(x),
            col_start: (c.params[0] as int % 256) * 256 + c.params[1] as int % 256,
            col_end: (c.params[2] as int % 256) * 256 + x as int % 256,
            ..c
        }),
{
    reveal(after_word);
}

/// The fourth byte of a page command sets the rows of the window.
pub proof fn lemma_step_rows(c: Chip, x: u16)
    requires
        c.command == SET_PAGE_ADDRESS,
        c.params.len() == 3,
    ensures
        after_word(c, BusWord::Data(x)) == (Chip {
            data: true,
            lines: x,
            params: c.params.push(x),
            row_start: (c.params[0] as int % 256) * 256 + c.params[1] as int % 256,
            row_end: (c.params[2] as int % 256) * 256 + x as int % 256,
            ..c
        }),
{
    reveal(after_word);
}

/// The seventh byte of the mode command sets the chip up for a panel.
pub proof fn lemma_step_mode(c: Chip, x: u16)
    requires
        c.command == SET_LCD_MODE,
        c.params.len() == 6,
    ensures
        ({
            let after = after_word(c, BusWord::Data(x));
            &&& after.cols == (c.params[2] as int % 256 % 8) * 256 + c.params[3] as int % 256 + 1
            &&& after.rows == (c.params[4] as int % 256 % 8) * 256 + c.params[5] as int % 256 + 1
            &&& after.memory == solid(after.cols * after.rows, 0)
            &&& after.memory.len() == after.cols * after.rows
            &&& after.command == c.command
            &&& after.select == c.select
            &&& after.write == c.write
            &&& after.read == c.read
        }),
{
    reveal(after_word);
    let cols = (c.params[2] as int % 256 % 8) * 256 + c.params[3] as int % 256 + 1;
    let rows = (c.params[4] as int % 256 % 8) * 256 + c.params[5] as int % 256 + 1;
    assert(cols * rows >= 0) by (nonlinear_arith)
        requires
            cols >= 0,
            rows >= 0,
    ;
    assert(after_word(c, BusWord::Data(x)).memory =~= solid(cols * rows, 0));
}

/// The mode command sets the chip up for the panel.
pub proof fn lemma_mode_words(c: Chip, s: Screen)
    requires
        s.ok(),
    ensures
        after_words(c, mode_words(s)).cols == s.width,
        after_words(c, mode_words(s)).rows == s.height,
        after_words(c, mode_words(s)).memory.len() == s.width * s.height,
        after_words(c, mode_words(s)).memory == solid(s.width * s.height, 0),
{
    let w = mode_words(s);
    let w1 = Seq::<BusWord>::empty().push(w[0]);
    let w2 = w1.push(w[1]);
    let w3 = w2.push(w[2]);
    let w4 = w3.push(w[3]);
    let w5 = w4.push(w[4]);
    let w6 = w5.push(w[5]);
    let w7 = w6.push(w[6]);
    assert(w =~= w7.push(w[7]));
    assert(after_words(c, Seq::empty()) == c);
    lemma_words_push(c, Seq::empty(), w[0]);
    lemma_words_push(c, w1, w[1]);
    lemma_words_push(c, w2, w[2]);
    lemma_words_push(c, w3, w[3]);
    lemma_words_push(c, w4, w[4]);
    lemma_words_push(c, w5, w[5]);
    lemma_words_push(c, w6, w[6]);
    lemma_words_push(c, w7, w[7]);
    let c1 = after_words(c, w1);
    lemma_step_command(c, SET_LCD_MODE);
    let c2 = after_words(c, w2);
    lemma_step_param(c1, 0x20);
    let c3 = after_words(c, w3);
    lemma_step_param(c2, 0x00);
    let c4 = after_words(c, w4);
    lemma_step_param(c3, ((s.width - 1) / 256 % 256) as u16);
    let c5 = after_words(c, w5);
    lemma_step_param(c4, ((s.width - 1) % 256) as u16);
    let c6 = after_words(c, w6);
    lemma_step_param(c5, ((s.height - 1) / 256 % 256) as u16);
    let c7 = after_words(c, w7);
    lemma_step_param(c6, ((s.height - 1) % 256) as u16);
    lemma_step_mode(c7, 0x00);
}

/// One of the two window commands with its four bytes.
pub open spec fn range_words(command: u16, first: int, last: int) -> Seq<BusWord> {
    seq![BusWord::Command(command)] + two_bytes(first) + two_bytes(last)
}

/// A window command with its four bytes sets the columns, or the rows, of the window
/// and nothing else of the panel.
pub proof fn lemma_range_words(c: Chip, command: u16, first: u16, last: u16)
    requires
        command == SET_COLUMN_ADDRESS || command == SET_PAGE_ADDRESS,
    ensures
        ({
            let after = after_words(c, range_words(command, first as int, last as int));
            &&& after.cols == c.cols
            &&& after.rows == c.rows
            &&& after.memory == c.memory
            &&& after.command == command
            &&& command == SET_COLUMN_ADDRESS ==> {
                &&& after.col_start == first
                &&& after.col_end == last
                &&& after.row_start == c.row_start
                &&& after.row_end == c.row_end
            }
            &&& command == SET_PAGE_ADDRESS ==> {
                &&& after.row_start == first
                &&& after.row_end == last
                &&& after.col_start == c.col_start
                &&& after.col_end == c.col_end
            }
        }),
{
    let w = range_words(command, first as int, last as int);
    let w1 = Seq::<BusWord>::empty().push(w[0]);
    let w2 = w1.push(w[1]);
    let w3 = w2.push(w[2]);
    let w4 = w3.push(w[3]);
    assert(w =~= w4.push(w[4]));
    assert(after_words(c, Seq::empty()) == c);
    lemma_words_push(c, Seq::empty(), w[0]);
    lemma_words_push(c, w1, w[1]);
    lemma_words_push(c, w2, w[2]);
    lemma_words_push(c, w3, w[3]);
    lemma_words_push(c, w4, w[4]);
    let c1 = after_words(c, w1);
    lemma_step_command(c, command);
    let c2 = after_words(c, w2);
    lemma_step_param(c1, (first as int / 256 % 256) as u16);
    let c3 = after_words(c, w3);
    lemma_step_param(c2, (first as int % 256) as u16);
    let c4 = after_words(c, w4);
    lemma_step_param(c3, (last as int / 256 % 256) as u16);
    if command == SET_COLUMN_ADDRESS {
        lemma_step_columns(c4, (last as int % 256) as u16);
    } else {
        lemma_step_rows(c4, (last as int % 256) as u16);
    }
}

/// The window commands make `b` the window, and leave the panel and the frame memory
/// as they are.
pub proof fn lemma_window_words(c: Chip, b: Bounds)
    ensures
        ({
            let after = after_words(c, window_words(b));
            &&& after.col_start == b.x_start
            &&& after.col_end == b.x_end
            &&& after.row_start == b.y_start
            &&& after.row_end == b.y_end
            &&& after.cols == c.cols
            &&& after.rows == c.rows
            &&& after.memory == c.memory
        }),
{
    let columns = range_words(SET_COLUMN_ADDRESS, b.x_start as int, b.x_end as int);
    let rows = range_words(SET_PAGE_ADDRESS, b.y_start as int, b.y_end as int);
    assert(window_words(b) =~= columns + rows);
    lemma_words_concat(c, columns, rows);
    lemma_range_words(c, SET_COLUMN_ADDRESS, b.x_start, b.x_end);
    lemma_range_words(after_words(c, columns), SET_PAGE_ADDRESS, b.y_start, b.y_end);
}

/// The chip is writing or reading the window `b` of its panel.
pub open spec fn streaming(c: Chip, command: u16, b: Bounds) -> bool {
    &&& c.command == command
    &&& command == WRITE_MEMORY_START || command == READ_MEMORY_START
    &&& c.col_start == b.x_start
    &&& c.col_end == b.x_end
    &&& c.row_start == b.y_start
    &&& c.row_end == b.y_end
    &&& window_ok(c)
    &&& c.cols < u16::MAX
    &&& c.rows < u16::MAX
    &&& c.memory.len() == c.cols * c.rows
}

/// The cursor after `count` pixels of a window of `area` pixels.
pub open spec fn cursor_after(count: int, area: int) -> int {
    if count == area {
        0
    } else {
        count
    }
}

/// Pixels handed to a chip that is writing a window go into the window, in window order.
pub proof fn lemma_pixel_words(c: Chip, b: Bounds, pixels: Seq<u16>)
    requires
        streaming(c, WRITE_MEMORY_START, b),
        c.cursor == 0,
        pixels.len() <= b.spec_area(),
    ensures
        streaming(after_words(c, pixel_words(pixels)), WRITE_MEMORY_START, b),
        after_words(c, pixel_words(pixels)).cols == c.cols,
        after_words(c, pixel_words(pixels)).rows == c.rows,
        after_words(c, pixel_words(pixels)).cursor == cursor_after(
            pixels.len() as int,
            b.spec_area(),
        ),
        after_words(c, pixel_words(pixels)).memory == paint(c.memory, c.cols, b, pixels),
    decreases pixels.len(),
{
    if pixels.len() == 0 {
        assert(pixel_words(pixels) =~= Seq::<BusWord>::empty());
        assert(b.spec_area() >= 1) by (nonlinear_arith)
            requires
                b.spec_area() == b.spec_width() * b.spec_height(),
                b.spec_width() >= 1,
                b.spec_height() >= 1,
        ;
        assert(paint(c.memory, c.cols, b, pixels) =~= c.memory);
    } else {
        let k = pixels.len() - 1;
        let lead = pixels.drop_last();
        lemma_pixel_words(c, b, lead);
        assert(pixel_words(pixels) =~= pixel_words(lead).push(BusWord::Data(pixels[k])));
        lemma_words_push(c, pixel_words(lead), BusWord::Data(pixels[k]));
        let mid = after_words(c, pixel_words(lead));
        reveal(after_word);
        assert(window_area(mid) == b.spec_area());
        assert(pixels.take(k) =~= lead);
        assert(pixels.take(k + 1) =~= pixels);
        lemma_paint_step(c.memory, c.cols, c.rows, b, pixels, k);
        assert(cursor_address(Chip { data: true, lines: pixels[k], ..mid }) == (b.y_start + k
            / b.spec_width()) * c.cols + b.x_start + k % b.spec_width());
    }
}

/// Pixels fetched from a chip that is reading a window move its cursor and change
/// nothing else.
pub proof fn lemma_fetch_words(c: Chip, b: Bounds, values: Seq<u16>)
    requires
        streaming(c, READ_MEMORY_START, b),
        c.cursor == 0,
        values.len() <= b.spec_area(),
    ensures
        streaming(after_words(c, fetch_words(values)), READ_MEMORY_START, b),
        after_words(c, fetch_words(values)).cols == c.cols,
        after_words(c, fetch_words(values)).rows == c.rows,
        after_words(c, fetch_words(values)).cursor == cursor_after(
            values.len() as int,
            b.spec_area(),
        ),
        after_words(c, fetch_words(values)).memory == c.memory,
    decreases values.len(),
{
    if values.len() == 0 {
        assert(fetch_words(values) =~= Seq::<BusWord>::empty());
        assert(b.spec_area() >= 1) by (nonlinear_arith)
            requires
                b.spec_area() == b.spec_width() * b.spec_height(),
                b.spec_width() >= 1,
                b.spec_height() >= 1,
        ;
    } else {
        let k = values.len() - 1;
        let lead = values.drop_last();
        lemma_fetch_words(c, b, lead);
        assert(fetch_words(values) =~= fetch_words(lead).push(BusWord::Fetch(values[k])));
        lemma_words_push(c, fetch_words(lead), BusWord::Fetch(values[k]));
        let mid = after_words(c, fetch_words(lead));
        reveal(after_word);
        assert(window_area(mid) == b.spec_area());
    }
}

/// The pixel that a chip hands out while it is reading a window is the one at the
/// cursor.
pub proof fn lemma_fetched_pixel(c: Chip, b: Bounds, k: int)
    requires
        streaming(c, READ_MEMORY_START, b),
        idle(c),
        c.cursor == k,
        0 <= k < b.spec_area(),
    ensures
        crate::bus::fetched(c) == region(c.memory, c.cols, b)[k],
{
}

/// A chip that is set up for a panel and is told to write or read a window of it is
/// writing or reading that window, with the cursor at its first pixel.
pub proof fn lemma_stream_start(c: Chip, s: Screen, b: Bounds, command: u16)
    requires
        set_up(c, s),
        s.ok(),
        s.holds(b),
        command == WRITE_MEMORY_START || command == READ_MEMORY_START,
    ensures
        ({
            let after = after_words(c, window_words(b).push(BusWord::Command(command)));
            &&& streaming(after, command, b)
            &&& after.cursor == 0
            &&& after.cols == c.cols
            &&& after.rows == c.rows
            &&& after.memory == c.memory
            &&& idle(after)
        }),
{
    lemma_window_words(c, b);
    lemma_words_push(c, window_words(b), BusWord::Command(command));
    lemma_step_command(after_words(c, window_words(b)), command);
    lemma_signals_are_words(c, window_words(b).push(BusWord::Command(command)));
}

/// Writing pixels into a window of the panel paints the window in the frame memory, and
/// leaves the chip set up and idle.
pub proof fn lemma_fill_words(c: Chip, s: Screen, b: Bounds, pixels: Seq<u16>)
    requires
        set_up(c, s),
        s.ok(),
        s.holds(b),
        pixels.len() <= b.spec_area(),
    ensures
        set_up(after_words(c, fill_words(b, pixels)), s),
        after_words(c, fill_words(b, pixels)).memory == paint(c.memory, s.width as int, b, pixels),
{
    let start = window_words(b).push(BusWord::Command(WRITE_MEMORY_START));
    lemma_stream_start(c, s, b, WRITE_MEMORY_START);
    lemma_words_concat(c, start, pixel_words(pixels));
    lemma_pixel_words(after_words(c, start), b, pixels);
    lemma_signals_are_words(c, fill_words(b, pixels));
}

/// Reading pixels from a window of the panel leaves the frame memory as it is and the
/// chip set up and idle, reading the window with the cursor behind the pixels read.
pub proof fn lemma_read_words(c: Chip, s: Screen, b: Bounds, values: Seq<u16>)
    requires
        set_up(c, s),
        s.ok(),
        s.holds(b),
        values.len() <= b.spec_area(),
    ensures
        set_up(after_words(c, read_words(b, values)), s),
        after_words(c, read_words(b, values)).memory == c.memory,
        streaming(after_words(c, read_words(b, values)), READ_MEMORY_START, b),
        after_words(c, read_words(b, values)).cursor == cursor_after(
            values.len() as int,
            b.spec_area(),
        ),
{
    let start = window_words(b).push(BusWord::Command(READ_MEMORY_START));
    lemma_stream_start(c, s, b, READ_MEMORY_START);
    lemma_words_concat(c, start, fetch_words(values));
    lemma_fetch_words(after_words(c, start), b, values);
    lemma_signals_are_words(c, read_words(b, values));
}

/// Bringing the chip up sets it up for the panel.
pub proof fn lemma_init_words(c: Chip, s: Screen)
    requires
        idle(c),
        s.ok(),
    ensures
        set_up(after_words(c, init_words(s)), s),
        after_words(c, init_words(s)).memory == solid(s.width * s.height, 0),
{
    reveal(init_words);
    let first = pll_words() + clock_words(s);
    let last = timing_words(s) + output_words();
    assert(init_words(s) =~= first + mode_words(s) + last);
    lemma_words_concat(c, first + mode_words(s), last);
    lemma_words_concat(c, first, mode_words(s));
    lemma_mode_words(after_words(c, first), s);
    assert(harmless(last)) by {
        assert(last[0] is Command);
        assert forall|i: int| 0 <= i < last.len() implies (#[trigger] last[i] matches BusWord::Command(
            x,
        ) ==> !reaching(x)) by {
            if i < timing_words(s).len() {
                assert(last[i] == timing_words(s)[i]);
            } else {
                assert(last[i] == output_words()[i - timing_words(s).len()]);
            }
        }
    }
    lemma_harmless(after_words(c, first + mode_words(s)), last);
    lemma_signals_are_words(c, init_words(s));
}

/// On a bus whose chip is idle, the signals that bring the chip up set it up for the
/// panel.
pub proof fn lemma_init_signals(rested: Seq<crate::chip::Signal>, s: Screen)
    requires
        idle(crate::chip::chip_of(rested)),
        s.ok(),
    ensures
        set_up(crate::chip::chip_of(rested + encode(init_words(s))), s),
        crate::chip::chip_of(rested + encode(init_words(s))).memory == solid(
            s.width * s.height,
            0,
        ),
{
    lemma_after_concat(crate::chip::power_on(), rested, encode(init_words(s)));
    lemma_signals_are_words(crate::chip::chip_of(rested), init_words(s));
    lemma_init_words(crate::chip::chip_of(rested), s);
}

/// On a bus whose chip is set up, the signals that write pixels into a window paint the
/// window in the frame memory and leave the chip set up.
pub proof fn lemma_fill_signals(
    start: Seq<crate::chip::Signal>,
    s: Screen,
    b: Bounds,
    pixels: Seq<u16>,
)
    requires
        set_up(crate::chip::chip_of(start), s),
        s.ok(),
        s.holds(b),
        pixels.len() <= b.spec_area(),
    ensures
        set_up(crate::chip::chip_of(start + encode(fill_words(b, pixels))), s),
        crate::chip::chip_of(start + encode(fill_words(b, pixels))).memory == paint(
            crate::chip::chip_of(start).memory,
            s.width as int,
            b,
            pixels,
        ),
{
    lemma_after_concat(crate::chip::power_on(), start, encode(fill_words(b, pixels)));
    lemma_signals_are_words(crate::chip::chip_of(start), fill_words(b, pixels));
    lemma_fill_words(crate::chip::chip_of(start), s, b, pixels);
}

/// On a bus whose chip is set up, the signals that read pixels from a window leave the
/// frame memory as it is; the chip is then idle, with its cursor behind the pixels
/// read.
pub proof fn lemma_read_signals(
    start: Seq<crate::chip::Signal>,
    s: Screen,
    b: Bounds,
    values: Seq<u16>,
)
    requires
        set_up(crate::chip::chip_of(start), s),
        s.ok(),
        s.holds(b),
        values.len() <= b.spec_area(),
    ensures
        ({
            let after = crate::chip::chip_of(start + encode(read_words(b, values)));
            &&& set_up(after, s)
            &&& after.memory == crate::chip::chip_of(start).memory
            &&& streaming(after, READ_MEMORY_START, b)
            &&& after.cursor == cursor_after(values.len() as int, b.spec_area())
        }),
{
    lemma_after_concat(crate::chip::power_on(), start, encode(read_words(b, values)));
    lemma_signals_are_words(crate::chip::chip_of(start), read_words(b, values));
    lemma_read_words(crate::chip::chip_of(start), s, b, values);
}

/// On a bus whose chip is set up, the signals that address a window make it the window
/// of the chip and change nothing else of the panel.
pub proof fn lemma_window_signals(start: Seq<crate::chip::Signal>, s: Screen, b: Bounds)
    requires
        set_up(crate::chip::chip_of(start), s),
    ensures
        ({
            let after = crate::chip::chip_of(start + encode(window_words(b)));
            &&& set_up(after, s)
            &&& after.memory == crate::chip::chip_of(start).memory
            &&& after.col_start == b.x_start
            &&& after.col_end == b.x_end
            &&& after.row_start == b.y_start
            &&& after.row_end == b.y_end
        }),
{
    lemma_after_concat(crate::chip::power_on(), start, encode(window_words(b)));
    lemma_signals_are_words(crate::chip::chip_of(start), window_words(b));
    lemma_window_words(crate::chip::chip_of(start), b);
}

/// What is written into a window of the panel is what the window holds afterwards: the
/// frame memory of the chip gives the pixels back in the order in which they came.
pub proof fn lemma_written_is_held(c: Chip, s: Screen, b: Bounds, pixels: Seq<u16>)
    requires
        set_up(c, s),
        s.ok(),
        s.holds(b),
        pixels.len() == b.spec_area(),
    ensures
        region(after_words(c, fill_words(b, pixels)).memory, s.width as int, b) == pixels,
{
    lemma_fill_words(c, s, b, pixels);
    crate::display::lemma_region_of_paint(c.memory, s.width as int, s.height as int, b, pixels);
    assert(pixels.take(b.spec_area()) =~= pixels);
}

} // verus!
