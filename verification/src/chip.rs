use vstd::prelude::*;

verus! {

/// The control lines of the bus.
#[derive(Clone, Copy, Debug, PartialEq, Eq, Structural)]
pub enum Line {
    /// Low while the word on the data lines is a command, high while it is data.
    DataCommand,
    /// The chip takes the word on the data lines when this line goes from low to high.
    WriteStrobe,
    /// The chip puts a word on the data lines while this line is low.
    ReadStrobe,
    /// The chip listens while this line is low.
    ChipSelect,
}

/// One thing that happens on the bus.
#[derive(Clone, Copy, Debug, PartialEq, Eq, Structural)]
pub enum Signal {
    /// A control line is driven high (`true`) or low.
    Drive(Line, bool),
    /// The sixteen data lines are driven with a word.
    Present(u16),
    /// The data lines are turned into inputs.
    Release,
    /// The data lines are turned back into outputs.
    Claim,
    /// The data lines are read, and show this word.
    Sample(u16),
    /// Nothing happens for so many microseconds.
    Wait(u32),
}

pub const SET_COLUMN_ADDRESS: u16 = 0x2A;

pub const SET_PAGE_ADDRESS: u16 = 0x2B;

pub const WRITE_MEMORY_START: u16 = 0x2C;

pub const READ_MEMORY_START: u16 = 0x2E;

pub const SET_LCD_MODE: u16 = 0xB0;

/// Parameters of a command that the chip keeps.
pub const PARAMS_KEPT: usize = 8;

/// The chip as the bus sees it: the levels of its lines, the command it is carrying
/// out with the parameters received for it, the size of the panel it is set up for, the
/// window that is addressed, the place in the window that the next pixel goes to or
/// comes from, and the frame memory, row after row.
pub struct Chip {
    pub select: bool,
    pub data: bool,
    pub write: bool,
    pub read: bool,
    pub lines: u16,
    pub command: u16,
    pub params: Seq<u16>,
    pub cols: int,
    pub rows: int,
    pub col_start: int,
    pub col_end: int,
    pub row_start: int,
    pub row_end: int,
    pub cursor: int,
    pub memory: Seq<u16>,
}

/// The chip when power comes on: all lines high, no panel set up.
pub open spec fn power_on() -> Chip {
    Chip {
        select: true,
        data: true,
        write: true,
        read: true,
        lines: 0,
        command: 0,
        params: Seq::empty(),
        cols: 0,
        rows: 0,
        col_start: 0,
        col_end: 0,
        row_start: 0,
        row_end: 0,
        cursor: 0,
        memory: Seq::empty(),
    }
}

/// The low byte of parameter `i`.
pub open spec fn param_byte(params: Seq<u16>, i: int) -> int {
    params[i] as int % 256
}

/// The addressed window is a rectangle of the panel.
pub open spec fn window_ok(c: Chip) -> bool {
    &&& 0 <= c.col_start <= c.col_end < c.cols
    &&& 0 <= c.row_start <= c.row_end < c.rows
}

/// Pixels in the addressed window.
pub open spec fn window_area(c: Chip) -> int {
    (c.col_end - c.col_start + 1) * (c.row_end - c.row_start + 1)
}

/// Place in the frame memory of the pixel that the cursor is at.
pub open spec fn cursor_address(c: Chip) -> int {
    (c.row_start + c.cursor / (c.col_end - c.col_start + 1)) * c.cols + c.col_start + c.cursor % (
    c.col_end - c.col_start + 1)
}

/// The cursor after one pixel: at the next place of the window, or back at the first.
pub open spec fn cursor_next(c: Chip) -> int {
    if c.cursor + 1 >= window_area(c) {
        0
    } else {
        c.cursor + 1
    }
}

/// The chip after it has taken the word on its data lines as a parameter of its command.
///
/// The fourth parameter of a window command sets the window, and the seventh of the
/// mode command sets the panel up: its size, the whole of it as the window, and a frame
/// memory of zeros.
pub open spec fn with_param(c: Chip) -> Chip {
    if c.params.len() >= PARAMS_KEPT {
        c
    } else {
        let params = c.params.push(c.lines);
        if c.command == SET_COLUMN_ADDRESS && params.len() == 4 {
            Chip {
                params,
                col_start: param_byte(params, 0) * 256 + param_byte(params, 1),
                col_end: param_byte(params, 2) * 256 + param_byte(params, 3),
                ..c
            }
        } else if c.command == SET_PAGE_ADDRESS && params.len() == 4 {
            Chip {
                params,
                row_start: param_byte(params, 0) * 256 + param_byte(params, 1),
                row_end: param_byte(params, 2) * 256 + param_byte(params, 3),
                ..c
            }
        } else if c.command == SET_LCD_MODE && params.len() == 7 {
            let cols = (param_byte(params, 2) % 8) * 256 + param_byte(params, 3) + 1;
            let rows = (param_byte(params, 4) % 8) * 256 + param_byte(params, 5) + 1;
            Chip {
                params,
                cols,
                rows,
                col_start: 0,
                col_end: cols - 1,
                row_start: 0,
                row_end: rows - 1,
                cursor: 0,
                memory: Seq::new((cols * rows) as nat, |i: int| 0u16),
                ..c
            }
        } else {
            Chip { params, ..c }
        }
    }
}

/// The chip after it has taken the word on its data lines: as a new command while the
/// select line for it is low, else as a pixel while memory is being written, else as a
/// parameter.
pub open spec fn latched(c: Chip) -> Chip {
    if !c.data {
        Chip { command: c.lines, params: Seq::empty(), cursor: 0, ..c }
    } else if c.command == WRITE_MEMORY_START {
        if window_ok(c) {
            Chip {
                memory: c.memory.update(cursor_address(c), c.lines),
                cursor: cursor_next(c),
                ..c
            }
        } else {
            c
        }
    } else {
        with_param(c)
    }
}

/// The chip after it has handed out a pixel.
pub open spec fn handed_out(c: Chip) -> Chip {
    if c.command == READ_MEMORY_START && window_ok(c) {
        Chip { cursor: cursor_next(c), ..c }
    } else {
        c
    }
}

/// The word that the chip shows on the data lines: the pixel at the cursor while it is
/// selected, its read strobe is low and memory is being read; zero otherwise.
pub open spec fn shown(c: Chip) -> u16 {
    if !c.select && !c.read && c.command == READ_MEMORY_START && window_ok(c) {
        c.memory[cursor_address(c)]
    } else {
        0
    }
}

/// The chip after one signal. A strobe acts when its line goes from low to high while
/// the chip is selected.
pub open spec fn after_signal(c: Chip, s: Signal) -> Chip {
    match s {
        Signal::Drive(Line::ChipSelect, level) => Chip { select: level, ..c },
        Signal::Drive(Line::DataCommand, level) => Chip { data: level, ..c },
        Signal::Drive(Line::WriteStrobe, level) => if level && !c.write && !c.select {
            Chip { write: true, ..latched(c) }
        } else {
            Chip { write: level, ..c }
        },
        Signal::Drive(Line::ReadStrobe, level) => if level && !c.read && !c.select {
            Chip { read: true, ..handed_out(c) }
        } else {
            Chip { read: level, ..c }
        },
        Signal::Present(word) => Chip { lines: word, ..c },
        Signal::Release => c,
        Signal::Claim => c,
        Signal::Sample(_) => c,
        Signal::Wait(_) => c,
    }
}

/// The chip after a sequence of signals.
pub open spec fn after_signals(c: Chip, signals: Seq<Signal>) -> Chip
    decreases signals.len(),
{
    if signals.len() == 0 {
        c
    } else {
        after_signal(after_signals(c, signals.drop_last()), signals.last())
    }
}

/// The chip at the far end of a bus on which `signals` have happened since power came on.
pub open spec fn chip_of(signals: Seq<Signal>) -> Chip {
    after_signals(power_on(), signals)
}

/// One more signal is one more step of the chip.
pub proof fn lemma_after_push(c: Chip, signals: Seq<Signal>, s: Signal)
    ensures
        after_signals(c, signals.push(s)) == after_signal(after_signals(c, signals), s),
{
    assert(signals.push(s).drop_last() =~= signals);
}

/// Signals in a row act one sequence after the other.
pub proof fn lemma_after_concat(c: Chip, first: Seq<Signal>, then: Seq<Signal>)
    ensures
        after_signals(c, first + then) == after_signals(after_signals(c, first), then),
    decreases then.len(),
{
    if then.len() == 0 {
        assert(first + then =~= first);
    } else {
        assert((first + then).drop_last() =~= first + then.drop_last());
        lemma_after_concat(c, first, then.drop_last());
    }
}

/// The chip is idle and listening: selected, with both strobes high.
pub open spec fn idle(c: Chip) -> bool {
    !c.select && c.write && c.read
}

} // verus!
