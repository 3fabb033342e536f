use vstd::prelude::*;
use crate::bus::Bus;
use crate::chip::{
    after_signal, chip_of, cursor_address, cursor_next, handed_out, latched, lemma_after_push,
    power_on, window_area, window_ok, with_param, Chip, Line, Signal, PARAMS_KEPT,
    READ_MEMORY_START, SET_COLUMN_ADDRESS, SET_LCD_MODE, SET_PAGE_ADDRESS, WRITE_MEMORY_START,
};
use crate::display::lemma_window_cell;
use crate::error::Error;
use crate::geometry::Bounds;

verus! {

/// A bus with a simulated chip at its far end. It never fails, keeps the frame memory
/// of the chip, and records the first signals that happen on it.
pub struct SimBus {
    select: bool,
    data: bool,
    write: bool,
    read: bool,
    lines: u16,
    command: u16,
    params: Vec<u16>,
    cols: u16,
    rows: u16,
    col_start: u16,
    col_end: u16,
    row_start: u16,
    row_end: u16,
    cursor: usize,
    memory: Vec<u16>,
    log: Vec<Signal>,
    limit: usize,
    count: u64,
    history: Ghost<Seq<Signal>>,
}

impl SimBus {
    /// The simulated chip.
    pub closed spec fn view(&self) -> Chip {
        Chip {
            select: self.select,
            data: self.data,
            write: self.write,
            read: self.read,
            lines: self.lines,
            command: self.command,
            params: self.params@,
            cols: self.cols as int,
            rows: self.rows as int,
            col_start: self.col_start as int,
            col_end: self.col_end as int,
            row_start: self.row_start as int,
            row_end: self.row_end as int,
            cursor: self.cursor as int,
            memory: self.memory@,
        }
    }

    /// The simulated chip is in a state that the chip can be in.
    pub closed spec fn sound(&self) -> bool {
        &&& self.params@.len() <= PARAMS_KEPT
        &&& self.cols <= 2048
        &&& self.rows <= 2048
        &&& self.memory@.len() == self.cols * self.rows
        &&& self.cursor == 0 || (window_ok(self@) && self.cursor < window_area(self@))
        &&& self.command != WRITE_MEMORY_START && self.command != READ_MEMORY_START
            ==> self.cursor == 0
    }

    /// What is recorded: all signals so far, those kept, how many are kept at most, and
    /// the number of all.
    pub closed spec fn tape(&self) -> (Seq<Signal>, Seq<Signal>, usize, u64) {
        (self.history@, self.log@, self.limit, self.count)
    }

    /// The record agrees with what has happened.
    pub closed spec fn taped(&self) -> bool {
        &&& self.log@.len() <= self.limit
        &&& self.log@.len() <= self.history@.len()
        &&& self.log@.len() < self.limit ==> self.log@.len() == self.history@.len()
        &&& self.log@ == self.history@.take(self.log@.len() as int)
        &&& self.count == if self.history@.len() > u64::MAX {
            u64::MAX as int
        } else {
            self.history@.len() as int
        }
    }

    /// A bus on which nothing has happened yet, which keeps a record of its first
    /// `limit` signals.
    pub fn new(limit: usize) -> (bus: SimBus)
        ensures
            bus.inv(),
            bus.signals() == Seq::<Signal>::empty(),
            bus.kept() == limit,
    {
        let bus = SimBus {
            select: true,
            data: true,
            write: true,
            read: true,
            lines: 0,
            command: 0,
            params: Vec::new(),
            cols: 0,
            rows: 0,
            col_start: 0,
            col_end: 0,
            row_start: 0,
            row_end: 0,
            cursor: 0,
            memory: Vec::new(),
            log: Vec::new(),
            limit,
            count: 0,
            history: Ghost(Seq::empty()),
        };
        assert(bus@.params =~= power_on().params);
        assert(bus@.memory =~= power_on().memory);
        assert(bus.log@ =~= bus.history@.take(0));
        bus
    }

    /// Number of signals of which a record is kept.
    pub closed spec fn kept(&self) -> nat {
        self.limit as nat
    }

    /// The signals on record: the first that happened, as many as are kept.
    pub fn recorded(&self) -> (log: &Vec<Signal>)
        requires
            self.inv(),
        ensures
            log@.len() == if self.signals().len() < self.kept() {
                self.signals().len()
            } else {
                self.kept()
            },
            log@ == self.signals().take(log@.len() as int),
    {
        &self.log
    }

    /// Number of signals that have happened; `u64::MAX` if there were more.
    pub fn signal_count(&self) -> (n: u64)
        requires
            self.inv(),
        ensures
            n == if self.signals().len() > u64::MAX {
                u64::MAX as int
            } else {
                self.signals().len() as int
            },
    {
        self.count
    }

    /// Columns and rows of the panel that the chip is set up for.
    pub fn panel(&self) -> (size: (u16, u16))
        requires
            self.inv(),
        ensures
            size.0 == chip_of(self.signals()).cols,
            size.1 == chip_of(self.signals()).rows,
    {
        (self.cols, self.rows)
    }

    /// What the frame memory holds for the pixel in column `x` and row `y`.
    pub fn pixel(&self, x: u16, y: u16) -> (r: Option<u16>)
        requires
            self.inv(),
        ensures
            ({
                let chip = chip_of(self.signals());
                if x < chip.cols && y < chip.rows {
                    r == Some(chip.memory[y * chip.cols + x])
                } else {
                    r is None
                }
            }),
    {
        if x < self.cols && y < self.rows {
            proof {
                crate::display::lemma_grid_index(
                    self.cols as int,
                    self.rows as int,
                    x as int,
                    y as int,
                );
            }
            let row: usize = y as usize;
            let cols: usize = self.cols as usize;
            assert(row * cols <= 2048 * 2048) by (nonlinear_arith)
                requires
                    row <= 2048,
                    cols <= 2048,
            ;
            Some(self.memory[row * cols + x as usize])
        } else {
            None
        }
    }

    fn window_valid(&self) -> (ok: bool)
        ensures
            ok == window_ok(self@),
    {
        self.col_start <= self.col_end && self.col_end < self.cols && self.row_start
            <= self.row_end && self.row_end < self.rows
    }

    /// The window as a rectangle.
    spec fn window(&self) -> Bounds {
        Bounds {
            x_start: self.col_start,
            x_end: self.col_end,
            y_start: self.row_start,
            y_end: self.row_end,
        }
    }

    /// Place in the frame memory of the pixel at the cursor.
    fn address(&self) -> (at: usize)
        requires
            self.sound(),
            window_ok(self@),
        ensures
            at == cursor_address(self@),
            at < self.memory@.len(),
    {
        let width: usize = (self.col_end - self.col_start) as usize + 1;
        proof {
            assert(self.window().spec_area() == window_area(self@));
            assert(window_area(self@) >= 1) by (nonlinear_arith)
                requires
                    window_area(self@) == (self.col_end - self.col_start + 1) * (self.row_end
                        - self.row_start + 1),
                    self.col_end - self.col_start + 1 >= 1,
                    self.row_end - self.row_start + 1 >= 1,
            ;
            lemma_window_cell(
                self.cols as int,
                self.rows as int,
                self.window(),
                self.cursor as int,
            );
        }
        let row: usize = self.row_start as usize + self.cursor / width;
        let cols: usize = self.cols as usize;
        assert(row * cols <= 2048 * 2048) by (nonlinear_arith)
            requires
                row <= 2048,
                cols <= 2048,
        ;
        row * cols + self.col_start as usize + self.cursor % width
    }

    /// Moves the cursor to the next place of the window.
    fn advance(&mut self)
        requires
            old(self).sound(),
            window_ok(old(self)@),
            old(self).command == WRITE_MEMORY_START || old(self).command == READ_MEMORY_START,
        ensures
            final(self)@ == (Chip { cursor: cursor_next(old(self)@), ..old(self)@ }),
            final(self).sound(),
            final(self).tape() == old(self).tape(),
    {
        let width: usize = (self.col_end - self.col_start) as usize + 1;
        let height: usize = (self.row_end - self.row_start) as usize + 1;
        assert(width * height <= 2048 * 2048 && width * height >= 1) by (nonlinear_arith)
            requires
                1 <= width <= 2048,
                1 <= height <= 2048,
        ;
        if self.cursor + 1 >= width * height {
            self.cursor = 0;
        } else {
            self.cursor = self.cursor + 1;
        }
    }

    /// A frame memory of zeros for a panel of `cols` by `rows` pixels.
    fn blank(cols: u16, rows: u16) -> (memory: Vec<u16>)
        requires
            cols <= 2048,
            rows <= 2048,
        ensures
            memory@ == Seq::new((cols * rows) as nat, |i: int| 0u16),
    {
        assert(cols * rows <= 2048 * 2048) by (nonlinear_arith)
            requires
                cols <= 2048,
                rows <= 2048,
        ;
        let count: usize = cols as usize * rows as usize;
        let mut memory: Vec<u16> = Vec::new();
        let mut k: usize = 0;
        while k < count
            invariant
                k <= count,
                memory@ == Seq::new(k as nat, |i: int| 0u16),
            decreases count - k,
        {
            memory.push(0);
            k += 1;
            assert(memory@ =~= Seq::new(k as nat, |i: int| 0u16));
        }
        memory
    }

    /// Takes the word on the data lines as a parameter of the command.
    fn take_param(&mut self)
        requires
            old(self).sound(),
            old(self).command != WRITE_MEMORY_START,
        ensures
            final(self)@ == with_param(old(self)@),
            final(self).sound(),
            final(self).tape() == old(self).tape(),
    {
        if self.params.len() >= PARAMS_KEPT {
            return ;
        }
        self.params.push(self.lines);
        let count: usize = self.params.len();
        if self.command == SET_COLUMN_ADDRESS && count == 4 {
            self.col_start = (self.params[0] % 256) * 256 + self.params[1] % 256;
            self.col_end = (self.params[2] % 256) * 256 + self.params[3] % 256;
        } else if self.command == SET_PAGE_ADDRESS && count == 4 {
            self.row_start = (self.params[0] % 256) * 256 + self.params[1] % 256;
            self.row_end = (self.params[2] % 256) * 256 + self.params[3] % 256;
        } else if self.command == SET_LCD_MODE && count == 7 {
            let cols: u16 = ((self.params[2] % 256) % 8) * 256 + self.params[3] % 256 + 1;
            let rows: u16 = ((self.params[4] % 256) % 8) * 256 + self.params[5] % 256 + 1;
            self.cols = cols;
            self.rows = rows;
            self.col_start = 0;
            self.col_end = cols - 1;
            self.row_start = 0;
            self.row_end = rows - 1;
            self.cursor = 0;
            self.memory = Self::blank(cols, rows);
        }
    }

    /// Takes the word on the data lines.
    fn take_word(&mut self)
        requires
            old(self).sound(),
        ensures
            final(self)@ == latched(old(self)@),
            final(self).sound(),
            final(self).tape() == old(self).tape(),
    {
        if !self.data {
            self.command = self.lines;
            self.params = Vec::new();
            self.cursor = 0;
            assert(self@.params =~= Seq::<u16>::empty());
        } else if self.command == WRITE_MEMORY_START {
            if self.window_valid() {
                let at: usize = self.address();
                self.memory.set(at, self.lines);
                self.advance();
            }
        } else {
            self.take_param();
        }
    }

    /// Hands out a pixel.
    fn hand_out(&mut self)
        requires
            old(self).sound(),
        ensures
            final(self)@ == handed_out(old(self)@),
            final(self).sound(),
            final(self).tape() == old(self).tape(),
    {
        if self.command == READ_MEMORY_START && self.window_valid() {
            self.advance();
        }
    }

    /// Puts a signal on record.
    fn note(&mut self, s: Signal)
        requires
            old(self).sound(),
            old(self).taped(),
            old(self)@ == after_signal(chip_of(old(self).tape().0), s),
        ensures
            final(self).inv(),
            final(self).signals() == old(self).signals().push(s),
            final(self).kept() == old(self).kept(),
    {
        let ghost before = self.history@;
        if self.log.len() < self.limit {
            self.log.push(s);
        }
        if self.count < u64::MAX {
            self.count = self.count + 1;
        }
        self.history = Ghost(before.push(s));
        proof {
            lemma_after_push(power_on(), before, s);
            assert(self.log@ =~= self.history@.take(self.log@.len() as int));
        }
    }
}

impl Bus for SimBus {
    closed spec fn inv(&self) -> bool {
        &&& self.sound()
        &&& self.taped()
        &&& self@ == chip_of(self.history@)
    }

    closed spec fn signals(&self) -> Seq<Signal> {
        self.history@
    }

    open spec fn dependable() -> bool {
        true
    }

    fn drive(&mut self, line: Line, high: bool) -> (r: Result<(), Error>) {
        match line {
            Line::ChipSelect => {
                self.select = high;
            },
            Line::DataCommand => {
                self.data = high;
            },
            Line::WriteStrobe => {
                if high && !self.write && !self.select {
                    self.take_word();
                }
                self.write = high;
            },
            Line::ReadStrobe => {
                if high && !self.read && !self.select {
                    self.hand_out();
                }
                self.read = high;
            },
        }
        self.note(Signal::Drive(line, high));
        Ok(())
    }

    fn present(&mut self, word: u16) -> (r: Result<(), Error>) {
        self.lines = word;
        self.note(Signal::Present(word));
        Ok(())
    }

    fn release(&mut self) -> (r: Result<(), Error>) {
        self.note(Signal::Release);
        Ok(())
    }

    fn claim(&mut self) -> (r: Result<(), Error>) {
        self.note(Signal::Claim);
        Ok(())
    }

    fn sample(&mut self) -> (r: Result<u16, Error>) {
        let word: u16 = if !self.select && !self.read && self.command == READ_MEMORY_START
            && self.window_valid() {
            let at: usize = self.address();
            self.memory[at]
        } else {
            0
        };
        self.note(Signal::Sample(word));
        Ok(word)
    }

    fn delay_us(&mut self, us: u32) {
        self.note(Signal::Wait(us));
    }
}

} // verus!
