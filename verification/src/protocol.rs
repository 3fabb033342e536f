use vstd::prelude::*;
use crate::bus::{read_cycle, write_cycle, Selector};
use crate::chip::{
    Signal, READ_MEMORY_START, SET_COLUMN_ADDRESS, SET_LCD_MODE, SET_PAGE_ADDRESS,
    WRITE_MEMORY_START,
};
use crate::geometry::Bounds;

verus! {

pub const SOFT_RESET: u16 = 0x01;

pub const SET_DISPLAY_ON: u16 = 0x29;

pub const SET_ADDRESS_MODE: u16 = 0x36;

pub const SET_HORI_PERIOD: u16 = 0xB4;

pub const SET_VERT_PERIOD: u16 = 0xB6;

pub const SET_GPIO_CONF: u16 = 0xB8;

pub const SET_GPIO_VALUE: u16 = 0xBA;

pub const SET_PWM_CONF: u16 = 0xBE;

pub const SET_PLL: u16 = 0xE0;

pub const SET_PLL_MN: u16 = 0xE2;

pub const SET_LSHIFT_FREQ: u16 = 0xE6;

pub const SET_PIXEL_DATA_INTERFACE: u16 = 0xF0;

/// Multiplier of the PLL, less one: the 10 MHz of the crystal become 360 MHz.
pub const PLL_MULTIPLIER: u16 = 0x23;

/// Divider of the PLL, less one: the 360 MHz become the 120 MHz that the chip runs at.
pub const PLL_DIVIDER: u16 = 0x02;

/// The clock that the PLL hands out, in Hz.
pub const PLL_HZ: u64 = 120_000_000;

/// Microseconds that the PLL is given to lock, and the chip to come out of a reset.
pub const SETTLE_US: u32 = 10_000;

/// One step of talking to the chip.
#[derive(Clone, Copy, Debug, PartialEq, Eq, Structural)]
pub enum BusWord {
    /// A word handed to the chip as a command.
    Command(u16),
    /// A word handed to the chip as data.
    Data(u16),
    /// A word fetched from the chip.
    Fetch(u16),
    /// So many microseconds of silence.
    Pause(u32),
}

/// The signals of one step.
pub open spec fn signals_of(word: BusWord) -> Seq<Signal> {
    match word {
        BusWord::Command(c) => write_cycle(Selector::Command, c),
        BusWord::Data(d) => write_cycle(Selector::Data, d),
        BusWord::Fetch(word) => read_cycle(word),
        BusWord::Pause(us) => seq![Signal::Wait(us)],
    }
}

/// The signals of a sequence of steps, one after the other.
pub open spec fn encode(words: Seq<BusWord>) -> Seq<Signal>
    decreases words.len(),
{
    if words.len() == 0 {
        Seq::empty()
    } else {
        encode(words.drop_last()) + signals_of(words.last())
    }
}

pub proof fn lemma_encode_push(words: Seq<BusWord>, word: BusWord)
    ensures
        encode(words.push(word)) == encode(words) + signals_of(word),
{
    assert(words.push(word).drop_last() =~= words);
}

pub proof fn lemma_encode_concat(first: Seq<BusWord>, then: Seq<BusWord>)
    ensures
        encode(first + then) == encode(first) + encode(then),
    decreases then.len(),
{
    if then.len() == 0 {
        assert(first + then =~= first);
        assert(encode(first) + encode(then) =~= encode(first));
    } else {
        assert((first + then).drop_last() =~= first + then.drop_last());
        lemma_encode_concat(first, then.drop_last());
        assert(encode(first + then) =~= encode(first) + encode(then));
    }
}

/// Byte `n` of `value`, counted from the least significant one; 0 beyond the fourth.
pub open spec fn spec_nth_byte(value: u32, n: int) -> int {
    if n == 0 {
        value as int % 256
    } else if n == 1 {
        value as int / 0x100 % 256
    } else if n == 2 {
        value as int / 0x1_0000 % 256
    } else if n == 3 {
        value as int / 0x100_0000 % 256
    } else {
        0
    }
}

/// Byte `n` of `value`, counted from the least significant one; 0 where `value` has no
/// such byte.
pub fn nth_byte(value: u32, n: u8) -> (byte: u16)
    ensures
        byte == spec_nth_byte(value, n as int),
        byte <= 0xFF,
{
    if n >= 4 {
        return 0;
    }
    let shifted: u32 = if n == 0 {
        value
    } else if n == 1 {
        value >> 8
    } else if n == 2 {
        value >> 16
    } else {
        value >> 24
    };
    assert(value >> 8 == value / 0x100) by (bit_vector);
    assert(value >> 16 == value / 0x1_0000) by (bit_vector);
    assert(value >> 24 == value / 0x100_0000) by (bit_vector);
    assert(shifted & 0xFF == shifted % 256) by (bit_vector);
    (shifted & 0xFF) as u16
}

/// A panel and its timing.
#[derive(Clone, Copy, Debug, PartialEq, Eq, Structural)]
pub struct Screen {
    /// Pixels in a row.
    pub width: u16,
    /// Number of rows.
    pub height: u16,
    /// Pixel clocks between the end of a row and its sync pulse.
    pub h_front_porch: u16,
    /// Pixel clocks between the sync pulse of a row and its first pixel.
    pub h_back_porch: u16,
    /// Pixel clocks that the sync pulse of a row lasts.
    pub h_pulse: u16,
    /// Rows between the end of a frame and its sync pulse.
    pub v_front_porch: u16,
    /// Rows between the sync pulse of a frame and its first row.
    pub v_back_porch: u16,
    /// Rows that the sync pulse of a frame lasts.
    pub v_pulse: u16,
    /// Frames in a second.
    pub refresh_hz: u16,
}

impl Screen {
    /// The chip can drive the panel: it is neither empty nor larger than 2048 pixels
    /// either way, and its sync pulses last.
    pub open spec fn ok(self) -> bool {
        &&& 1 <= self.width <= 2048
        &&& 1 <= self.height <= 2048
        &&& 1 <= self.h_pulse
        &&& 1 <= self.v_pulse
    }

    /// Pixel clocks from one row to the next.
    pub open spec fn h_total(self) -> int {
        self.width + self.h_front_porch + self.h_back_porch + self.h_pulse
    }

    /// Rows from one frame to the next.
    pub open spec fn v_total(self) -> int {
        self.height + self.v_front_porch + self.v_back_porch + self.v_pulse
    }

    /// Pixels in a second.
    pub open spec fn pixel_hz(self) -> int {
        self.h_total() * self.v_total() * self.refresh_hz
    }

    /// The pixel clock as the chip wants it: as a fraction of the clock of the PLL, in
    /// units of 2 to the power of -20; no more than 32 bits hold.
    pub open spec fn clock_setting(self) -> int {
        if self.pixel_hz() * 0x10_0000 / (PLL_HZ as int) > u32::MAX {
            u32::MAX as int
        } else {
            self.pixel_hz() * 0x10_0000 / (PLL_HZ as int)
        }
    }

    /// The whole panel as a rectangle.
    pub open spec fn extent(self) -> Bounds {
        Bounds {
            x_start: 0,
            x_end: (self.width - 1) as u16,
            y_start: 0,
            y_end: (self.height - 1) as u16,
        }
    }

    /// `b` is a rectangle of the panel.
    pub open spec fn holds(self, b: Bounds) -> bool {
        &&& b.x_start <= b.x_end < self.width
        &&& b.y_start <= b.y_end < self.height
    }

    /// A panel of 800 by 480 pixels at 60 frames in a second.
    pub fn lcd_800x480() -> (s: Screen)
        ensures
            s.ok(),
            s == (Screen {
                width: 800,
                height: 480,
                h_front_porch: 40,
                h_back_porch: 40,
                h_pulse: 48,
                v_front_porch: 13,
                v_back_porch: 29,
                v_pulse: 3,
                refresh_hz: 60,
            }),
    {
        Screen {
            width: 800,
            height: 480,
            h_front_porch: 40,
            h_back_porch: 40,
            h_pulse: 48,
            v_front_porch: 13,
            v_back_porch: 29,
            v_pulse: 3,
            refresh_hz: 60,
        }
    }

    /// Whether the chip can drive the panel.
    pub fn usable(&self) -> (ok: bool)
        ensures
            ok == self.ok(),
    {
        1 <= self.width && self.width <= 2048 && 1 <= self.height && self.height <= 2048 && 1
            <= self.h_pulse && 1 <= self.v_pulse
    }

    /// The pixel clock as the chip wants it.
    pub fn clock(&self) -> (setting: u32)
        ensures
            setting == self.clock_setting(),
    {
        let h_total: u64 = self.width as u64 + self.h_front_porch as u64 + self.h_back_porch as u64
            + self.h_pulse as u64;
        let v_total: u64 = self.height as u64 + self.v_front_porch as u64
            + self.v_back_porch as u64 + self.v_pulse as u64;
        assert(h_total * v_total <= 0x4_0000 * 0x4_0000) by (nonlinear_arith)
            requires
                h_total <= 0x4_0000,
                v_total <= 0x4_0000,
        ;
        let per_frame: u64 = h_total * v_total;
        assert(per_frame * self.refresh_hz <= 0x10_0000_0000 * 0x1_0000) by (nonlinear_arith)
            requires
                per_frame <= 0x10_0000_0000,
                self.refresh_hz <= 0x1_0000,
        ;
        let pixel_hz: u64 = per_frame * self.refresh_hz as u64;
        // 52 bits of pixel clock and 20 bits of scale are more than 64 bits hold
        let scaled: u128 = pixel_hz as u128 * 0x10_0000u128;
        let setting: u128 = scaled / PLL_HZ as u128;
        if setting > 0xFFFF_FFFF {
            0xFFFF_FFFF
        } else {
            setting as u32
        }
    }
}

/// The two bytes of a 16-bit value as data words, the high byte first.
pub open spec fn two_bytes(value: int) -> Seq<BusWord> {
    seq![BusWord::Data((value / 256 % 256) as u16), BusWord::Data((value % 256) as u16)]
}

/// Switches the PLL on and makes it the clock of the chip.
pub open spec fn pll_words() -> Seq<BusWord> {
    seq![
        BusWord::Command(SET_PLL_MN),
        BusWord::Data(PLL_MULTIPLIER),
        BusWord::Data(PLL_DIVIDER),
        BusWord::Data(0x04),
        BusWord::Command(SET_PLL),
        BusWord::Data(0x01),
        BusWord::Pause(SETTLE_US),
        BusWord::Command(SET_PLL),
        BusWord::Data(0x03),
        BusWord::Pause(SETTLE_US),
        BusWord::Command(SOFT_RESET),
        BusWord::Pause(SETTLE_US),
    ]
}

/// Sets the pixel clock: the three bytes of the setting, the highest first.
pub open spec fn clock_words(s: Screen) -> Seq<BusWord> {
    seq![
        BusWord::Command(SET_LSHIFT_FREQ),
        BusWord::Data(spec_nth_byte(s.clock_setting() as u32, 2) as u16),
        BusWord::Data(spec_nth_byte(s.clock_setting() as u32, 1) as u16),
        BusWord::Data(spec_nth_byte(s.clock_setting() as u32, 0) as u16),
    ]
}

/// Tells the chip the kind and the size of the panel.
pub open spec fn mode_words(s: Screen) -> Seq<BusWord> {
    seq![
        BusWord::Command(SET_LCD_MODE),
        BusWord::Data(0x20),
        BusWord::Data(0x00),
        BusWord::Data(((s.width - 1) / 256 % 256) as u16),
        BusWord::Data(((s.width - 1) % 256) as u16),
        BusWord::Data(((s.height - 1) / 256 % 256) as u16),
        BusWord::Data(((s.height - 1) % 256) as u16),
        BusWord::Data(0x00),
    ]
}

/// Sets the timing of a row and of a frame: the whole period less one, the clocks
/// before the first pixel, the length of the sync pulse less one, and where the pulse
/// begins.
pub open spec fn timing_words(s: Screen) -> Seq<BusWord> {
    seq![BusWord::Command(SET_HORI_PERIOD)] + two_bytes((s.h_total() - 1) % 0x1_0000) + two_bytes(
        (s.h_pulse + s.h_back_porch) % 0x1_0000,
    ) + seq![
        BusWord::Data(((s.h_pulse - 1) % 256) as u16),
        BusWord::Data(0x00),
        BusWord::Data(0x00),
        BusWord::Data(0x00),
        BusWord::Command(SET_VERT_PERIOD),
    ] + two_bytes((s.v_total() - 1) % 0x1_0000) + two_bytes(
        (s.v_pulse + s.v_back_porch) % 0x1_0000,
    ) + seq![
        BusWord::Data(((s.v_pulse - 1) % 256) as u16),
        BusWord::Data(0x00),
        BusWord::Data(0x00),
    ]
}

/// Sets the pins of the panel, the order of the pixels in memory, the 16-bit pixel
/// format and the backlight, and switches the display on.
pub open spec fn output_words() -> Seq<BusWord> {
    seq![
        BusWord::Command(SET_GPIO_VALUE),
        BusWord::Data(0x0F),
        BusWord::Command(SET_GPIO_CONF),
        BusWord::Data(0x07),
        BusWord::Data(0x01),
        BusWord::Command(SET_ADDRESS_MODE),
        BusWord::Data(0x00),
        BusWord::Command(SET_PIXEL_DATA_INTERFACE),
        BusWord::Data(0x03),
        BusWord::Command(SET_PWM_CONF),
        BusWord::Data(0x06),
        BusWord::Data(0xF0),
        BusWord::Data(0x01),
        BusWord::Data(0xF0),
        BusWord::Data(0x00),
        BusWord::Data(0x00),
        BusWord::Command(SET_DISPLAY_ON),
    ]
}

/// Everything that is said to the chip to bring it up.
#[verifier::opaque]
pub open spec fn init_words(s: Screen) -> Seq<BusWord> {
    pll_words() + clock_words(s) + mode_words(s) + timing_words(s) + output_words()
}

/// Addresses a window: its first and last column, then its first and last row.
pub open spec fn window_words(b: Bounds) -> Seq<BusWord> {
    seq![BusWord::Command(SET_COLUMN_ADDRESS)] + two_bytes(b.x_start as int) + two_bytes(
        b.x_end as int,
    ) + seq![BusWord::Command(SET_PAGE_ADDRESS)] + two_bytes(b.y_start as int) + two_bytes(
        b.y_end as int,
    )
}

/// Pixels as data words.
pub open spec fn pixel_words(pixels: Seq<u16>) -> Seq<BusWord> {
    Seq::new(pixels.len(), |k: int| BusWord::Data(pixels[k]))
}

/// Writes pixels into a window: the window, the command that starts the writing, and
/// the pixels.
pub open spec fn fill_words(b: Bounds, pixels: Seq<u16>) -> Seq<BusWord> {
    window_words(b).push(BusWord::Command(WRITE_MEMORY_START)) + pixel_words(pixels)
}

/// Pixels as words fetched.
pub open spec fn fetch_words(pixels: Seq<u16>) -> Seq<BusWord> {
    Seq::new(pixels.len(), |k: int| BusWord::Fetch(pixels[k]))
}

/// Reads pixels from a window: the window, the command that starts the reading, and
/// the pixels as they come.
pub open spec fn read_words(b: Bounds, pixels: Seq<u16>) -> Seq<BusWord> {
    window_words(b).push(BusWord::Command(READ_MEMORY_START)) + fetch_words(pixels)
}

/// Steps that can be said to the chip: none of them is a word fetched from it.
pub open spec fn spoken(words: Seq<BusWord>) -> bool {
    forall|i: int| 0 <= i < words.len() ==> !(#[trigger] words[i] is Fetch)
}

/// Nothing is fetched from the chip while it is brought up.
pub proof fn lemma_init_spoken(s: Screen)
    ensures
        spoken(init_words(s)),
{
    reveal(init_words);
    assert(spoken(pll_words()));
    assert(spoken(clock_words(s)));
    assert(spoken(mode_words(s)));
    assert(spoken(timing_words(s)));
    assert(spoken(output_words()));
    let a = pll_words() + clock_words(s);
    assert(spoken(a));
    let b = a + mode_words(s);
    assert(spoken(b));
    let c = b + timing_words(s);
    assert(spoken(c));
    assert(spoken(c + output_words()));
}

} // verus!
