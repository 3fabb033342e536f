use vstd::prelude::*;
use crate::bus::{Bus, BusInterface, Selector};
use crate::chip::{
    after_signals, chip_of, idle, lemma_after_concat, lemma_after_push, power_on, Chip, Line,
    Signal, READ_MEMORY_START, SET_COLUMN_ADDRESS, SET_LCD_MODE, SET_PAGE_ADDRESS,
    WRITE_MEMORY_START,
};
use crate::display::{overlay, paint, region, solid, Display};
use crate::effect::{
    lemma_fetched_pixel, lemma_fill_signals, lemma_init_signals, lemma_read_signals,
    lemma_window_signals, set_up,
};
use crate::error::Error;
use crate::geometry::{Bounds, Span};
use crate::protocol::{
    clock_words, encode, fetch_words, fill_words, init_words, lemma_encode_concat,
    lemma_encode_push, lemma_init_spoken, mode_words, nth_byte, output_words, pixel_words, pll_words, read_words,
    signals_of, spoken, timing_words, two_bytes, window_words, BusWord, Screen, PLL_DIVIDER,
    PLL_MULTIPLIER, SETTLE_US, SET_ADDRESS_MODE, SET_DISPLAY_ON, SET_GPIO_CONF, SET_GPIO_VALUE,
    SET_HORI_PERIOD, SET_LSHIFT_FREQ, SET_PIXEL_DATA_INTERFACE, SET_PLL, SET_PLL_MN,
    SET_PWM_CONF, SET_VERT_PERIOD, SOFT_RESET,
};

verus! {

/// How far the controller has come.
#[derive(Clone, Copy, Debug, PartialEq, Eq, Structural)]
pub enum State {
    /// Nothing has been said to the chip, or a fault has cut the talk short.
    Uninitialized,
    /// The chip is being brought up.
    Initializing,
    /// The chip shows its frame memory, and windows of it can be written and read.
    Ready,
}

/// The signals that bring the lines to rest and select the chip: the chip is let go
/// first, so that no strobe reaches it.
pub open spec fn wake_signals() -> Seq<Signal> {
    seq![
        Signal::Drive(Line::ChipSelect, true),
        Signal::Drive(Line::WriteStrobe, true),
        Signal::Drive(Line::ReadStrobe, true),
        Signal::Drive(Line::ChipSelect, false),
    ]
}

/// Whatever the chip was doing, it is idle after the lines have been brought to rest.
pub proof fn lemma_wake(c: Chip)
    ensures
        idle(after_signals(c, wake_signals())),
{
    let s = wake_signals();
    let s1 = Seq::<Signal>::empty().push(s[0]);
    let s2 = s1.push(s[1]);
    let s3 = s2.push(s[2]);
    assert(s =~= s3.push(s[3]));
    assert(after_signals(c, Seq::empty()) == c);
    lemma_after_push(c, Seq::empty(), s[0]);
    lemma_after_push(c, s1, s[1]);
    lemma_after_push(c, s2, s[2]);
    lemma_after_push(c, s3, s[3]);
}

/// The pixels that go out: `count` times the fixed colour if there is one, the first
/// `count` of `pixels` otherwise.
pub open spec fn outgoing(pixels: Seq<u16>, fixed: Option<u16>, count: int) -> Seq<u16> {
    match fixed {
        Some(color) => solid(count, color),
        None => pixels.take(count),
    }
}

fn add_two_bytes(plan: &mut Vec<BusWord>, value: u16)
    ensures
        final(plan)@ == old(plan)@ + two_bytes(value as int),
{
    plan.push(BusWord::Data(nth_byte(value as u32, 1)));
    plan.push(BusWord::Data(nth_byte(value as u32, 0)));
    assert(plan@ =~= old(plan)@ + two_bytes(value as int));
}

fn add_pll(plan: &mut Vec<BusWord>)
    ensures
        final(plan)@ == old(plan)@ + pll_words(),
{
    plan.push(BusWord::Command(SET_PLL_MN));
    plan.push(BusWord::Data(PLL_MULTIPLIER));
    plan.push(BusWord::Data(PLL_DIVIDER));
    plan.push(BusWord::Data(0x04));
    plan.push(BusWord::Command(SET_PLL));
    plan.push(BusWord::Data(0x01));
    plan.push(BusWord::Pause(SETTLE_US));
    plan.push(BusWord::Command(SET_PLL));
    plan.push(BusWord::Data(0x03));
    plan.push(BusWord::Pause(SETTLE_US));
    plan.push(BusWord::Command(SOFT_RESET));
    plan.push(BusWord::Pause(SETTLE_US));
    assert(plan@ =~= old(plan)@ + pll_words());
}

fn add_clock(plan: &mut Vec<BusWord>, screen: &Screen)
    ensures
        final(plan)@ == old(plan)@ + clock_words(*screen),
{
    let setting: u32 = screen.clock();
    plan.push(BusWord::Command(SET_LSHIFT_FREQ));
    plan.push(BusWord::Data(nth_byte(setting, 2)));
    plan.push(BusWord::Data(nth_byte(setting, 1)));
    plan.push(BusWord::Data(nth_byte(setting, 0)));
    assert(plan@ =~= old(plan)@ + clock_words(*screen));
}

fn add_mode(plan: &mut Vec<BusWord>, screen: &Screen)
    requires
        screen.ok(),
    ensures
        final(plan)@ == old(plan)@ + mode_words(*screen),
{
    plan.push(BusWord::Command(SET_LCD_MODE));
    plan.push(BusWord::Data(0x20));
    plan.push(BusWord::Data(0x00));
    plan.push(BusWord::Data(nth_byte((screen.width - 1) as u32, 1)));
    plan.push(BusWord::Data(nth_byte((screen.width - 1) as u32, 0)));
    plan.push(BusWord::Data(nth_byte((screen.height - 1) as u32, 1)));
    plan.push(BusWord::Data(nth_byte((screen.height - 1) as u32, 0)));
    plan.push(BusWord::Data(0x00));
    assert(plan@ =~= old(plan)@ + mode_words(*screen));
}

fn add_timing(plan: &mut Vec<BusWord>, screen: &Screen)
    requires
        screen.ok(),
    ensures
        final(plan)@ == old(plan)@ + timing_words(*screen),
{
    let h_total: u32 = screen.width as u32 + screen.h_front_porch as u32
        + screen.h_back_porch as u32 + screen.h_pulse as u32;
    let v_total: u32 = screen.height as u32 + screen.v_front_porch as u32
        + screen.v_back_porch as u32 + screen.v_pulse as u32;
    let h_start: u32 = screen.h_pulse as u32 + screen.h_back_porch as u32;
    let v_start: u32 = screen.v_pulse as u32 + screen.v_back_porch as u32;
    let ghost lead = plan@;
    plan.push(BusWord::Command(SET_HORI_PERIOD));
    add_two_bytes(plan, ((h_total - 1) % 0x1_0000) as u16);
    add_two_bytes(plan, (h_start % 0x1_0000) as u16);
    plan.push(BusWord::Data(nth_byte((screen.h_pulse - 1) as u32, 0)));
    plan.push(BusWord::Data(0x00));
    plan.push(BusWord::Data(0x00));
    plan.push(BusWord::Data(0x00));
    plan.push(BusWord::Command(SET_VERT_PERIOD));
    add_two_bytes(plan, ((v_total - 1) % 0x1_0000) as u16);
    add_two_bytes(plan, (v_start % 0x1_0000) as u16);
    plan.push(BusWord::Data(nth_byte((screen.v_pulse - 1) as u32, 0)));
    plan.push(BusWord::Data(0x00));
    plan.push(BusWord::Data(0x00));
    assert(plan@ =~= lead + timing_words(*screen));
}

fn add_output(plan: &mut Vec<BusWord>)
    ensures
        final(plan)@ == old(plan)@ + output_words(),
{
    plan.push(BusWord::Command(SET_GPIO_VALUE));
    plan.push(BusWord::Data(0x0F));
    plan.push(BusWord::Command(SET_GPIO_CONF));
    plan.push(BusWord::Data(0x07));
    plan.push(BusWord::Data(0x01));
    plan.push(BusWord::Command(SET_ADDRESS_MODE));
    plan.push(BusWord::Data(0x00));
    plan.push(BusWord::Command(SET_PIXEL_DATA_INTERFACE));
    plan.push(BusWord::Data(0x03));
    plan.push(BusWord::Command(SET_PWM_CONF));
    plan.push(BusWord::Data(0x06));
    plan.push(BusWord::Data(0xF0));
    plan.push(BusWord::Data(0x01));
    plan.push(BusWord::Data(0xF0));
    plan.push(BusWord::Data(0x00));
    plan.push(BusWord::Data(0x00));
    plan.push(BusWord::Command(SET_DISPLAY_ON));
    assert(plan@ =~= old(plan)@ + output_words());
}

/// Everything that is said to the chip to bring it up for `screen`.
pub fn init_plan(screen: &Screen) -> (plan: Vec<BusWord>)
    requires
        screen.ok(),
    ensures
        plan@ == init_words(*screen),
        spoken(plan@),
{
    proof {
        lemma_init_spoken(*screen);
    }
    let mut plan: Vec<BusWord> = Vec::new();
    add_pll(&mut plan);
    add_clock(&mut plan, screen);
    add_mode(&mut plan, screen);
    add_timing(&mut plan, screen);
    add_output(&mut plan);
    reveal(init_words);
    assert(plan@ =~= init_words(*screen));
    plan
}

/// What is said to the chip to address the window `b` and start a transfer with
/// `command`.
fn start_plan(b: &Bounds, command: u16) -> (plan: Vec<BusWord>)
    ensures
        plan@ == window_words(*b).push(BusWord::Command(command)),
        spoken(plan@),
{
    let mut plan: Vec<BusWord> = Vec::new();
    plan.push(BusWord::Command(SET_COLUMN_ADDRESS));
    add_two_bytes(&mut plan, b.x_start);
    add_two_bytes(&mut plan, b.x_end);
    plan.push(BusWord::Command(SET_PAGE_ADDRESS));
    add_two_bytes(&mut plan, b.y_start);
    add_two_bytes(&mut plan, b.y_end);
    plan.push(BusWord::Command(command));
    assert(plan@ =~= window_words(*b).push(BusWord::Command(command)));
    plan
}

/// The display controller: it owns the bus and speaks the commands of the chip.
pub struct Ssd1963<B: Bus> {
    pub iface: BusInterface<B>,
    pub screen: Screen,
    pub state: State,
}

impl<B: Bus> Ssd1963<B> {
    /// What has happened on the bus so far.
    pub open spec fn signals(&self) -> Seq<Signal> {
        self.iface.signals()
    }

    /// The chip at the far end of the bus.
    pub open spec fn chip(&self) -> Chip {
        chip_of(self.iface.signals())
    }

    /// What every operation needs and keeps: the bus is usable, and a controller that is
    /// ready has a chip that is set up for its panel.
    pub open spec fn wf(&self) -> bool {
        &&& self.iface.inv()
        &&& self.state is Ready ==> self.screen.ok() && set_up(self.chip(), self.screen)
    }

    /// The frame memory of the chip.
    pub open spec fn memory(&self) -> Seq<u16> {
        self.chip().memory
    }

    /// A controller for the panel `screen` on `bus`, to which nothing has been said yet.
    pub fn new(screen: Screen, bus: B) -> (c: Self)
        requires
            bus.inv(),
        ensures
            c.wf(),
            c.iface.bus == bus,
            c.screen == screen,
            c.state == State::Uninitialized,
    {
        Ssd1963 { iface: BusInterface::new(bus), screen, state: State::Uninitialized }
    }

    /// Says `words` to the chip. A fault ends the talk.
    fn send(&mut self, words: &[BusWord]) -> (r: Result<(), Error>)
        requires
            old(self).iface.inv(),
            spoken(words@),
        ensures
            final(self).iface.inv(),
            final(self).screen == old(self).screen,
            r is Ok ==> final(self).state == old(self).state && final(self).signals() == old(
                self,
            ).signals() + encode(words@),
            r is Err ==> r == Err::<(), Error>(Error::BusFault) && final(self).state
                == State::Uninitialized,
            B::dependable() ==> r is Ok,
    {
        let ghost start = self.signals();
        let mut k: usize = 0;
        assert(words@.take(0) =~= Seq::<BusWord>::empty());
        assert(self.signals() =~= start + encode(words@.take(0)));
        while k < words.len()
            invariant
                k <= words@.len(),
                self.iface.inv(),
                self.screen == old(self).screen,
                self.state == old(self).state,
                start == old(self).signals(),
                spoken(words@),
                self.signals() == start + encode(words@.take(k as int)),
            decreases words@.len() - k,
        {
            let word = words[k];
            let ghost before = self.signals();
            let sent = match word {
                BusWord::Command(x) => self.iface.write(Selector::Command, x),
                BusWord::Data(x) => self.iface.write(Selector::Data, x),
                BusWord::Pause(us) => {
                    self.iface.pause(us);
                    Ok(())
                },
                // nothing that is said holds a word to fetch
                BusWord::Fetch(_) => Ok(()),
            };
            if sent.is_err() {
                self.state = State::Uninitialized;
                return Err(Error::BusFault);
            }
            proof {
                assert(!(words@[k as int] is Fetch));
                assert(self.signals() =~= before + signals_of(word));
                assert(words@.take(k + 1) =~= words@.take(k as int).push(word));
                lemma_encode_push(words@.take(k as int), word);
                assert(self.signals() =~= start + encode(words@.take(k + 1)));
            }
            k += 1;
        }
        assert(words@.take(k as int) =~= words@);
        Ok(())
    }

    /// Brings the lines to rest and selects the chip.
    fn wake(&mut self) -> (r: Result<(), Error>)
        requires
            old(self).iface.inv(),
        ensures
            final(self).iface.inv(),
            final(self).screen == old(self).screen,
            r is Ok ==> final(self).state == old(self).state && final(self).signals() == old(
                self,
            ).signals() + wake_signals() && idle(final(self).chip()),
            r is Err ==> r == Err::<(), Error>(Error::BusFault) && final(self).state
                == State::Uninitialized,
            B::dependable() ==> r is Ok,
    {
        let mut done = self.iface.select(false);
        if done.is_ok() {
            done = self.iface.bus.drive(Line::WriteStrobe, true);
        }
        if done.is_ok() {
            done = self.iface.bus.drive(Line::ReadStrobe, true);
        }
        if done.is_ok() {
            done = self.iface.select(true);
        }
        if done.is_err() {
            self.state = State::Uninitialized;
            return Err(Error::BusFault);
        }
        proof {
            assert(self.signals() =~= old(self).signals() + wake_signals());
            lemma_after_concat(power_on(), old(self).signals(), wake_signals());
            lemma_wake(chip_of(old(self).signals()));
        }
        Ok(())
    }

    /// Brings the chip up: the lines come to rest, the chip is selected and stays so, and
    /// it is told its clock, the panel, the timing and the pixel format, and to switch the
    /// display on. The frame memory is empty then.
    ///
    /// Fails with `BoundsError`, before anything is said, where the chip cannot drive the
    /// panel; and with `BusFault` where the bus fails, which leaves the controller
    /// uninitialized.
    pub fn init(&mut self) -> (r: Result<(), Error>)
        requires
            old(self).wf(),
        ensures
            final(self).wf(),
            final(self).screen == old(self).screen,
            !old(self).screen.ok() ==> r == Err::<(), Error>(Error::BoundsError) && *final(self)
                == *old(self),
            old(self).screen.ok() ==> {
                &&& r is Ok || r == Err::<(), Error>(Error::BusFault)
                &&& r is Ok ==> {
                    &&& final(self).state == State::Ready
                    &&& final(self).signals() == old(self).signals() + wake_signals() + encode(
                        init_words(old(self).screen),
                    )
                    &&& final(self).memory() == solid(
                        old(self).screen.width * old(self).screen.height,
                        0,
                    )
                }
                &&& r is Err ==> final(self).state == State::Uninitialized
                &&& B::dependable() ==> r is Ok
            },
    {
        if !self.screen.usable() {
            return Err(Error::BoundsError);
        }
        self.state = State::Initializing;
        self.wake()?;
        let ghost rested = self.signals();
        let plan = init_plan(&self.screen);
        self.send(plan.as_slice())?;
        proof {
            lemma_init_signals(rested, self.screen);
        }
        self.state = State::Ready;
        Ok(())
    }

    /// Whether `b` is a rectangle of the panel.
    fn holds(&self, b: &Bounds) -> (ok: bool)
        ensures
            ok == self.screen.holds(*b),
    {
        b.x_start <= b.x_end && b.x_end < self.screen.width && b.y_start <= b.y_end && b.y_end
            < self.screen.height
    }

    /// Makes the rectangle with the given first and last column and row the window that
    /// pixels are written to and read from.
    ///
    /// Fails with `BusFault`, saying nothing, while the controller is not ready, and with
    /// `BoundsError`, saying nothing, where the panel has no such rectangle.
    pub fn set_window(&mut self, x_start: u16, x_end: u16, y_start: u16, y_end: u16) -> (r:
        Result<(), Error>)
        requires
            old(self).wf(),
        ensures
            final(self).wf(),
            final(self).screen == old(self).screen,
            window_outcome(*old(self), *final(self), (Bounds { x_start, x_end, y_start, y_end }), r),
    {
        let b = Bounds { x_start, x_end, y_start, y_end };
        if self.state != State::Ready {
            return Err(Error::BusFault);
        }
        if !self.holds(&b) {
            return Err(Error::BoundsError);
        }
        let mut plan: Vec<BusWord> = Vec::new();
        plan.push(BusWord::Command(SET_COLUMN_ADDRESS));
        add_two_bytes(&mut plan, x_start);
        add_two_bytes(&mut plan, x_end);
        plan.push(BusWord::Command(SET_PAGE_ADDRESS));
        add_two_bytes(&mut plan, y_start);
        add_two_bytes(&mut plan, y_end);
        assert(plan@ =~= window_words(b));
        self.send(plan.as_slice())?;
        proof {
            lemma_window_signals(old(self).signals(), self.screen, b);
        }
        Ok(())
    }

    /// Hands `count` pixels to the chip: the fixed colour if there is one, the first of
    /// `pixels` otherwise.
    fn put_pixels(&mut self, pixels: &[u16], fixed: Option<u16>, count: usize) -> (r: Result<
        (),
        Error,
    >)
        requires
            old(self).iface.inv(),
            fixed is None ==> count <= pixels@.len(),
        ensures
            final(self).iface.inv(),
            final(self).screen == old(self).screen,
            r is Ok ==> final(self).state == old(self).state && final(self).signals() == old(
                self,
            ).signals() + encode(pixel_words(outgoing(pixels@, fixed, count as int))),
            r is Err ==> r == Err::<(), Error>(Error::BusFault) && final(self).state
                == State::Uninitialized,
            B::dependable() ==> r is Ok,
    {
        let ghost start = self.signals();
        let ghost data = outgoing(pixels@, fixed, count as int);
        let mut k: usize = 0;
        assert(pixel_words(data.take(0)) =~= Seq::<BusWord>::empty());
        assert(self.signals() =~= start + encode(pixel_words(data.take(0))));
        while k < count
            invariant
                k <= count,
                self.iface.inv(),
                self.screen == old(self).screen,
                self.state == old(self).state,
                start == old(self).signals(),
                fixed is None ==> count <= pixels@.len(),
                data == outgoing(pixels@, fixed, count as int),
                data.len() == count,
                self.signals() == start + encode(pixel_words(data.take(k as int))),
            decreases count - k,
        {
            let pixel: u16 = match fixed {
                Some(color) => color,
                None => pixels[k],
            };
            let ghost before = self.signals();
            if self.iface.write(Selector::Data, pixel).is_err() {
                self.state = State::Uninitialized;
                return Err(Error::BusFault);
            }
            proof {
                let sent = pixel_words(data.take(k as int));
                assert(pixel == data[k as int]);
                assert(pixel_words(data.take(k + 1)) =~= sent.push(BusWord::Data(pixel)));
                lemma_encode_push(sent, BusWord::Data(pixel));
                assert(self.signals() =~= start + encode(pixel_words(data.take(k + 1))));
            }
            k += 1;
        }
        assert(data.take(k as int) =~= data);
        Ok(())
    }

    /// Addresses the window `b`, starts the writing and hands `count` pixels over.
    fn write_window(&mut self, b: &Bounds, pixels: &[u16], fixed: Option<u16>, count: usize) -> (r:
        Result<(), Error>)
        requires
            old(self).wf(),
            old(self).state is Ready,
            old(self).screen.holds(*b),
            fixed is None ==> count <= pixels@.len(),
            count <= b.spec_area(),
        ensures
            final(self).wf(),
            final(self).screen == old(self).screen,
            r is Ok ==> {
                &&& final(self).state is Ready
                &&& final(self).signals() == old(self).signals() + encode(
                    fill_words(*b, outgoing(pixels@, fixed, count as int)),
                )
                &&& final(self).memory() == paint(
                    old(self).memory(),
                    old(self).screen.width as int,
                    *b,
                    outgoing(pixels@, fixed, count as int),
                )
            },
            r is Err ==> r == Err::<(), Error>(Error::BusFault) && final(self).state
                == State::Uninitialized,
            B::dependable() ==> r is Ok,
    {
        let ghost data = outgoing(pixels@, fixed, count as int);
        let plan = start_plan(b, WRITE_MEMORY_START);
        self.send(plan.as_slice())?;
        self.put_pixels(pixels, fixed, count)?;
        proof {
            lemma_encode_concat(plan@, pixel_words(data));
            assert(self.signals() =~= old(self).signals() + encode(fill_words(*b, data)));
            lemma_fill_signals(old(self).signals(), self.screen, *b, data);
        }
        Ok(())
    }

    /// Gives every pixel of the rectangle `bounds` the colour `color`: the window is
    /// addressed, the writing is started, and the colour is handed over once for every
    /// pixel.
    ///
    /// Fails with `BusFault`, saying nothing, while the controller is not ready, and with
    /// `BoundsError`, saying nothing, where the panel has no such rectangle.
    pub fn fill(&mut self, bounds: &Bounds, color: u16) -> (r: Result<(), Error>)
        requires
            old(self).wf(),
        ensures
            final(self).wf(),
            final(self).screen == old(self).screen,
            !(old(self).state is Ready) ==> r == Err::<(), Error>(Error::BusFault) && *final(self)
                == *old(self),
            old(self).state is Ready && !old(self).screen.holds(*bounds) ==> r == Err::<
                (),
                Error,
            >(Error::BoundsError) && *final(self) == *old(self),
            old(self).state is Ready && old(self).screen.holds(*bounds) ==> {
                &&& r is Ok || r == Err::<(), Error>(Error::BusFault)
                &&& r is Err ==> final(self).state == State::Uninitialized
                &&& r is Ok ==> {
                    &&& final(self).state is Ready
                    &&& final(self).signals() == old(self).signals() + encode(
                        fill_words(*bounds, solid(bounds.spec_area(), color)),
                    )
                    &&& final(self).memory() == paint(
                        old(self).memory(),
                        old(self).screen.width as int,
                        *bounds,
                        solid(bounds.spec_area(), color),
                    )
                }
                &&& B::dependable() ==> r is Ok
            },
    {
        if self.state != State::Ready {
            return Err(Error::BusFault);
        }
        if !self.holds(bounds) {
            return Err(Error::BoundsError);
        }
        let area: usize = bounds.area() as usize;
        let none: [u16; 0] = [];
        self.write_window(bounds, vstd::array::array_as_slice(&none), Some(color), area)
    }

    /// Writes `pixels` into the rectangle `bounds`, as many as it holds, row after row.
    /// Where they end before the rectangle is full, those that are there are written and
    /// the call fails with `StreamUnderflow`.
    ///
    /// Fails with `BusFault`, saying nothing, while the controller is not ready, and with
    /// `BoundsError`, saying nothing, where the panel has no such rectangle.
    pub fn fill_stream(&mut self, bounds: &Bounds, pixels: &[u16]) -> (r: Result<(), Error>)
        requires
            old(self).wf(),
        ensures
            final(self).wf(),
            final(self).screen == old(self).screen,
            !(old(self).state is Ready) ==> r == Err::<(), Error>(Error::BusFault) && *final(self)
                == *old(self),
            old(self).state is Ready && !old(self).screen.holds(*bounds) ==> r == Err::<
                (),
                Error,
            >(Error::BoundsError) && *final(self) == *old(self),
            old(self).state is Ready && old(self).screen.holds(*bounds) ==> {
                &&& r is Ok ==> pixels@.len() >= bounds.spec_area()
                &&& r is Err ==> r == Err::<(), Error>(Error::StreamUnderflow) || r == Err::<
                    (),
                    Error,
                >(Error::BusFault)
                &&& r == Err::<(), Error>(Error::StreamUnderflow) ==> pixels@.len()
                    < bounds.spec_area()
                &&& r == Err::<(), Error>(Error::BusFault) ==> final(self).state
                    == State::Uninitialized
                &&& !(r == Err::<(), Error>(Error::BusFault)) ==> {
                    &&& final(self).state is Ready
                    &&& final(self).signals() == old(self).signals() + encode(
                        fill_words(
                            *bounds,
                            pixels@.take(
                                if pixels@.len() < bounds.spec_area() {
                                    pixels@.len() as int
                                } else {
                                    bounds.spec_area()
                                },
                            ),
                        ),
                    )
                    &&& final(self).memory() == paint(
                        old(self).memory(),
                        old(self).screen.width as int,
                        *bounds,
                        pixels@,
                    )
                }
                &&& B::dependable() ==> !(r == Err::<(), Error>(Error::BusFault))
            },
    {
        if self.state != State::Ready {
            return Err(Error::BusFault);
        }
        if !self.holds(bounds) {
            return Err(Error::BoundsError);
        }
        let area: usize = bounds.area() as usize;
        let count: usize = if pixels.len() < area {
            pixels.len()
        } else {
            area
        };
        self.write_window(bounds, pixels, None, count)?;
        proof {
            crate::display::lemma_paint_prefix(
                old(self).memory(),
                self.screen.width as int,
                *bounds,
                pixels@,
                count as int,
            );
        }
        if count < area {
            Err(Error::StreamUnderflow)
        } else {
            Ok(())
        }
    }

    /// Reads the rectangle `bounds` into the front of `buffer`, row after row, as far as
    /// the buffer reaches: the window is addressed, the reading is started, and the pixels
    /// are fetched one by one.
    ///
    /// Fails with `BusFault`, saying nothing, while the controller is not ready, and with
    /// `BoundsError`, saying nothing, where the panel has no such rectangle.
    pub fn read_stream(&mut self, bounds: &Bounds, buffer: &mut [u16]) -> (r: Result<(), Error>)
        requires
            old(self).wf(),
        ensures
            final(self).wf(),
            final(self).screen == old(self).screen,
            final(buffer)@.len() == old(buffer)@.len(),
            !(old(self).state is Ready) ==> r == Err::<(), Error>(Error::BusFault) && *final(self)
                == *old(self) && final(buffer)@ == old(buffer)@,
            old(self).state is Ready && !old(self).screen.holds(*bounds) ==> r == Err::<
                (),
                Error,
            >(Error::BoundsError) && *final(self) == *old(self) && final(buffer)@ == old(buffer)@,
            old(self).state is Ready && old(self).screen.holds(*bounds) ==> {
                &&& r is Ok || r == Err::<(), Error>(Error::BusFault)
                &&& r is Err ==> final(self).state == State::Uninitialized
                &&& r is Ok ==> {
                    &&& final(self).state is Ready
                    &&& final(self).signals() == old(self).signals() + encode(
                        read_words(
                            *bounds,
                            final(buffer)@.take(
                                if old(buffer)@.len() < bounds.spec_area() {
                                    old(buffer)@.len() as int
                                } else {
                                    bounds.spec_area()
                                },
                            ),
                        ),
                    )
                    &&& final(self).memory() == old(self).memory()
                    &&& forall|j: int|
                        bounds.spec_area() <= j < old(buffer)@.len() ==> final(buffer)@[j] == old(
                            buffer,
                        )@[j]
                }
                &&& B::dependable() ==> r is Ok && final(buffer)@ == overlay(
                    old(buffer)@,
                    region(old(self).memory(), old(self).screen.width as int, *bounds),
                )
            },
    {
        if self.state != State::Ready {
            return Err(Error::BusFault);
        }
        if !self.holds(bounds) {
            return Err(Error::BoundsError);
        }
        let area: usize = bounds.area() as usize;
        let count: usize = if buffer.len() < area {
            buffer.len()
        } else {
            area
        };
        let ghost start = self.signals();
        let ghost held = region(self.memory(), self.screen.width as int, *bounds);
        let plan = start_plan(bounds, READ_MEMORY_START);
        self.send(plan.as_slice())?;
        let mut k: usize = 0;
        proof {
            assert(fetch_words(buffer@.take(0)) =~= Seq::<BusWord>::empty());
            assert(read_words(*bounds, buffer@.take(0)) =~= plan@);
        }
        while k < count
            invariant
                k <= count,
                count <= area,
                count <= buffer@.len(),
                area == bounds.spec_area(),
                buffer@.len() == old(buffer)@.len(),
                self.iface.inv(),
                self.screen == old(self).screen,
                self.screen.ok(),
                self.screen.holds(*bounds),
                self.state == State::Ready,
                old(self).state is Ready,
                old(self).screen.holds(*bounds),
                start == old(self).signals(),
                set_up(chip_of(start), self.screen),
                held == region(chip_of(start).memory, self.screen.width as int, *bounds),
                self.signals() == start + encode(read_words(*bounds, buffer@.take(k as int))),
                forall|j: int| k <= j < buffer@.len() ==> buffer@[j] == old(buffer)@[j],
                B::dependable() ==> forall|j: int| 0 <= j < k ==> buffer@[j] == held[j],
            decreases count - k,
        {
            let ghost before = self.signals();
            let ghost got = buffer@.take(k as int);
            proof {
                lemma_read_signals(start, self.screen, *bounds, got);
                lemma_fetched_pixel(chip_of(before), *bounds, k as int);
            }
            let word: u16 = match self.iface.read() {
                Ok(word) => word,
                Err(_) => {
                    self.state = State::Uninitialized;
                    return Err(Error::BusFault);
                },
            };
            buffer[k] = word;
            proof {
                let sent = read_words(*bounds, got);
                assert(buffer@.take(k + 1) =~= got.push(word));
                assert(read_words(*bounds, got.push(word)) =~= sent.push(BusWord::Fetch(word)));
                lemma_encode_push(sent, BusWord::Fetch(word));
                assert(self.signals() =~= start + encode(read_words(*bounds, buffer@.take(k + 1))));
            }
            k += 1;
        }
        proof {
            lemma_read_signals(start, self.screen, *bounds, buffer@.take(k as int));
            if B::dependable() {
                assert(buffer@ =~= overlay(old(buffer)@, held));
            }
        }
        Ok(())
    }
}

/// What addressing a window does, and what it answers.
pub open spec fn window_outcome<B: Bus>(
    before: Ssd1963<B>,
    after: Ssd1963<B>,
    b: Bounds,
    r: Result<(), Error>,
) -> bool {
    if !(before.state is Ready) {
        r == Err::<(), Error>(Error::BusFault) && after == before
    } else if !before.screen.holds(b) {
        r == Err::<(), Error>(Error::BoundsError) && after == before
    } else {
        &&& r is Ok || r == Err::<(), Error>(Error::BusFault)
        &&& r is Err ==> after.state == State::Uninitialized
        &&& r is Ok ==> {
            &&& after.state is Ready
            &&& after.signals() == before.signals() + encode(window_words(b))
            &&& after.memory() == before.memory()
            &&& after.chip().col_start == b.x_start
            &&& after.chip().col_end == b.x_end
            &&& after.chip().row_start == b.y_start
            &&& after.chip().row_end == b.y_end
        }
        &&& B::dependable() ==> r is Ok
    }
}

/// The controller as a surface: what is written goes into the frame memory of the chip,
/// and what is read comes from there. A controller that is not ready shows nothing, and
/// answers every request for a rectangle of its panel with `BusFault`.
impl<B: Bus> Display for Ssd1963<B> {
    open spec fn inv(&self) -> bool {
        &&& self.wf()
        &&& self.screen.ok()
        &&& B::dependable() ==> self.state is Ready
    }

    open spec fn cols(&self) -> nat {
        self.screen.width as nat
    }

    open spec fn rows(&self) -> nat {
        self.screen.height as nat
    }

    open spec fn pixels(&self) -> Seq<u16> {
        if self.state is Ready {
            self.memory()
        } else {
            solid(self.screen.width * self.screen.height, 0)
        }
    }

    open spec fn dependable() -> bool {
        B::dependable()
    }

    proof fn lemma_inv(&self) {
        assert(self.screen.width * self.screen.height >= 0) by (nonlinear_arith)
            requires
                self.screen.width >= 0,
                self.screen.height >= 0,
        ;
    }

    fn width(&self) -> (w: u16) {
        self.screen.width
    }

    fn height(&self) -> (h: u16) {
        self.screen.height
    }

    fn fill_area_color(&mut self, x: Span, y: Span, color: u16) -> (r: Result<(), Error>) {
        let max = Bounds {
            x_start: 0,
            x_end: self.screen.width - 1,
            y_start: 0,
            y_end: self.screen.height - 1,
        };
        match Bounds::clip(x, y, &max) {
            Ok(b) => self.fill(&b, color),
            Err(_) => Err(Error::BoundsError),
        }
    }

    fn fill_area(&mut self, x: Span, y: Span, pixels: &[u16]) -> (r: Result<(), Error>) {
        let max = Bounds {
            x_start: 0,
            x_end: self.screen.width - 1,
            y_start: 0,
            y_end: self.screen.height - 1,
        };
        match Bounds::clip(x, y, &max) {
            Ok(b) => self.fill_stream(&b, pixels),
            Err(_) => Err(Error::BoundsError),
        }
    }

    fn read_area(&mut self, x: Span, y: Span, buffer: &mut [u16]) -> (r: Result<(), Error>) {
        let max = Bounds {
            x_start: 0,
            x_end: self.screen.width - 1,
            y_start: 0,
            y_end: self.screen.height - 1,
        };
        match Bounds::clip(x, y, &max) {
            Ok(b) => self.read_stream(&b, buffer),
            Err(_) => Err(Error::BoundsError),
        }
    }
}

} // verus!
