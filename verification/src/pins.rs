use vstd::prelude::*;
use crate::bus::Bus;
use crate::chip::{Line, Signal};
use crate::error::Error;

verus! {

/// The pins of the microcontroller that the bus is wired to. This is all that the
/// driver needs of the hardware; each operation may report that a pin could not be
/// driven.
pub trait Pins {
    /// Drives a control line high or low.
    fn set_line(&mut self, line: Line, high: bool) -> Result<(), Error>;

    /// Drives the sixteen data lines with a word, at once.
    fn write_lines(&mut self, word: u16) -> Result<(), Error>;

    /// Turns the data lines into inputs (`true`) or back into outputs.
    fn set_input(&mut self, input: bool) -> Result<(), Error>;

    /// Reads the sixteen data lines.
    fn read_lines(&mut self) -> Result<u16, Error>;

    /// Waits for `us` microseconds.
    fn delay_us(&mut self, us: u32);
}

/// A bus on real pins. What has happened on it is known; what the far end does is not.
pub struct PinBus<P: Pins> {
    pub pins: P,
    pub history: Ghost<Seq<Signal>>,
}

impl<P: Pins> PinBus<P> {
    pub fn new(pins: P) -> (bus: Self)
        ensures
            bus.pins == pins,
            bus.signals() == Seq::<Signal>::empty(),
            bus.inv(),
    {
        PinBus { pins, history: Ghost(Seq::empty()) }
    }
}

impl<P: Pins> Bus for PinBus<P> {
    open spec fn inv(&self) -> bool {
        true
    }

    open spec fn signals(&self) -> Seq<Signal> {
        self.history@
    }

    open spec fn dependable() -> bool {
        false
    }

    fn drive(&mut self, line: Line, high: bool) -> (r: Result<(), Error>) {
        match self.pins.set_line(line, high) {
            Ok(()) => {
                self.history = Ghost(self.history@.push(Signal::Drive(line, high)));
                Ok(())
            },
            Err(_) => Err(Error::BusFault),
        }
    }

    fn present(&mut self, word: u16) -> (r: Result<(), Error>) {
        match self.pins.write_lines(word) {
            Ok(()) => {
                self.history = Ghost(self.history@.push(Signal::Present(word)));
                Ok(())
            },
            Err(_) => Err(Error::BusFault),
        }
    }

    fn release(&mut self) -> (r: Result<(), Error>) {
        match self.pins.set_input(true) {
            Ok(()) => {
                self.history = Ghost(self.history@.push(Signal::Release));
                Ok(())
            },
            Err(_) => Err(Error::BusFault),
        }
    }

    fn claim(&mut self) -> (r: Result<(), Error>) {
        match self.pins.set_input(false) {
            Ok(()) => {
                self.history = Ghost(self.history@.push(Signal::Claim));
                Ok(())
            },
            Err(_) => Err(Error::BusFault),
        }
    }

    fn sample(&mut self) -> (r: Result<u16, Error>) {
        match self.pins.read_lines() {
            Ok(word) => {
                self.history = Ghost(self.history@.push(Signal::Sample(word)));
                Ok(word)
            },
            Err(_) => Err(Error::BusFault),
        }
    }

    fn delay_us(&mut self, us: u32) {
        self.pins.delay_us(us);
        self.history = Ghost(self.history@.push(Signal::Wait(us)));
    }
}

/// Pins that can only be driven and read one by one: the data lines have numbers from 0,
/// for the least significant bit of a word, to 15.
pub trait SinglePins {
    /// Drives a control line high or low.
    fn set_line(&mut self, line: Line, high: bool) -> Result<(), Error>;

    /// Drives one data line high or low.
    fn set_data_line(&mut self, index: u8, high: bool) -> Result<(), Error>;

    /// Turns the data lines into inputs (`true`) or back into outputs.
    fn set_input(&mut self, input: bool) -> Result<(), Error>;

    /// Reads one data line.
    fn read_data_line(&mut self, index: u8) -> Result<bool, Error>;

    /// Waits for `us` microseconds.
    fn delay_us(&mut self, us: u32);
}

/// What was asked of the pins, and what came of it.
#[derive(Clone, Copy, Debug, PartialEq, Eq, Structural)]
pub enum LineEvent {
    /// A control line was to go high (`true`) or low, and did so (`true`) or could not
    /// be driven.
    Control(Line, bool, bool),
    /// The data line with this number was to go high (`true`) or low, and did so
    /// (`true`) or could not be driven.
    Driven(u8, bool, bool),
    /// The data lines were to become inputs (`true`) or outputs, and did so (`true`) or
    /// could not be turned.
    Turned(bool, bool),
    /// The data line with this number was read and was high (`true`) or low; `None`
    /// where it could not be read.
    Read(u8, Option<bool>),
    /// So many microseconds were let pass.
    Waited(u32),
}

/// Whether bit `index` of `word` is set.
pub open spec fn spec_bit_of(word: u16, index: int) -> bool {
    word & (1u16 << (index as u16)) != 0
}

/// The sixteen data lines driven with the bits of `word`, from line 0 up.
pub open spec fn levels_of(word: u16) -> Seq<LineEvent> {
    Seq::new(16, |i: int| LineEvent::Driven(i as u8, spec_bit_of(word, i), true))
}

/// The data lines driven with the bits of `word` from line 0 up to line `at`, which
/// could not be driven.
pub open spec fn refused_at(word: u16, at: int) -> Seq<LineEvent> {
    levels_of(word).take(at).push(LineEvent::Driven(at as u8, spec_bit_of(word, at), false))
}

/// The word that the first `count` data lines show when their levels are `levels`.
pub open spec fn word_of(levels: Seq<bool>, count: int) -> u16
    decreases count,
{
    if count <= 0 {
        0
    } else if levels[count - 1] {
        word_of(levels, count - 1) | (1u16 << ((count - 1) as u16))
    } else {
        word_of(levels, count - 1)
    }
}

/// The first `count` data lines read, from line 0 up, with the levels they had.
pub open spec fn levels_got(levels: Seq<bool>, count: int) -> Seq<LineEvent> {
    Seq::new(count as nat, |i: int| LineEvent::Read(i as u8, Some(levels[i])))
}

/// The data lines read from line 0 up to line `at`, which could not be read.
pub open spec fn unread_at(levels: Seq<bool>, at: int) -> Seq<LineEvent> {
    levels_got(levels, at).push(LineEvent::Read(at as u8, None))
}

/// Whether bit `index` of `word` is set.
pub fn bit_of(word: u16, index: u8) -> (high: bool)
    requires
        index < 16,
    ensures
        high == spec_bit_of(word, index as int),
{
    word & (1u16 << index) != 0
}

/// `word` with bit `index` set.
pub fn with_bit(word: u16, index: u8) -> (r: u16)
    requires
        index < 16,
    ensures
        r == word | (1u16 << (index as u16)),
{
    word | (1u16 << index)
}

/// Pins that take a word on the data lines bit by bit, for hardware that cannot drive
/// them all at once. `log` is all that was asked of the pins, in order, with what came
/// of it. Whether a pin can be driven or read is for the pins to say; whatever they
/// report as the reason, the failure is a `BusFault`.
pub struct BitByBit<P: SinglePins> {
    pub pins: P,
    pub log: Ghost<Seq<LineEvent>>,
}

impl<P: SinglePins> BitByBit<P> {
    pub fn new(pins: P) -> (b: Self)
        ensures
            b.pins == pins,
            b.log@ == Seq::<LineEvent>::empty(),
    {
        BitByBit { pins, log: Ghost(Seq::empty()) }
    }
}

impl<P: SinglePins> Pins for BitByBit<P> {
    /// Asks the pins to drive the control line, and says whether they did.
    fn set_line(&mut self, line: Line, high: bool) -> (r: Result<(), Error>)
        ensures
            final(self).log@ == old(self).log@.push(LineEvent::Control(line, high, r is Ok)),
            r is Err ==> r == Err::<(), Error>(Error::BusFault),
    {
        let done = self.pins.set_line(line, high);
        self.log = Ghost(self.log@.push(LineEvent::Control(line, high, done is Ok)));
        match done {
            Ok(()) => Ok(()),
            Err(_) => Err(Error::BusFault),
        }
    }

    /// Drives the data lines one after the other, from line 0 up, each with its bit of
    /// the word. The first line that cannot be driven ends this with a `BusFault`; the
    /// lines above it are not asked.
    fn write_lines(&mut self, word: u16) -> (r: Result<(), Error>)
        ensures
            r is Ok ==> final(self).log@ == old(self).log@ + levels_of(word),
            r is Err ==> r == Err::<(), Error>(Error::BusFault) && exists|at: int|
                0 <= at < 16 && final(self).log@ == old(self).log@ + #[trigger] refused_at(
                    word,
                    at,
                ),
    {
        let mut index: u8 = 0;
        assert(self.log@ =~= old(self).log@ + levels_of(word).take(0));
        while index < 16
            invariant
                index <= 16,
                self.log@ == old(self).log@ + levels_of(word).take(index as int),
            decreases 16 - index,
        {
            let high: bool = bit_of(word, index);
            let done = self.pins.set_data_line(index, high);
            self.log = Ghost(self.log@.push(LineEvent::Driven(index, high, done is Ok)));
            if done.is_err() {
                assert(self.log@ =~= old(self).log@ + refused_at(word, index as int));
                return Err(Error::BusFault);
            }
            assert(self.log@ =~= old(self).log@ + levels_of(word).take(index + 1));
            index += 1;
        }
        assert(levels_of(word).take(16) =~= levels_of(word));
        Ok(())
    }

    /// Asks the pins to turn the data lines round, and says whether they did.
    fn set_input(&mut self, input: bool) -> (r: Result<(), Error>)
        ensures
            final(self).log@ == old(self).log@.push(LineEvent::Turned(input, r is Ok)),
            r is Err ==> r == Err::<(), Error>(Error::BusFault),
    {
        let done = self.pins.set_input(input);
        self.log = Ghost(self.log@.push(LineEvent::Turned(input, done is Ok)));
        match done {
            Ok(()) => Ok(()),
            Err(_) => Err(Error::BusFault),
        }
    }

    /// Reads the data lines one after the other, from line 0 up, and puts the word
    /// together from their levels: line 0 gives the least significant bit. The first line
    /// that cannot be read ends this with a `BusFault`; the lines above it are not asked.
    fn read_lines(&mut self) -> (r: Result<u16, Error>)
        ensures
            r matches Ok(word) ==> exists|levels: Seq<bool>|
                levels.len() == 16 && word == word_of(levels, 16) && final(self).log@ == old(
                    self,
                ).log@ + #[trigger] levels_got(levels, 16),
            r is Err ==> r == Err::<u16, Error>(Error::BusFault) && exists|
                levels: Seq<bool>,
                at: int,
            |
                0 <= at < 16 && levels.len() == at && final(self).log@ == old(self).log@
                    + #[trigger] unread_at(levels, at),
    {
        let mut word: u16 = 0;
        let mut index: u8 = 0;
        let ghost levels = Seq::<bool>::empty();
        assert(self.log@ =~= old(self).log@ + levels_got(levels, 0));
        while index < 16
            invariant
                index <= 16,
                levels.len() == index,
                word == word_of(levels, index as int),
                self.log@ == old(self).log@ + levels_got(levels, index as int),
            decreases 16 - index,
        {
            let high: bool = match self.pins.read_data_line(index) {
                Ok(high) => high,
                Err(_) => {
                    self.log = Ghost(self.log@.push(LineEvent::Read(index, None)));
                    assert(self.log@ =~= old(self).log@ + unread_at(levels, index as int));
                    return Err(Error::BusFault);
                },
            };
            let ghost lower = levels;
            proof {
                levels = levels.push(high);
                lemma_word_of_prefix(lower, levels, index as int);
            }
            if high {
                word = with_bit(word, index);
            }
            self.log = Ghost(self.log@.push(LineEvent::Read(index, Some(high))));
            assert(self.log@ =~= old(self).log@ + levels_got(levels, index + 1));
            index += 1;
        }
        Ok(word)
    }

    /// Has the pins wait.
    fn delay_us(&mut self, us: u32)
        ensures
            final(self).log@ == old(self).log@.push(LineEvent::Waited(us)),
    {
        self.pins.delay_us(us);
        self.log = Ghost(self.log@.push(LineEvent::Waited(us)));
    }
}

/// The word of the first lines depends on their levels only.
proof fn lemma_word_of_prefix(a: Seq<bool>, b: Seq<bool>, count: int)
    requires
        0 <= count <= a.len(),
        count <= b.len(),
        forall|i: int| 0 <= i < count ==> a[i] == b[i],
    ensures
        word_of(a, count) == word_of(b, count),
    decreases count,
{
    if count > 0 {
        lemma_word_of_prefix(a, b, count - 1);
    }
}

} // verus!
