use vstd::prelude::*;
use crate::chip::{
    after_signals, chip_of, handed_out, idle, latched, lemma_after_concat, lemma_after_push,
    shown, Chip, Line, Signal,
};
use crate::error::Error;

verus! {

/// What a word on the data lines is.
#[derive(Clone, Copy, Debug, PartialEq, Eq, Structural)]
pub enum Selector {
    Command,
    Data,
}

/// Microseconds for which a strobe stays low, so that the chip is sure to see it.
pub const STROBE_US: u32 = 1;

/// The lines of the bus, as the hardware offers them: each control line can be driven
/// high or low, the data lines can be driven with a word at once, turned round and read,
/// and time can be let pass.
///
/// `signals` is all that has happened on the bus since power came on. Driving a line can
/// fail, which is a defect of the hardware; the signal has then not happened.
pub trait Bus: Sized {
    /// What every operation needs and keeps.
    spec fn inv(&self) -> bool;

    /// What has happened on the bus so far.
    spec fn signals(&self) -> Seq<Signal>;

    /// A bus of this kind never fails, and reads from the data lines what the chip
    /// shows on them.
    spec fn dependable() -> bool;

    fn drive(&mut self, line: Line, high: bool) -> (r: Result<(), Error>)
        requires
            old(self).inv(),
        ensures
            final(self).inv(),
            r is Ok ==> final(self).signals() == old(self).signals().push(
                Signal::Drive(line, high),
            ),
            r is Err ==> r == Err::<(), Error>(Error::BusFault) && final(self).signals() == old(
                self,
            ).signals(),
            Self::dependable() ==> r is Ok,
    ;

    fn present(&mut self, word: u16) -> (r: Result<(), Error>)
        requires
            old(self).inv(),
        ensures
            final(self).inv(),
            r is Ok ==> final(self).signals() == old(self).signals().push(Signal::Present(word)),
            r is Err ==> r == Err::<(), Error>(Error::BusFault) && final(self).signals() == old(
                self,
            ).signals(),
            Self::dependable() ==> r is Ok,
    ;

    fn release(&mut self) -> (r: Result<(), Error>)
        requires
            old(self).inv(),
        ensures
            final(self).inv(),
            r is Ok ==> final(self).signals() == old(self).signals().push(Signal::Release),
            r is Err ==> r == Err::<(), Error>(Error::BusFault) && final(self).signals() == old(
                self,
            ).signals(),
            Self::dependable() ==> r is Ok,
    ;

    fn claim(&mut self) -> (r: Result<(), Error>)
        requires
            old(self).inv(),
        ensures
            final(self).inv(),
            r is Ok ==> final(self).signals() == old(self).signals().push(Signal::Claim),
            r is Err ==> r == Err::<(), Error>(Error::BusFault) && final(self).signals() == old(
                self,
            ).signals(),
            Self::dependable() ==> r is Ok,
    ;

    fn sample(&mut self) -> (r: Result<u16, Error>)
        requires
            old(self).inv(),
        ensures
            final(self).inv(),
            r matches Ok(word) ==> final(self).signals() == old(self).signals().push(
                Signal::Sample(word),
            ),
            r is Err ==> r == Err::<u16, Error>(Error::BusFault) && final(self).signals() == old(
                self,
            ).signals(),
            Self::dependable() ==> r == Ok::<u16, Error>(shown(chip_of(old(self).signals()))),
    ;

    fn delay_us(&mut self, us: u32)
        requires
            old(self).inv(),
        ensures
            final(self).inv(),
            final(self).signals() == old(self).signals().push(Signal::Wait(us)),
    ;
}

/// The signals that hand a word to the chip: the select line says what the word is, the
/// word goes onto the data lines, and the write strobe goes low, stays low for
/// `STROBE_US` microseconds and goes high again.
pub open spec fn write_cycle(selector: Selector, word: u16) -> Seq<Signal> {
    seq![
        Signal::Drive(Line::DataCommand, selector == Selector::Data),
        Signal::Present(word),
        Signal::Drive(Line::WriteStrobe, false),
        Signal::Wait(STROBE_US),
        Signal::Drive(Line::WriteStrobe, true),
    ]
}

/// The signals that fetch a word from the chip: the data lines are turned round, the
/// read strobe goes low and stays low for `STROBE_US` microseconds, the lines are read,
/// the strobe goes high again and the data lines are turned back.
pub open spec fn read_cycle(word: u16) -> Seq<Signal> {
    seq![
        Signal::Release,
        Signal::Drive(Line::ReadStrobe, false),
        Signal::Wait(STROBE_US),
        Signal::Sample(word),
        Signal::Drive(Line::ReadStrobe, true),
        Signal::Claim,
    ]
}

/// The word that an idle chip hands out when it is read.
pub open spec fn fetched(c: Chip) -> u16 {
    shown(Chip { read: false, ..c })
}

/// An idle chip takes the word of a write cycle, and is idle again.
pub proof fn lemma_write_cycle(c: Chip, selector: Selector, word: u16)
    requires
        idle(c),
    ensures
        after_signals(c, write_cycle(selector, word)) == latched(
            Chip { data: selector == Selector::Data, lines: word, ..c },
        ),
        idle(after_signals(c, write_cycle(selector, word))),
{
    let s = write_cycle(selector, word);
    let s1 = seq![s[0]];
    let s2 = s1.push(s[1]);
    let s3 = s2.push(s[2]);
    let s4 = s3.push(s[3]);
    assert(s =~= s4.push(s[4]));
    assert(Seq::<Signal>::empty().push(s[0]) =~= s1);
    lemma_after_push(c, Seq::empty(), s[0]);
    assert(after_signals(c, Seq::empty()) == c);
    lemma_after_push(c, s1, s[1]);
    lemma_after_push(c, s2, s[2]);
    lemma_after_push(c, s3, s[3]);
    lemma_after_push(c, s4, s[4]);
}

/// An idle chip hands out a pixel in a read cycle, and is idle again.
pub proof fn lemma_read_cycle(c: Chip, word: u16)
    requires
        idle(c),
    ensures
        after_signals(c, read_cycle(word)) == handed_out(c),
        idle(after_signals(c, read_cycle(word))),
        after_signals(c, seq![Signal::Release, Signal::Drive(Line::ReadStrobe, false),
            Signal::Wait(STROBE_US)]) == (Chip { read: false, ..c }),
{
    let s = read_cycle(word);
    let s1 = seq![s[0]];
    let s2 = s1.push(s[1]);
    let s3 = s2.push(s[2]);
    let s4 = s3.push(s[3]);
    let s5 = s4.push(s[4]);
    assert(s =~= s5.push(s[5]));
    assert(Seq::<Signal>::empty().push(s[0]) =~= s1);
    assert(s3 =~= seq![Signal::Release, Signal::Drive(Line::ReadStrobe, false),
        Signal::Wait(STROBE_US)]);
    lemma_after_push(c, Seq::empty(), s[0]);
    assert(after_signals(c, Seq::empty()) == c);
    lemma_after_push(c, s1, s[1]);
    lemma_after_push(c, s2, s[2]);
    lemma_after_push(c, s3, s[3]);
    lemma_after_push(c, s4, s[4]);
    lemma_after_push(c, s5, s[5]);
}

/// The bus has seen the beginning of a cycle and not its end.
pub open spec fn cut_short(before: Seq<Signal>, cycle: Seq<Signal>, after: Seq<Signal>) -> bool {
    exists|n: int| 0 <= n < cycle.len() && after == before + #[trigger] cycle.take(n)
}

/// Turns words for the chip into signals on the lines of a bus.
pub struct BusInterface<B: Bus> {
    pub bus: B,
}

impl<B: Bus> BusInterface<B> {
    pub fn new(bus: B) -> (i: Self)
        ensures
            i.bus == bus,
    {
        BusInterface { bus }
    }

    /// What has happened on the bus so far.
    pub open spec fn signals(&self) -> Seq<Signal> {
        self.bus.signals()
    }

    /// What every operation needs and keeps.
    pub open spec fn inv(&self) -> bool {
        self.bus.inv()
    }

    /// Hands `word` to the chip, as a command or as data.
    ///
    /// The bus sees exactly one write cycle; a fault cuts the cycle short.
    pub fn write(&mut self, selector: Selector, word: u16) -> (r: Result<(), Error>)
        requires
            old(self).inv(),
        ensures
            final(self).inv(),
            r is Ok ==> final(self).signals() == old(self).signals() + write_cycle(selector, word),
            r is Err ==> r == Err::<(), Error>(Error::BusFault) && cut_short(
                old(self).signals(),
                write_cycle(selector, word),
                final(self).signals(),
            ),
            B::dependable() ==> r is Ok,
    {
        let data: bool = match selector {
            Selector::Command => false,
            Selector::Data => true,
        };
        let ghost before = self.signals();
        let ghost cycle = write_cycle(selector, word);
        if self.bus.drive(Line::DataCommand, data).is_err() {
            assert(self.signals() =~= before + cycle.take(0));
            return Err(Error::BusFault);
        }
        if self.bus.present(word).is_err() {
            assert(self.signals() =~= before + cycle.take(1));
            return Err(Error::BusFault);
        }
        if self.bus.drive(Line::WriteStrobe, false).is_err() {
            assert(self.signals() =~= before + cycle.take(2));
            return Err(Error::BusFault);
        }
        self.bus.delay_us(STROBE_US);
        if self.bus.drive(Line::WriteStrobe, true).is_err() {
            assert(self.signals() =~= before + cycle.take(4));
            return Err(Error::BusFault);
        }
        assert(self.signals() =~= before + cycle);
        Ok(())
    }

    /// Fetches a word from the chip.
    ///
    /// The bus sees exactly one read cycle; a fault cuts the cycle short. On a
    /// dependable bus the word is the one that the chip, idle before, hands out.
    pub fn read(&mut self) -> (r: Result<u16, Error>)
        requires
            old(self).inv(),
        ensures
            final(self).inv(),
            r matches Ok(word) ==> final(self).signals() == old(self).signals() + read_cycle(word),
            r is Err ==> r == Err::<u16, Error>(Error::BusFault) && exists|word: u16|
                cut_short(old(self).signals(), #[trigger] read_cycle(word), final(self).signals()),
            B::dependable() ==> r is Ok,
            B::dependable() && idle(chip_of(old(self).signals())) ==> r == Ok::<u16, Error>(
                fetched(chip_of(old(self).signals())),
            ),
    {
        let ghost before = self.signals();
        if self.bus.release().is_err() {
            assert(self.signals() =~= before + read_cycle(0).take(0));
            assert(cut_short(before, read_cycle(0), self.signals()));
            return Err(Error::BusFault);
        }
        if self.bus.drive(Line::ReadStrobe, false).is_err() {
            assert(self.signals() =~= before + read_cycle(0).take(1));
            assert(cut_short(before, read_cycle(0), self.signals()));
            return Err(Error::BusFault);
        }
        self.bus.delay_us(STROBE_US);
        proof {
            let chip = chip_of(before);
            if idle(chip) {
                lemma_read_cycle(chip, 0);
                let lead = seq![
                    Signal::Release,
                    Signal::Drive(Line::ReadStrobe, false),
                    Signal::Wait(STROBE_US),
                ];
                assert(self.signals() =~= before + lead);
                lemma_after_concat(crate::chip::power_on(), before, lead);
            }
        }
        let word: u16 = match self.bus.sample() {
            Ok(word) => word,
            Err(_) => {
                assert(self.signals() =~= before + read_cycle(0).take(3));
                assert(cut_short(before, read_cycle(0), self.signals()));
                return Err(Error::BusFault);
            },
        };
        if self.bus.drive(Line::ReadStrobe, true).is_err() {
            assert(self.signals() =~= before + read_cycle(word).take(4));
            assert(cut_short(before, read_cycle(word), self.signals()));
            return Err(Error::BusFault);
        }
        if self.bus.claim().is_err() {
            assert(self.signals() =~= before + read_cycle(word).take(5));
            assert(cut_short(before, read_cycle(word), self.signals()));
            return Err(Error::BusFault);
        }
        assert(self.signals() =~= before + read_cycle(word));
        Ok(word)
    }

    /// Lets `us` microseconds pass.
    pub fn pause(&mut self, us: u32)
        requires
            old(self).inv(),
        ensures
            final(self).inv(),
            final(self).signals() == old(self).signals().push(Signal::Wait(us)),
    {
        self.bus.delay_us(us);
    }

    /// Selects the chip, or lets it go.
    pub fn select(&mut self, on: bool) -> (r: Result<(), Error>)
        requires
            old(self).inv(),
        ensures
            final(self).inv(),
            r is Ok ==> final(self).signals() == old(self).signals().push(
                Signal::Drive(Line::ChipSelect, !on),
            ),
            r is Err ==> r == Err::<(), Error>(Error::BusFault) && final(self).signals() == old(
                self,
            ).signals(),
            B::dependable() ==> r is Ok,
    {
        self.bus.drive(Line::ChipSelect, !on)
    }
}

} // verus!
