use lcd_term::bus::{BusInterface, Selector};
use lcd_term::chip::{Line, Signal};
use lcd_term::controller::{init_plan, Ssd1963, State};
use lcd_term::display::Display;
use lcd_term::error::Error;
use lcd_term::geometry::{Bounds, Span};
use lcd_term::pins::{PinBus, Pins};
use lcd_term::protocol::{nth_byte, BusWord, Screen};
use lcd_term::sim::SimBus;

fn small_screen() -> Screen {
    Screen {
        width: 12,
        height: 9,
        h_front_porch: 2,
        h_back_porch: 2,
        h_pulse: 1,
        v_front_porch: 1,
        v_back_porch: 1,
        v_pulse: 1,
        refresh_hz: 60,
    }
}

fn ready(limit: usize) -> Ssd1963<SimBus> {
    let mut lcd = Ssd1963::new(small_screen(), SimBus::new(limit));
    assert_eq!(lcd.init(), Ok(()));
    assert_eq!(lcd.state, State::Ready);
    lcd
}

// a bus that fails when its budget of signals is used up
struct Flaky {
    budget: u32,
}

impl Flaky {
    fn spend(&mut self) -> Result<(), Error> {
        if self.budget == 0 {
            Err(Error::BusFault)
        } else {
            self.budget -= 1;
            Ok(())
        }
    }
}

impl Pins for Flaky {
    fn set_line(&mut self, _line: Line, _high: bool) -> Result<(), Error> {
        self.spend()
    }

    fn write_lines(&mut self, _word: u16) -> Result<(), Error> {
        self.spend()
    }

    fn set_input(&mut self, _input: bool) -> Result<(), Error> {
        self.spend()
    }

    fn read_lines(&mut self) -> Result<u16, Error> {
        self.spend().map(|_| 0x5A5A)
    }

    fn delay_us(&mut self, _us: u32) {}
}

#[test]
fn nth_byte_counts_from_the_low_end() {
    assert_eq!(nth_byte(0x12345678, 0), 0x78);
    assert_eq!(nth_byte(0x12345678, 1), 0x56);
    assert_eq!(nth_byte(0x12345678, 2), 0x34);
    assert_eq!(nth_byte(0x12345678, 3), 0x12);
    assert_eq!(nth_byte(0x12345678, 4), 0);
    assert_eq!(nth_byte(0xFFFFFFFF, 255), 0);
    assert_eq!(nth_byte(799, 1), 3);
    assert_eq!(nth_byte(799, 0), 0x1F);
}

#[test]
fn pixel_clock_is_a_fraction_of_the_pll_clock() {
    let screen = Screen::lcd_800x480();
    // 928 clocks by 525 rows, 60 times a second, over 120 MHz, times 2^20
    assert_eq!(screen.clock(), 255433);
    assert!(screen.usable());
    assert!(!Screen { width: 0, ..screen }.usable());
    assert!(!Screen { height: 2049, ..screen }.usable());
    assert!(!Screen { h_pulse: 0, ..screen }.usable());
}

#[test]
fn a_write_cycle_on_the_lines() {
    let mut iface = BusInterface::new(SimBus::new(16));
    assert_eq!(iface.write(Selector::Command, 0x2C), Ok(()));
    assert_eq!(iface.write(Selector::Data, 0xBEEF), Ok(()));
    assert_eq!(
        iface.bus.recorded().to_vec(),
        vec![
            Signal::Drive(Line::DataCommand, false),
            Signal::Present(0x2C),
            Signal::Drive(Line::WriteStrobe, false),
            Signal::Wait(1),
            Signal::Drive(Line::WriteStrobe, true),
            Signal::Drive(Line::DataCommand, true),
            Signal::Present(0xBEEF),
            Signal::Drive(Line::WriteStrobe, false),
            Signal::Wait(1),
            Signal::Drive(Line::WriteStrobe, true),
        ]
    );
    assert_eq!(iface.bus.signal_count(), 10);
}

#[test]
fn a_read_cycle_on_the_lines() {
    let mut iface = BusInterface::new(SimBus::new(16));
    assert_eq!(iface.read(), Ok(0));
    assert_eq!(
        iface.bus.recorded().to_vec(),
        vec![
            Signal::Release,
            Signal::Drive(Line::ReadStrobe, false),
            Signal::Wait(1),
            Signal::Sample(0),
            Signal::Drive(Line::ReadStrobe, true),
            Signal::Claim,
        ]
    );
}

#[test]
fn the_record_keeps_the_first_signals_only() {
    let mut iface = BusInterface::new(SimBus::new(3));
    assert_eq!(iface.write(Selector::Data, 7), Ok(()));
    assert_eq!(iface.bus.recorded().len(), 3);
    assert_eq!(iface.bus.signal_count(), 5);
}

#[test]
fn init_says_the_whole_plan() {
    let screen = Screen::lcd_800x480();
    let plan = init_plan(&screen);
    assert_eq!(plan.len(), 58);
    assert_eq!(plan[0], BusWord::Command(0xE2));
    assert_eq!(plan[12], BusWord::Command(0xE6));
    // the clock setting, highest byte first
    assert_eq!(&plan[13..16], &[BusWord::Data(0x03), BusWord::Data(0xE5), BusWord::Data(0xC9)]);
    // the mode command carries width and height, less one, high byte first
    assert_eq!(plan[16], BusWord::Command(0xB0));
    assert_eq!(
        &plan[19..23],
        &[BusWord::Data(0x03), BusWord::Data(0x1F), BusWord::Data(0x01), BusWord::Data(0xDF)]
    );
    // the period of a row, less one: 927
    assert_eq!(plan[24], BusWord::Command(0xB4));
    assert_eq!(&plan[25..27], &[BusWord::Data(0x03), BusWord::Data(0x9F)]);
    assert_eq!(plan[57], BusWord::Command(0x29));

    let mut lcd = Ssd1963::new(screen, SimBus::new(8));
    assert_eq!(lcd.state, State::Uninitialized);
    assert_eq!(lcd.init(), Ok(()));
    assert_eq!(lcd.state, State::Ready);
    assert_eq!(
        lcd.iface.bus.recorded()[..4].to_vec(),
        vec![
            Signal::Drive(Line::ChipSelect, true),
            Signal::Drive(Line::WriteStrobe, true),
            Signal::Drive(Line::ReadStrobe, true),
            Signal::Drive(Line::ChipSelect, false),
        ]
    );
    let pauses = plan.iter().filter(|w| matches!(w, BusWord::Pause(_))).count() as u64;
    assert_eq!(pauses, 3);
    assert_eq!(lcd.iface.bus.signal_count(), 4 + (58 - pauses) * 5 + pauses);
    assert_eq!(lcd.iface.bus.panel(), (800, 480));
    assert_eq!(lcd.iface.bus.pixel(799, 479), Some(0));
    assert_eq!(lcd.iface.bus.pixel(800, 0), None);
}

#[test]
fn init_refuses_a_panel_that_cannot_be_driven() {
    let screen = Screen { width: 4000, ..Screen::lcd_800x480() };
    let mut lcd = Ssd1963::new(screen, SimBus::new(8));
    assert_eq!(lcd.init(), Err(Error::BoundsError));
    assert_eq!(lcd.state, State::Uninitialized);
    assert_eq!(lcd.iface.bus.signal_count(), 0);
}

#[test]
fn nothing_is_said_before_init() {
    let mut lcd = Ssd1963::new(small_screen(), SimBus::new(8));
    let b = Bounds { x_start: 0, x_end: 1, y_start: 0, y_end: 1 };
    let mut buffer = [5u16; 4];
    assert_eq!(lcd.fill(&b, 1), Err(Error::BusFault));
    assert_eq!(lcd.fill_stream(&b, &[1, 2, 3, 4]), Err(Error::BusFault));
    assert_eq!(lcd.read_stream(&b, &mut buffer), Err(Error::BusFault));
    assert_eq!(lcd.set_window(0, 1, 0, 1), Err(Error::BusFault));
    assert_eq!(buffer, [5u16; 4]);
    assert_eq!(lcd.iface.bus.signal_count(), 0);
}

#[test]
fn set_window_sends_both_ranges() {
    let mut lcd = ready(0);
    let before = lcd.iface.bus.signal_count();
    assert_eq!(lcd.set_window(2, 5, 1, 3), Ok(()));
    assert_eq!(lcd.iface.bus.signal_count(), before + 10 * 5);
    assert_eq!(lcd.set_window(2, 12, 1, 3), Err(Error::BoundsError));
    assert_eq!(lcd.set_window(5, 2, 1, 3), Err(Error::BoundsError));
    assert_eq!(lcd.iface.bus.signal_count(), before + 10 * 5);
}

#[test]
fn fill_beyond_the_panel_says_nothing() {
    let mut lcd = ready(0);
    let before = lcd.iface.bus.signal_count();
    let too_wide = Bounds { x_start: 0, x_end: 12, y_start: 0, y_end: 8 };
    let too_tall = Bounds { x_start: 0, x_end: 11, y_start: 3, y_end: 9 };
    let empty = Bounds { x_start: 4, x_end: 3, y_start: 0, y_end: 8 };
    for b in [too_wide, too_tall, empty] {
        assert_eq!(lcd.fill(&b, 0xFFFF), Err(Error::BoundsError));
        assert_eq!(lcd.fill_stream(&b, &[1; 200]), Err(Error::BoundsError));
        let mut buffer = [0u16; 4];
        assert_eq!(lcd.read_stream(&b, &mut buffer), Err(Error::BoundsError));
    }
    assert_eq!(lcd.fill_area_color(Span::new(0, 13), Span::full(), 1), Err(Error::BoundsError));
    assert_eq!(lcd.iface.bus.signal_count(), before);
    assert_eq!(lcd.state, State::Ready);
    assert_eq!(lcd.iface.bus.pixel(0, 0), Some(0));
}

#[test]
fn fill_paints_the_window_in_the_frame_memory() {
    let mut lcd = ready(0);
    let before = lcd.iface.bus.signal_count();
    let b = Bounds { x_start: 3, x_end: 5, y_start: 2, y_end: 3 };
    assert_eq!(lcd.fill(&b, 0xF800), Ok(()));
    // two window commands with four bytes each, the start of the writing, six pixels
    assert_eq!(lcd.iface.bus.signal_count(), before + (10 + 1 + 6) * 5);
    for y in 0..9 {
        for x in 0..12 {
            let inside = (3..=5).contains(&x) && (2..=3).contains(&y);
            assert_eq!(lcd.iface.bus.pixel(x, y), Some(if inside { 0xF800 } else { 0 }));
        }
    }
}

#[test]
fn what_is_written_is_read_back() {
    let mut lcd = ready(0);
    let b = Bounds { x_start: 1, x_end: 7, y_start: 4, y_end: 8 };
    let written: Vec<u16> = (0..35).map(|k| 1000 + 3 * k).collect();
    assert_eq!(lcd.fill_stream(&b, &written), Ok(()));
    let mut read = [0u16; 35];
    assert_eq!(lcd.read_stream(&b, &mut read), Ok(()));
    assert_eq!(read.to_vec(), written);
    assert_eq!(lcd.iface.bus.pixel(1, 4), Some(1000));
    assert_eq!(lcd.iface.bus.pixel(7, 8), Some(1000 + 3 * 34));
    assert_eq!(lcd.iface.bus.pixel(0, 4), Some(0));
    // through the ranges of the surface as well
    let mut part = [9u16; 4];
    assert_eq!(lcd.read_area(Span::new(1, 3), Span::inclusive(4, 5), &mut part), Ok(()));
    assert_eq!(part, [1000, 1003, 1021, 1024]);
}

#[test]
fn a_short_sequence_is_written_and_reported() {
    let mut lcd = ready(0);
    let b = Bounds { x_start: 0, x_end: 2, y_start: 0, y_end: 1 };
    assert_eq!(lcd.fill_stream(&b, &[1, 2, 3, 4]), Err(Error::StreamUnderflow));
    assert_eq!(lcd.state, State::Ready);
    assert_eq!(lcd.iface.bus.pixel(0, 0), Some(1));
    assert_eq!(lcd.iface.bus.pixel(2, 0), Some(3));
    assert_eq!(lcd.iface.bus.pixel(0, 1), Some(4));
    assert_eq!(lcd.iface.bus.pixel(1, 1), Some(0));
}

#[test]
fn a_fault_of_the_bus_ends_the_talk() {
    let mut lcd = Ssd1963::new(small_screen(), PinBus::new(Flaky { budget: 100 }));
    assert_eq!(lcd.init(), Err(Error::BusFault));
    assert_eq!(lcd.state, State::Uninitialized);
    let b = Bounds { x_start: 0, x_end: 1, y_start: 0, y_end: 1 };
    assert_eq!(lcd.fill(&b, 1), Err(Error::BusFault));
    assert_eq!(lcd.iface.bus.pins.budget, 0);

    // enough for the chip to come up and for a part of what follows
    let mut lcd = Ssd1963::new(small_screen(), PinBus::new(Flaky { budget: 4 + 55 * 4 + 30 }));
    assert_eq!(lcd.init(), Ok(()));
    assert_eq!(lcd.state, State::Ready);
    assert_eq!(lcd.fill(&b, 1), Err(Error::BusFault));
    assert_eq!(lcd.state, State::Uninitialized);
    assert_eq!(lcd.fill_area_color(Span::full(), Span::full(), 1), Err(Error::BusFault));
    let mut iface = BusInterface::new(PinBus::new(Flaky { budget: 3 }));
    assert_eq!(iface.write(Selector::Data, 1), Err(Error::BusFault));
    assert_eq!(iface.read(), Err(Error::BusFault));
}

#[test]
fn pins_see_what_the_bus_is_told() {
    let mut iface = BusInterface::new(PinBus::new(Flaky { budget: 9 }));
    assert_eq!(iface.write(Selector::Data, 1), Ok(()));
    assert_eq!(iface.bus.pins.budget, 5);
    assert_eq!(iface.read(), Ok(0x5A5A));
    assert_eq!(iface.bus.pins.budget, 0);
}
