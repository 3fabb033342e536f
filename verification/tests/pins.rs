use lcd_term::bus::{BusInterface, Selector};
use lcd_term::chip::Line;
use lcd_term::error::Error;
use lcd_term::pins::{bit_of, with_bit, BitByBit, PinBus, Pins, SinglePins};

// sixteen data lines and four control lines that remember their levels
struct Wires {
    data: [bool; 16],
    control: [bool; 4],
    input: bool,
    steps: Vec<(u8, bool)>,
    waited: u32,
    broken: Option<u8>,
    stuck: bool,
    reads: Vec<u8>,
}

impl Wires {
    fn new() -> Self {
        Wires {
            data: [false; 16],
            control: [true; 4],
            input: false,
            steps: Vec::new(),
            waited: 0,
            broken: None,
            stuck: false,
            reads: Vec::new(),
        }
    }
}

impl SinglePins for Wires {
    fn set_line(&mut self, line: Line, high: bool) -> Result<(), Error> {
        if self.stuck {
            // the reason that the pins give is their own
            return Err(Error::StreamUnderflow);
        }
        let index = match line {
            Line::DataCommand => 0,
            Line::WriteStrobe => 1,
            Line::ReadStrobe => 2,
            Line::ChipSelect => 3,
        };
        self.control[index] = high;
        Ok(())
    }

    fn set_data_line(&mut self, index: u8, high: bool) -> Result<(), Error> {
        if self.broken == Some(index) {
            return Err(Error::BoundsError);
        }
        self.data[index as usize] = high;
        self.steps.push((index, high));
        Ok(())
    }

    fn set_input(&mut self, input: bool) -> Result<(), Error> {
        if self.stuck {
            return Err(Error::BoundsError);
        }
        self.input = input;
        Ok(())
    }

    fn read_data_line(&mut self, index: u8) -> Result<bool, Error> {
        if self.broken == Some(index) {
            return Err(Error::BufferTooSmall);
        }
        self.reads.push(index);
        Ok(self.data[index as usize])
    }

    fn delay_us(&mut self, us: u32) {
        self.waited += us;
    }
}

#[test]
fn bits_of_a_word() {
    assert!(bit_of(0x8001, 0));
    assert!(!bit_of(0x8001, 1));
    assert!(bit_of(0x8001, 15));
    assert_eq!(with_bit(0, 15), 0x8000);
    assert_eq!(with_bit(0x00F0, 0), 0x00F1);
    assert_eq!(with_bit(0x00F0, 4), 0x00F0);
}

#[test]
fn a_word_goes_out_bit_by_bit() {
    let mut pins = BitByBit::new(Wires::new());
    assert_eq!(pins.write_lines(0xA5C3), Ok(()));
    let expected: Vec<(u8, bool)> = (0..16).map(|i| (i, 0xA5C3u16 >> i & 1 == 1)).collect();
    assert_eq!(pins.pins.steps, expected);
    assert_eq!(pins.read_lines(), Ok(0xA5C3));
    assert_eq!(pins.write_lines(0), Ok(()));
    assert_eq!(pins.read_lines(), Ok(0));
    assert_eq!(pins.write_lines(0xFFFF), Ok(()));
    assert_eq!(pins.read_lines(), Ok(0xFFFF));
}

#[test]
fn a_broken_line_is_a_fault() {
    let mut wires = Wires::new();
    wires.broken = Some(9);
    let mut pins = BitByBit::new(wires);
    // whatever the pins give as the reason, the failure is a fault of the bus
    assert_eq!(pins.write_lines(0xFFFF), Err(Error::BusFault));
    // the lines below the broken one were driven, those above it were not asked
    let expected: Vec<(u8, bool)> = (0..9).map(|i| (i, true)).collect();
    assert_eq!(pins.pins.steps, expected);
    assert_eq!(pins.read_lines(), Err(Error::BusFault));
    assert_eq!(pins.pins.reads, vec![0, 1, 2, 3, 4, 5, 6, 7, 8]);
}

#[test]
fn control_lines_and_direction_go_to_the_pins() {
    let mut pins = BitByBit::new(Wires::new());
    assert_eq!(pins.set_line(Line::ChipSelect, false), Ok(()));
    assert_eq!(pins.set_line(Line::DataCommand, false), Ok(()));
    assert_eq!(pins.pins.control, [false, true, true, false]);
    assert_eq!(pins.set_line(Line::DataCommand, true), Ok(()));
    assert_eq!(pins.set_line(Line::ReadStrobe, false), Ok(()));
    assert_eq!(pins.pins.control, [true, true, false, false]);
    assert_eq!(pins.set_input(true), Ok(()));
    assert!(pins.pins.input);
    assert_eq!(pins.set_input(false), Ok(()));
    assert!(!pins.pins.input);
    pins.delay_us(7);
    pins.delay_us(5);
    assert_eq!(pins.pins.waited, 12);
}

#[test]
fn pins_that_are_stuck_are_a_fault() {
    let mut wires = Wires::new();
    wires.stuck = true;
    let mut pins = BitByBit::new(wires);
    assert_eq!(pins.set_line(Line::WriteStrobe, false), Err(Error::BusFault));
    assert_eq!(pins.set_input(true), Err(Error::BusFault));
    assert_eq!(pins.pins.control, [true; 4]);
    assert!(!pins.pins.input);
}

#[test]
fn a_word_is_put_together_from_the_lowest_line_up() {
    for word in [0x0001u16, 0x8000, 0x00FF, 0x1234, 0xFFFE] {
        let mut wires = Wires::new();
        for i in 0..16 {
            wires.data[i] = word >> i & 1 == 1;
        }
        let mut pins = BitByBit::new(wires);
        assert_eq!(pins.read_lines(), Ok(word));
        assert_eq!(pins.pins.reads, (0..16).collect::<Vec<u8>>());
    }
}

#[test]
fn a_write_cycle_on_single_pins() {
    let mut iface = BusInterface::new(PinBus::new(BitByBit::new(Wires::new())));
    assert_eq!(iface.write(Selector::Command, 0x002C), Ok(()));
    let wires = &iface.bus.pins.pins;
    // command: the select line is low; both strobes are back up
    assert_eq!(wires.control, [false, true, true, true]);
    assert_eq!(wires.waited, 1);
    let word: u16 = (0..16).map(|i| (wires.data[i] as u16) << i).sum();
    assert_eq!(word, 0x002C);
    assert_eq!(iface.write(Selector::Data, 0x1234), Ok(()));
    assert!(iface.bus.pins.pins.control[0]);
    assert_eq!(iface.read(), Ok(0x1234));
    assert!(!iface.bus.pins.pins.input);
}
