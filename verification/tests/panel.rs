use lcd_term::controller::Ssd1963;
use lcd_term::display::Display;
use lcd_term::error::Error;
use lcd_term::framebuffer::Framebuffer;
use lcd_term::geometry::Span;
use lcd_term::protocol::Screen;
use lcd_term::sim::SimBus;
use lcd_term::term::font::ThisFont;
use lcd_term::term::vertical_scroller::{CopyScroller, Scroller};
use lcd_term::term::Term;

fn screen(width: u16, height: u16) -> Screen {
    Screen {
        width,
        height,
        h_front_porch: 2,
        h_back_porch: 2,
        h_pulse: 1,
        v_front_porch: 1,
        v_back_porch: 1,
        v_pulse: 1,
        refresh_hz: 60,
    }
}

fn panel(width: u16, height: u16) -> Ssd1963<SimBus> {
    let mut lcd = Ssd1963::new(screen(width, height), SimBus::new(0));
    lcd.init().unwrap();
    lcd
}

fn memory(lcd: &Ssd1963<SimBus>) -> Vec<u16> {
    let mut all = Vec::new();
    for y in 0..lcd.height() {
        for x in 0..lcd.width() {
            all.push(lcd.iface.bus.pixel(x, y).unwrap());
        }
    }
    all
}

fn snapshot(fb: &Framebuffer) -> Vec<u16> {
    let mut all = Vec::new();
    for y in 0..fb.height() {
        for x in 0..fb.width() {
            all.push(fb.pixel(x, y).unwrap());
        }
    }
    all
}

#[test]
fn the_panel_scrolls_as_the_surface_in_memory_does() {
    for (dx, dy, capacity) in [(0i16, -2i16, 10usize), (0, 3, 7), (1, 2, 25), (-1, 0, 5), (0, 1, 5)] {
        let mut lcd = panel(8, 10);
        let mut fb = Framebuffer::new(8, 10, 0).unwrap();
        let all: Vec<u16> = (0..80).collect();
        lcd.fill_area(Span::full(), Span::full(), &all).unwrap();
        fb.fill_area(Span::full(), Span::full(), &all).unwrap();
        let mut first = vec![0u16; capacity];
        let mut second = vec![0u16; capacity];
        let on_panel = CopyScroller::new(&mut first).scroll_area(
            &mut lcd,
            Span::new(1, 6),
            Span::new(2, 7),
            dx,
            dy,
        );
        let in_memory = CopyScroller::new(&mut second).scroll_area(
            &mut fb,
            Span::new(1, 6),
            Span::new(2, 7),
            dx,
            dy,
        );
        assert_eq!(on_panel, Ok(()));
        assert_eq!(in_memory, Ok(()));
        assert_eq!(memory(&lcd), snapshot(&fb));
        assert_ne!(memory(&lcd), all);
    }
}

#[test]
fn scroll_with_a_short_buffer_says_nothing() {
    let mut lcd = panel(8, 10);
    let before = lcd.iface.bus.signal_count();
    let mut buffer = [0u16; 7];
    let r = CopyScroller::new(&mut buffer).scroll_area(&mut lcd, Span::full(), Span::from(2), 0, -2);
    assert_eq!(r, Err(Error::BufferTooSmall));
    assert_eq!(lcd.iface.bus.signal_count(), before);
}

#[test]
fn scroll_out_of_the_panel_says_nothing() {
    let mut lcd = panel(8, 10);
    let before = lcd.iface.bus.signal_count();
    let mut buffer = [0u16; 64];
    let r = CopyScroller::new(&mut buffer).scroll_area(&mut lcd, Span::full(), Span::from(2), 0, -3);
    assert_eq!(r, Err(Error::BoundsError));
    assert_eq!(lcd.iface.bus.signal_count(), before);
}

#[test]
fn text_on_the_panel_is_text_on_the_surface_in_memory() {
    let mut lcd = panel(40, 24);
    let mut fb = Framebuffer::new(40, 24, 0).unwrap();
    let mut first = [0u16; 80];
    let mut second = [0u16; 80];
    {
        let term = Term::new(&mut lcd, &ThisFont, CopyScroller::new(&mut first));
        let mut term = term.dimensions(Span::full(), Span::from(8));
        term.write("Hello,\nworld!\n");
        term.write("0123456789");
    }
    {
        let term = Term::new(&mut fb, &ThisFont, CopyScroller::new(&mut second));
        let mut term = term.dimensions(Span::full(), Span::from(8));
        term.write("Hello,\nworld!\n");
        term.write("0123456789");
    }
    assert_eq!(memory(&lcd), snapshot(&fb));
    assert!(memory(&lcd).iter().any(|p| *p == 0xFFFF));
}
