use lcd_term::display::Display;
use lcd_term::error::Error;
use lcd_term::framebuffer::Framebuffer;
use lcd_term::geometry::Span;

fn snapshot(fb: &Framebuffer) -> Vec<u16> {
    let mut all = Vec::new();
    for y in 0..fb.height() {
        for x in 0..fb.width() {
            all.push(fb.pixel(x, y).unwrap());
        }
    }
    all
}

#[test]
fn a_new_surface_has_one_colour() {
    let fb = Framebuffer::new(5, 3, 0x1234).unwrap();
    assert_eq!(fb.width(), 5);
    assert_eq!(fb.height(), 3);
    assert_eq!(snapshot(&fb), vec![0x1234; 15]);
    assert_eq!(fb.pixel(5, 0), None);
    assert_eq!(fb.pixel(0, 3), None);
}

#[test]
fn a_surface_without_pixels_is_refused() {
    assert!(matches!(Framebuffer::new(0, 3, 0), Err(Error::BoundsError)));
    assert!(matches!(Framebuffer::new(3, 0, 0), Err(Error::BoundsError)));
}

#[test]
fn fill_writes_a_window_row_by_row() {
    let mut fb = Framebuffer::new(4, 3, 0).unwrap();
    assert_eq!(fb.fill_area(Span::new(1, 3), Span::new(1, 3), &[1, 2, 3, 4]), Ok(()));
    assert_eq!(snapshot(&fb), vec![0, 0, 0, 0, 0, 1, 2, 0, 0, 3, 4, 0]);
}

#[test]
fn fill_ignores_pixels_beyond_the_window() {
    let mut fb = Framebuffer::new(4, 3, 0).unwrap();
    assert_eq!(fb.fill_area(Span::new(0, 2), Span::new(0, 1), &[1, 2, 3, 4]), Ok(()));
    assert_eq!(snapshot(&fb), vec![1, 2, 0, 0, 0, 0, 0, 0, 0, 0, 0, 0]);
}

#[test]
fn fill_reports_a_sequence_that_ends_early() {
    let mut fb = Framebuffer::new(4, 3, 0).unwrap();
    assert_eq!(
        fb.fill_area(Span::new(1, 3), Span::new(0, 3), &[7, 8, 9]),
        Err(Error::StreamUnderflow)
    );
    // what was there has been written
    assert_eq!(snapshot(&fb), vec![0, 7, 8, 0, 0, 9, 0, 0, 0, 0, 0, 0]);
}

#[test]
fn fill_outside_the_surface_changes_nothing() {
    let mut fb = Framebuffer::new(4, 3, 5).unwrap();
    assert_eq!(fb.fill_area(Span::new(0, 5), Span::full(), &[1; 20]), Err(Error::BoundsError));
    assert_eq!(fb.fill_area_color(Span::full(), Span::inclusive(0, 3), 9), Err(Error::BoundsError));
    assert_eq!(fb.fill_area_color(Span::new(2, 2), Span::full(), 9), Err(Error::BoundsError));
    assert_eq!(snapshot(&fb), vec![5; 12]);
}

#[test]
fn fill_color_paints_the_window() {
    let mut fb = Framebuffer::new(4, 3, 0).unwrap();
    assert_eq!(fb.fill_area_color(Span::from(2), Span::to(2), 6), Ok(()));
    assert_eq!(snapshot(&fb), vec![0, 0, 6, 6, 0, 0, 6, 6, 0, 0, 0, 0]);
}

#[test]
fn reading_gives_back_what_was_written() {
    let mut fb = Framebuffer::new(7, 5, 0).unwrap();
    let written: Vec<u16> = (100..112).collect();
    assert_eq!(fb.fill_area(Span::new(2, 6), Span::new(1, 4), &written), Ok(()));
    let mut read = [0u16; 12];
    assert_eq!(fb.read_area(Span::new(2, 6), Span::new(1, 4), &mut read), Ok(()));
    assert_eq!(read.to_vec(), written);
}

#[test]
fn reading_fills_the_front_of_a_long_buffer() {
    let mut fb = Framebuffer::new(3, 2, 0).unwrap();
    assert_eq!(fb.fill_area(Span::full(), Span::full(), &[1, 2, 3, 4, 5, 6]), Ok(()));
    let mut read = [9u16; 6];
    assert_eq!(fb.read_area(Span::from(1), Span::full(), &mut read), Ok(()));
    assert_eq!(read, [2, 3, 5, 6, 9, 9]);
}

#[test]
fn reading_stops_at_the_end_of_a_short_buffer() {
    let mut fb = Framebuffer::new(3, 2, 0).unwrap();
    assert_eq!(fb.fill_area(Span::full(), Span::full(), &[1, 2, 3, 4, 5, 6]), Ok(()));
    let mut read = [9u16; 4];
    assert_eq!(fb.read_area(Span::full(), Span::full(), &mut read), Ok(()));
    assert_eq!(read, [1, 2, 3, 4]);
    let before = snapshot(&fb);
    assert_eq!(fb.read_area(Span::new(0, 4), Span::full(), &mut read), Err(Error::BoundsError));
    assert_eq!(read, [1, 2, 3, 4]);
    assert_eq!(snapshot(&fb), before);
}
