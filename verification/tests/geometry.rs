use lcd_term::error::Error;
use lcd_term::geometry::{Bounds, Limit, Span};

fn screen() -> Bounds {
    Bounds { x_start: 0, x_end: 799, y_start: 0, y_end: 479 }
}

#[test]
fn clip_resolves_open_ranges_against_the_maximum() {
    let b = Bounds::clip(Span::full(), Span::from(8), &screen()).unwrap();
    assert_eq!(b, Bounds { x_start: 0, x_end: 799, y_start: 8, y_end: 479 });
    let b = Bounds::clip(Span::to(100), Span::full(), &screen()).unwrap();
    assert_eq!(b, Bounds { x_start: 0, x_end: 99, y_start: 0, y_end: 479 });
}

#[test]
fn clip_takes_half_open_and_closed_ranges() {
    let b = Bounds::clip(Span::new(10, 20), Span::inclusive(30, 40), &screen()).unwrap();
    assert_eq!(b, Bounds { x_start: 10, x_end: 19, y_start: 30, y_end: 40 });
    assert_eq!(b.width(), 10);
    assert_eq!(b.height(), 11);
    assert_eq!(b.area(), 110);
}

#[test]
fn clip_with_an_excluded_start() {
    let x = Span { start: Limit::Excluded(4), end: Limit::Included(9) };
    let b = Bounds::clip(x, Span::full(), &screen()).unwrap();
    assert_eq!((b.x_start, b.x_end), (5, 9));
}

#[test]
fn clip_refuses_an_empty_request() {
    assert_eq!(Bounds::clip(Span::new(5, 5), Span::full(), &screen()), Err(Error::BoundsError));
    assert_eq!(Bounds::clip(Span::to(0), Span::full(), &screen()), Err(Error::BoundsError));
    assert_eq!(Bounds::clip(Span::full(), Span::inclusive(9, 8), &screen()), Err(Error::BoundsError));
}

#[test]
fn clip_refuses_what_reaches_outside() {
    assert_eq!(Bounds::clip(Span::new(0, 801), Span::full(), &screen()), Err(Error::BoundsError));
    assert_eq!(Bounds::clip(Span::full(), Span::inclusive(0, 480), &screen()), Err(Error::BoundsError));
    assert_eq!(Bounds::clip(Span::new(0, 800), Span::new(0, 480), &screen()), Ok(screen()));
    let inner = Bounds { x_start: 10, x_end: 20, y_start: 10, y_end: 20 };
    assert_eq!(Bounds::clip(Span::from(9), Span::full(), &inner), Err(Error::BoundsError));
}

#[test]
fn clip_stays_inside_the_maximum() {
    let max = Bounds { x_start: 3, x_end: 12, y_start: 5, y_end: 9 };
    for xs in 0..16u16 {
        for xe in 0..16u16 {
            match Bounds::clip(Span::inclusive(xs, xe), Span::full(), &max) {
                Ok(b) => {
                    assert!(max.x_start <= b.x_start && b.x_start <= b.x_end && b.x_end <= max.x_end);
                    assert_eq!((b.y_start, b.y_end), (5, 9));
                    assert_eq!((b.x_start, b.x_end), (xs, xe));
                }
                Err(e) => {
                    assert_eq!(e, Error::BoundsError);
                    assert!(xs > xe || xs < 3 || xe > 12);
                }
            }
        }
    }
}

#[test]
fn move_by_shifts_both_edges() {
    let mut b = Bounds { x_start: 10, x_end: 19, y_start: 30, y_end: 40 };
    b.move_by(5, -30);
    assert_eq!(b, Bounds { x_start: 15, x_end: 24, y_start: 0, y_end: 10 });
}

#[test]
fn move_within_checks_the_result() {
    let b = Bounds { x_start: 0, x_end: 9, y_start: 8, y_end: 15 };
    assert_eq!(
        b.move_within(0, -8, &screen()),
        Ok(Bounds { x_start: 0, x_end: 9, y_start: 0, y_end: 7 })
    );
    assert_eq!(b.move_within(0, -9, &screen()), Err(Error::BoundsError));
    assert_eq!(b.move_within(791, 0, &screen()), Err(Error::BoundsError));
    assert_eq!(
        b.move_within(790, 464, &screen()),
        Ok(Bounds { x_start: 790, x_end: 799, y_start: 472, y_end: 479 })
    );
}

#[test]
fn set_width_and_height_keep_the_start_edge() {
    let mut b = Bounds { x_start: 10, x_end: 19, y_start: 30, y_end: 40 };
    assert_eq!(b.set_width(3), Ok(()));
    assert_eq!(b.set_height(8), Ok(()));
    assert_eq!(b, Bounds { x_start: 10, x_end: 12, y_start: 30, y_end: 37 });
    assert_eq!(b.set_width(0), Err(Error::BoundsError));
    assert_eq!(b.set_height(0), Err(Error::BoundsError));
    assert_eq!(b.set_width(65535), Err(Error::BoundsError));
    assert_eq!(b, Bounds { x_start: 10, x_end: 12, y_start: 30, y_end: 37 });
}

#[test]
fn band_carves_rows() {
    let b = Bounds { x_start: 10, x_end: 19, y_start: 30, y_end: 40 };
    assert_eq!(b.band(2, 3), Bounds { x_start: 10, x_end: 19, y_start: 32, y_end: 34 });
    assert_eq!(b.band(0, 11), b);
}

#[test]
fn ranges_of_a_rectangle_give_it_back() {
    let b = Bounds { x_start: 10, x_end: 19, y_start: 30, y_end: 40 };
    assert_eq!(Bounds::clip(b.range_horiz(), b.range_vert(), &screen()), Ok(b));
}
