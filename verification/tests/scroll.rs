use lcd_term::display::Display;
use lcd_term::error::Error;
use lcd_term::framebuffer::Framebuffer;
use lcd_term::geometry::Span;
use lcd_term::term::vertical_scroller::{chunk_plan, ChunkPlan, CopyScroller, Scroller};

fn numbered(width: u16, height: u16) -> Framebuffer {
    let mut fb = Framebuffer::new(width, height, 0).unwrap();
    let all: Vec<u16> = (0..width * height).collect();
    fb.fill_area(Span::full(), Span::full(), &all).unwrap();
    fb
}

fn snapshot(fb: &Framebuffer) -> Vec<u16> {
    let mut all = Vec::new();
    for y in 0..fb.height() {
        for x in 0..fb.width() {
            all.push(fb.pixel(x, y).unwrap());
        }
    }
    all
}

// the same move made at once, through a copy of the whole surface
fn moved_at_once(before: &[u16], width: u16, x: (u16, u16), y: (u16, u16), dx: i32, dy: i32) -> Vec<u16> {
    let mut after = before.to_vec();
    for row in y.0..=y.1 {
        for col in x.0..=x.1 {
            let to_col = (col as i32 + dx) as usize;
            let to_row = (row as i32 + dy) as usize;
            after[to_row * width as usize + to_col] = before[row as usize * width as usize + col as usize];
        }
    }
    after
}

#[test]
fn plan_cuts_the_rows_into_passes() {
    assert_eq!(chunk_plan(64, 32, 8), Ok(ChunkPlan { chunk: 2, whole: 4, rest: 0 }));
    assert_eq!(chunk_plan(100, 32, 8), Ok(ChunkPlan { chunk: 3, whole: 2, rest: 2 }));
    assert_eq!(chunk_plan(32, 32, 8), Ok(ChunkPlan { chunk: 1, whole: 8, rest: 0 }));
    assert_eq!(chunk_plan(8000, 32, 8), Ok(ChunkPlan { chunk: 8, whole: 1, rest: 0 }));
    assert_eq!(chunk_plan(31, 32, 8), Err(Error::BufferTooSmall));
    assert_eq!(chunk_plan(0, 1, 1), Err(Error::BufferTooSmall));
}

#[test]
fn passes_add_up_to_the_height() {
    for height in 1..40u16 {
        for width in 1..6u16 {
            for capacity in (width as usize)..60 {
                let plan = chunk_plan(capacity, width, height).unwrap();
                assert_eq!(plan.whole * plan.chunk + plan.rest, height);
                assert!(plan.rest < plan.chunk);
                let passes = plan.whole + if plan.rest > 0 { 1 } else { 0 };
                let rows_of_a_pass = (capacity / width as usize) as u16;
                assert_eq!(passes, (height + rows_of_a_pass - 1) / rows_of_a_pass);
            }
        }
    }
}

#[test]
fn scroll_up_moves_the_rows() {
    let mut fb = numbered(4, 6);
    let before = snapshot(&fb);
    let mut buffer = [0u16; 8];
    let mut scroller = CopyScroller::new(&mut buffer);
    assert_eq!(scroller.scroll_area(&mut fb, Span::full(), Span::from(2), 0, -2), Ok(()));
    assert_eq!(snapshot(&fb), moved_at_once(&before, 4, (0, 3), (2, 5), 0, -2));
    assert_eq!(fb.pixel(0, 0), Some(8));
    assert_eq!(fb.pixel(3, 3), Some(23));
    assert_eq!(fb.pixel(0, 4), Some(16));
}

#[test]
fn scroll_down_over_itself_is_a_plain_copy() {
    for capacity in [5usize, 7, 10, 11, 24, 25, 60] {
        for dy in 1..=4i16 {
            let mut fb = numbered(5, 12);
            let before = snapshot(&fb);
            let mut buffer = vec![0u16; capacity];
            let mut scroller = CopyScroller::new(&mut buffer);
            assert_eq!(
                scroller.scroll_area(&mut fb, Span::full(), Span::new(1, 8), 0, dy),
                Ok(())
            );
            assert_eq!(
                snapshot(&fb),
                moved_at_once(&before, 5, (0, 4), (1, 7), 0, dy as i32),
                "capacity {} dy {}",
                capacity,
                dy
            );
        }
    }
}

#[test]
fn scroll_up_over_itself_is_a_plain_copy() {
    for capacity in [3usize, 4, 6, 8, 9, 21, 40] {
        for dy in 1..=3i16 {
            let mut fb = numbered(6, 11);
            let before = snapshot(&fb);
            let mut buffer = vec![0u16; capacity];
            let mut scroller = CopyScroller::new(&mut buffer);
            assert_eq!(
                scroller.scroll_area(&mut fb, Span::new(2, 5), Span::new(3, 10), -1, -dy),
                Ok(())
            );
            assert_eq!(
                snapshot(&fb),
                moved_at_once(&before, 6, (2, 4), (3, 9), -1, -(dy as i32))
            );
        }
    }
}

#[test]
fn scroll_sideways_is_a_plain_copy() {
    for dx in [-2i16, -1, 1, 2] {
        let mut fb = numbered(8, 5);
        let before = snapshot(&fb);
        let mut buffer = [0u16; 9];
        let mut scroller = CopyScroller::new(&mut buffer);
        assert_eq!(
            scroller.scroll_area(&mut fb, Span::new(2, 6), Span::full(), dx, 0),
            Ok(())
        );
        assert_eq!(snapshot(&fb), moved_at_once(&before, 8, (2, 5), (0, 4), dx as i32, 0));
    }
}

#[test]
fn scroll_with_a_buffer_shorter_than_a_row_does_nothing() {
    let mut fb = numbered(8, 5);
    let before = snapshot(&fb);
    let mut buffer = [0u16; 7];
    let mut scroller = CopyScroller::new(&mut buffer);
    assert_eq!(
        scroller.scroll_area(&mut fb, Span::full(), Span::from(1), 0, -1),
        Err(Error::BufferTooSmall)
    );
    assert_eq!(snapshot(&fb), before);
    assert_eq!(buffer, [0u16; 7]);
}

#[test]
fn scroll_out_of_the_surface_does_nothing() {
    let mut fb = numbered(8, 5);
    let before = snapshot(&fb);
    let mut buffer = [0u16; 64];
    let mut scroller = CopyScroller::new(&mut buffer);
    assert_eq!(
        scroller.scroll_area(&mut fb, Span::full(), Span::from(1), 0, -2),
        Err(Error::BoundsError)
    );
    assert_eq!(
        scroller.scroll_area(&mut fb, Span::full(), Span::full(), 1, 0),
        Err(Error::BoundsError)
    );
    assert_eq!(
        scroller.scroll_area(&mut fb, Span::new(0, 9), Span::full(), 0, 0),
        Err(Error::BoundsError)
    );
    assert_eq!(
        scroller.scroll_area(&mut fb, Span::new(3, 3), Span::full(), 0, 0),
        Err(Error::BoundsError)
    );
    assert_eq!(snapshot(&fb), before);
    assert_eq!(buffer, [0u16; 64]);
}
