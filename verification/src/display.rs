use vstd::prelude::*;
use vstd::arithmetic::div_mod::{lemma_fundamental_div_mod, lemma_fundamental_div_mod_converse};
use crate::error::Error;
use crate::geometry::{Bounds, Span};

verus! {

/// The whole surface of a panel of `cols` by `rows` pixels.
pub open spec fn extent(cols: nat, rows: nat) -> Bounds {
    Bounds { x_start: 0, x_end: (cols - 1) as u16, y_start: 0, y_end: (rows - 1) as u16 }
}

/// Place of the pixel `(x, y)` in the order in which a window is written and read: row
/// after row, and from the first column to the last within a row.
pub open spec fn window_index(b: Bounds, x: int, y: int) -> int {
    (y - b.y_start) * b.spec_width() + (x - b.x_start)
}

/// The surface `pixels`, `cols` pixels wide, after `data` has been written into the
/// window `b`: the pixel at place `k` of the window takes `data[k]`, and where `data`
/// ends the window keeps what it held.
pub open spec fn paint(pixels: Seq<u16>, cols: int, b: Bounds, data: Seq<u16>) -> Seq<u16> {
    Seq::new(
        pixels.len(),
        |i: int|
            if b.contains(i % cols, i / cols) && window_index(b, i % cols, i / cols) < data.len() {
                data[window_index(b, i % cols, i / cols)]
            } else {
                pixels[i]
            },
    )
}

/// What the window `b` of the surface holds, in window order.
pub open spec fn region(pixels: Seq<u16>, cols: int, b: Bounds) -> Seq<u16> {
    Seq::new(
        b.spec_area() as nat,
        |k: int| pixels[(b.y_start + k / b.spec_width()) * cols + b.x_start + k % b.spec_width()],
    )
}

/// The surface `pixels` in which every pixel of the window `dest` holds what the surface
/// `source` holds `dx` columns to the left and `dy` rows above.
pub open spec fn shifted(
    pixels: Seq<u16>,
    source: Seq<u16>,
    cols: int,
    dest: Bounds,
    dx: int,
    dy: int,
) -> Seq<u16> {
    Seq::new(
        pixels.len(),
        |i: int|
            if dest.contains(i % cols, i / cols) {
                source[(i / cols - dy) * cols + (i % cols - dx)]
            } else {
                pixels[i]
            },
    )
}

/// A buffer after `data` has been stored at its front: as much of `data` as the buffer
/// takes, then what the buffer held.
pub open spec fn overlay(buffer: Seq<u16>, data: Seq<u16>) -> Seq<u16> {
    Seq::new(
        buffer.len(),
        |k: int|
            if k < data.len() {
                data[k]
            } else {
                buffer[k]
            },
    )
}

/// `count` pixels of one colour.
pub open spec fn solid(count: int, color: u16) -> Seq<u16> {
    Seq::new(count as nat, |k: int| color)
}

/// A pixel of the grid has one place in the row-after-row order, and the place gives the
/// pixel back.
pub proof fn lemma_grid_index(cols: int, rows: int, x: int, y: int)
    requires
        0 <= x < cols,
        0 <= y < rows,
    ensures
        0 <= y * cols + x < cols * rows,
        (y * cols + x) % cols == x,
        (y * cols + x) / cols == y,
{
    assert(0 <= y * cols + x < cols * rows) by (nonlinear_arith)
        requires
            0 <= x < cols,
            0 <= y < rows,
    ;
    lemma_fundamental_div_mod_converse(y * cols + x, cols, y, x);
}

/// A place of the row-after-row order is the place of one pixel of the grid.
pub proof fn lemma_grid_point(cols: int, rows: int, i: int)
    requires
        0 < cols,
        0 <= i < cols * rows,
    ensures
        0 <= i % cols < cols,
        0 <= i / cols < rows,
        i == (i / cols) * cols + i % cols,
{
    lemma_fundamental_div_mod(i, cols);
    assert(cols * (i / cols) == (i / cols) * cols) by (nonlinear_arith);
    assert(0 <= i / cols < rows) by (nonlinear_arith)
        requires
            0 < cols,
            0 <= i < cols * rows,
            i == (i / cols) * cols + i % cols,
            0 <= i % cols < cols,
    ;
}

/// The pixel at place `k` of a window, and the place of that pixel on the surface.
pub proof fn lemma_window_cell(cols: int, rows: int, b: Bounds, k: int)
    requires
        b.wf(),
        b.x_end < cols,
        b.y_end < rows,
        0 <= k < b.spec_area(),
    ensures
        b.contains(b.x_start + k % b.spec_width(), b.y_start + k / b.spec_width()),
        window_index(b, b.x_start + k % b.spec_width(), b.y_start + k / b.spec_width()) == k,
        0 <= (b.y_start + k / b.spec_width()) * cols + b.x_start + k % b.spec_width() < cols * rows,
        ((b.y_start + k / b.spec_width()) * cols + b.x_start + k % b.spec_width()) % cols
            == b.x_start + k % b.spec_width(),
        ((b.y_start + k / b.spec_width()) * cols + b.x_start + k % b.spec_width()) / cols
            == b.y_start + k / b.spec_width(),
{
    let w = b.spec_width();
    lemma_grid_point(w, b.spec_height(), k);
    lemma_grid_index(cols, rows, b.x_start + k % w, b.y_start + k / w);
}

/// A pixel of a window has a place in window order, and only that pixel has it.
pub proof fn lemma_window_index(b: Bounds, x: int, y: int)
    requires
        b.wf(),
        b.contains(x, y),
    ensures
        0 <= window_index(b, x, y) < b.spec_area(),
        window_index(b, x, y) % b.spec_width() == x - b.x_start,
        window_index(b, x, y) / b.spec_width() == y - b.y_start,
{
    lemma_grid_index(b.spec_width(), b.spec_height(), x - b.x_start, y - b.y_start);
}

/// Reading a window back gives what was written into it: the first pixels of the data,
/// as many as the window holds.
pub proof fn lemma_region_of_paint(pixels: Seq<u16>, cols: int, rows: int, b: Bounds, data: Seq<u16>)
    requires
        pixels.len() == cols * rows,
        b.wf(),
        b.x_end < cols,
        b.y_end < rows,
        data.len() >= b.spec_area(),
    ensures
        region(paint(pixels, cols, b, data), cols, b) == data.take(b.spec_area()),
{
    let w = b.spec_width();
    let painted = paint(pixels, cols, b, data);
    assert forall|k: int| 0 <= k < b.spec_area() implies #[trigger] region(painted, cols, b)[k]
        == data[k] by {
        lemma_window_cell(cols, rows, b, k);
    }
    assert(region(painted, cols, b) =~= data.take(b.spec_area()));
}

/// Writing into a window changes no pixel outside it.
pub proof fn lemma_paint_outside(
    pixels: Seq<u16>,
    cols: int,
    rows: int,
    b: Bounds,
    data: Seq<u16>,
    x: int,
    y: int,
)
    requires
        pixels.len() == cols * rows,
        0 <= x < cols,
        0 <= y < rows,
        !b.contains(x, y),
    ensures
        0 <= y * cols + x < pixels.len(),
        paint(pixels, cols, b, data)[y * cols + x] == pixels[y * cols + x],
{
    lemma_grid_index(cols, rows, x, y);
}

/// Writing one more pixel: after the first `k` pixels of `data` are in the window, storing
/// `data[k]` at place `k` of the window gives the window with `k + 1` pixels of `data`.
pub proof fn lemma_paint_step(
    pixels: Seq<u16>,
    cols: int,
    rows: int,
    b: Bounds,
    data: Seq<u16>,
    k: int,
)
    requires
        pixels.len() == cols * rows,
        b.wf(),
        b.x_end < cols,
        b.y_end < rows,
        0 <= k < b.spec_area(),
        k < data.len(),
    ensures
        0 <= (b.y_start + k / b.spec_width()) * cols + b.x_start + k % b.spec_width() < cols * rows,
        paint(pixels, cols, b, data.take(k)).update(
            (b.y_start + k / b.spec_width()) * cols + b.x_start + k % b.spec_width(),
            data[k],
        ) == paint(pixels, cols, b, data.take(k + 1)),
{
    let w = b.spec_width();
    let at = (b.y_start + k / w) * cols + b.x_start + k % w;
    lemma_window_cell(cols, rows, b, k);
    let left = paint(pixels, cols, b, data.take(k)).update(at, data[k]);
    let right = paint(pixels, cols, b, data.take(k + 1));
    assert forall|i: int| 0 <= i < pixels.len() implies left[i] == right[i] by {
        lemma_grid_point(cols, rows, i);
        let x = i % cols;
        let y = i / cols;
        if b.contains(x, y) {
            lemma_window_index(b, x, y);
            if window_index(b, x, y) == k {
                assert(x == b.x_start + k % w);
                assert(y == b.y_start + k / w);
                assert(i == at);
            }
        }
    }
    assert(left =~= right);
}

/// Pixels beyond the end of a window are not written: only the first `area` pixels of
/// the data count.
pub proof fn lemma_paint_prefix(pixels: Seq<u16>, cols: int, b: Bounds, data: Seq<u16>, n: int)
    requires
        b.wf(),
        0 < cols,
        0 <= n <= data.len(),
        n >= b.spec_area() || n == data.len(),
    ensures
        paint(pixels, cols, b, data.take(n)) == paint(pixels, cols, b, data),
{
    let left = paint(pixels, cols, b, data.take(n));
    let right = paint(pixels, cols, b, data);
    assert forall|i: int| 0 <= i < pixels.len() implies left[i] == right[i] by {
        let x = i % cols;
        let y = i / cols;
        if b.contains(x, y) {
            lemma_window_index(b, x, y);
        }
    }
    assert(left =~= right);
}

/// Copying a window as a whole, by reading it and writing what was read into the window
/// `dx` columns to the right and `dy` rows below, gives every pixel of the new window
/// what the pixel `(dx, dy)` before it held.
pub proof fn lemma_copy_is_shift(
    pixels: Seq<u16>,
    source: Seq<u16>,
    cols: int,
    rows: int,
    from: Bounds,
    dx: int,
    dy: int,
)
    requires
        pixels.len() == cols * rows,
        source.len() == cols * rows,
        from.wf(),
        from.x_end < cols,
        from.y_end < rows,
        from.can_move(dx, dy),
        from.moved(dx, dy).x_end < cols,
        from.moved(dx, dy).y_end < rows,
    ensures
        paint(pixels, cols, from.moved(dx, dy), region(source, cols, from)) == shifted(
            pixels,
            source,
            cols,
            from.moved(dx, dy),
            dx,
            dy,
        ),
{
    let to = from.moved(dx, dy);
    let data = region(source, cols, from);
    let left = paint(pixels, cols, to, data);
    let right = shifted(pixels, source, cols, to, dx, dy);
    assert forall|i: int| 0 <= i < pixels.len() implies left[i] == right[i] by {
        lemma_grid_point(cols, rows, i);
        let x = i % cols;
        let y = i / cols;
        if to.contains(x, y) {
            lemma_window_index(to, x, y);
            let k = window_index(to, x, y);
            assert(to.spec_width() == from.spec_width());
            assert(to.spec_area() == from.spec_area());
            assert(data[k] == source[(from.y_start + k / from.spec_width()) * cols + from.x_start
                + k % from.spec_width()]);
        }
    }
    assert(left =~= right);
}

/// A rectangular surface of 16-bit pixels that can be written and read by windows.
///
/// `pixels` is what the surface shows, row after row. A rectangle is asked for as two
/// ranges, which are resolved against the whole surface. Pixels enter and leave a window
/// in window order.
pub trait Display: Sized {
    /// What every operation needs and keeps.
    spec fn inv(&self) -> bool;

    /// Pixels in a row.
    spec fn cols(&self) -> nat;

    /// Number of rows.
    spec fn rows(&self) -> nat;

    /// The pixels, row after row.
    spec fn pixels(&self) -> Seq<u16>;

    /// Surfaces of this kind never report a fault of the bus, and hand back on reading
    /// what they hold.
    spec fn dependable() -> bool;

    proof fn lemma_inv(&self)
        requires
            self.inv(),
        ensures
            1 <= self.cols() <= u16::MAX,
            1 <= self.rows() <= u16::MAX,
            self.pixels().len() == self.cols() * self.rows(),
    ;

    fn width(&self) -> (w: u16)
        requires
            self.inv(),
        ensures
            w == self.cols(),
    ;

    fn height(&self) -> (h: u16)
        requires
            self.inv(),
        ensures
            h == self.rows(),
    ;

    /// Gives every pixel of the requested rectangle the colour `color`.
    fn fill_area_color(&mut self, x: Span, y: Span, color: u16) -> (r: Result<(), Error>)
        requires
            old(self).inv(),
        ensures
            final(self).inv(),
            final(self).cols() == old(self).cols(),
            final(self).rows() == old(self).rows(),
            match Bounds::clipped(x, y, extent(old(self).cols(), old(self).rows())) {
                None => r == Err::<(), Error>(Error::BoundsError) && *final(self) == *old(self),
                Some(b) => {
                    &&& r is Ok || r == Err::<(), Error>(Error::BusFault)
                    &&& r is Ok ==> final(self).pixels() == paint(
                        old(self).pixels(),
                        old(self).cols() as int,
                        b,
                        solid(b.spec_area(), color),
                    )
                    &&& Self::dependable() ==> r is Ok
                },
            },
    ;

    /// Writes `pixels` into the requested rectangle, as many as it holds. Where they end
    /// before the rectangle is full, those that are there are written and the call fails
    /// with `StreamUnderflow`.
    fn fill_area(&mut self, x: Span, y: Span, pixels: &[u16]) -> (r: Result<(), Error>)
        requires
            old(self).inv(),
        ensures
            final(self).inv(),
            final(self).cols() == old(self).cols(),
            final(self).rows() == old(self).rows(),
            match Bounds::clipped(x, y, extent(old(self).cols(), old(self).rows())) {
                None => r == Err::<(), Error>(Error::BoundsError) && *final(self) == *old(self),
                Some(b) => {
                    &&& r is Ok || r == Err::<(), Error>(Error::StreamUnderflow) || r == Err::<
                        (),
                        Error,
                    >(Error::BusFault)
                    &&& r is Ok ==> pixels@.len() >= b.spec_area()
                    &&& r == Err::<(), Error>(Error::StreamUnderflow) ==> pixels@.len()
                        < b.spec_area()
                    &&& !(r == Err::<(), Error>(Error::BusFault)) ==> final(self).pixels() == paint(
                        old(self).pixels(),
                        old(self).cols() as int,
                        b,
                        pixels@,
                    )
                    &&& Self::dependable() ==> !(r == Err::<(), Error>(Error::BusFault))
                },
            },
    ;

    /// Reads the requested rectangle into the front of `buffer`, as far as the buffer
    /// reaches. The surface keeps its pixels.
    fn read_area(&mut self, x: Span, y: Span, buffer: &mut [u16]) -> (r: Result<(), Error>)
        requires
            old(self).inv(),
        ensures
            final(self).inv(),
            final(self).cols() == old(self).cols(),
            final(self).rows() == old(self).rows(),
            !(r == Err::<(), Error>(Error::BusFault)) ==> final(self).pixels() == old(
                self,
            ).pixels(),
            final(buffer)@.len() == old(buffer)@.len(),
            match Bounds::clipped(x, y, extent(old(self).cols(), old(self).rows())) {
                None => {
                    &&& r == Err::<(), Error>(Error::BoundsError)
                    &&& *final(self) == *old(self)
                    &&& final(buffer)@ == old(buffer)@
                },
                Some(b) => {
                    &&& r is Ok || r == Err::<(), Error>(Error::BusFault)
                    &&& Self::dependable() ==> r is Ok && final(buffer)@ == overlay(
                        old(buffer)@,
                        region(old(self).pixels(), old(self).cols() as int, b),
                    )
                },
            },
    ;
}

} // verus!
