use vstd::prelude::*;
use crate::display::{
    extent, lemma_copy_is_shift, lemma_grid_index, lemma_grid_point, lemma_paint_prefix, overlay,
    paint, region, shifted, Display,
};
use crate::error::Error;
use crate::geometry::{lemma_clip_own_ranges, Bounds, Span};

verus! {

/// Rows that one pass of a scroll moves: as many whole rows of `width` pixels as a buffer
/// of `capacity` pixels holds, and one row at the least.
pub open spec fn chunk_height(capacity: int, width: int) -> int {
    if capacity / width >= 1 {
        capacity / width
    } else {
        1
    }
}

/// The heights of the passes that move `height` rows, `chunk` rows at a time: the whole
/// passes first, then one pass for the rows that are left, if any are.
pub open spec fn chunk_heights(height: int, chunk: int) -> Seq<int> {
    let whole = Seq::new((height / chunk) as nat, |i: int| chunk);
    if height % chunk == 0 {
        whole
    } else {
        whole.push(height % chunk)
    }
}

/// The sum of a sequence of heights.
pub open spec fn total(heights: Seq<int>) -> int
    decreases heights.len(),
{
    if heights.len() == 0 {
        0
    } else {
        total(heights.drop_last()) + heights.last()
    }
}

proof fn lemma_total_of_equal(count: nat, chunk: int)
    ensures
        total(Seq::new(count, |i: int| chunk)) == count * chunk,
    decreases count,
{
    let all = Seq::new(count, |i: int| chunk);
    if count > 0 {
        assert(all.drop_last() =~= Seq::new((count - 1) as nat, |i: int| chunk));
        lemma_total_of_equal((count - 1) as nat, chunk);
        assert(count * chunk == (count - 1) * chunk + chunk) by (nonlinear_arith);
        assert(total(all) == total(all.drop_last()) + all.last());
    } else {
        assert(total(all) == 0);
        assert(count * chunk == 0) by (nonlinear_arith)
            requires
                count == 0,
        ;
    }
}

/// The passes of a scroll move every row once: their heights add up to the height of the
/// region, and there are as many passes as the height divided by the rows of one pass,
/// rounded up.
pub proof fn lemma_chunks_cover(height: int, chunk: int)
    requires
        0 <= height,
        1 <= chunk,
    ensures
        total(chunk_heights(height, chunk)) == height,
        chunk_heights(height, chunk).len() == (height + chunk - 1) / chunk,
        forall|i: int|
            0 <= i < chunk_heights(height, chunk).len() ==> 1 <= #[trigger] chunk_heights(
                height,
                chunk,
            )[i] <= chunk,
{
    let whole = Seq::new((height / chunk) as nat, |i: int| chunk);
    lemma_total_of_equal((height / chunk) as nat, chunk);
    vstd::arithmetic::div_mod::lemma_fundamental_div_mod(height, chunk);
    assert(chunk * (height / chunk) == (height / chunk) * chunk) by (nonlinear_arith);
    let q = height / chunk;
    assert((q + 1) * chunk == q * chunk + chunk) by (nonlinear_arith);
    if height % chunk != 0 {
        assert(whole.push(height % chunk).drop_last() =~= whole);
        vstd::arithmetic::div_mod::lemma_fundamental_div_mod_converse(
            height + chunk - 1,
            chunk,
            height / chunk + 1,
            height % chunk - 1,
        );
    } else {
        vstd::arithmetic::div_mod::lemma_fundamental_div_mod_converse(
            height + chunk - 1,
            chunk,
            height / chunk,
            chunk - 1,
        );
    }
}

/// Rows beyond the region change nothing: passes larger than the region are one pass of
/// the whole region.
pub proof fn lemma_chunks_capped(height: int, chunk: int)
    requires
        1 <= height,
        height <= chunk,
    ensures
        chunk_heights(height, chunk) == chunk_heights(height, height),
{
    if height < chunk {
        vstd::arithmetic::div_mod::lemma_fundamental_div_mod_converse(height, chunk, 0, height);
    }
    vstd::arithmetic::div_mod::lemma_fundamental_div_mod_converse(height, height, 1, 0);
    assert(chunk_heights(height, chunk) =~= chunk_heights(height, height));
}

/// How a scroll is cut into passes.
#[derive(Clone, Copy, Debug, PartialEq, Eq, Structural)]
pub struct ChunkPlan {
    /// Rows of a whole pass.
    pub chunk: u16,
    /// Number of whole passes.
    pub whole: u16,
    /// Rows of the last pass; 0 where the whole passes leave none.
    pub rest: u16,
}

/// Cuts a region of `width` by `height` pixels into passes for a buffer of `capacity`
/// pixels. Fails with `BufferTooSmall` exactly when the buffer does not hold one row.
pub fn chunk_plan(capacity: usize, width: u16, height: u16) -> (r: Result<ChunkPlan, Error>)
    requires
        1 <= width,
        1 <= height,
    ensures
        capacity < width <==> r is Err,
        r is Err ==> r == Err::<ChunkPlan, Error>(Error::BufferTooSmall),
        r matches Ok(plan) ==> {
            &&& 1 <= plan.chunk <= height
            &&& plan.chunk * width <= capacity
            &&& plan.chunk == vstd::math::min(height as int, chunk_height(capacity as int, width as int))
            &&& plan.whole == height as int / plan.chunk as int
            &&& plan.rest == height as int % plan.chunk as int
            &&& plan.whole * plan.chunk + plan.rest == height
            &&& plan.rest < plan.chunk
            &&& chunk_heights(height as int, plan.chunk as int) == chunk_heights(
                height as int,
                chunk_height(capacity as int, width as int),
            )
        },
{
    let lines: usize = capacity / width as usize;
    proof {
        let c = capacity as int;
        let w = width as int;
        let q = c / w;
        let m = c % w;
        vstd::arithmetic::div_mod::lemma_fundamental_div_mod(c, w);
        assert(w * q == q * w) by (nonlinear_arith);
        if c >= w {
            assert(q >= 1) by (nonlinear_arith)
                requires
                    c >= w,
                    w >= 1,
                    c == q * w + m,
                    0 <= m,
                    m < w,
            ;
        } else {
            assert(q == 0) by (nonlinear_arith)
                requires
                    0 <= c,
                    c < w,
                    c == q * w + m,
                    0 <= m,
                    m < w,
            ;
        }
    }
    if lines == 0 {
        return Err(Error::BufferTooSmall);
    }
    let chunk: u16 = if lines >= height as usize {
        height
    } else {
        lines as u16
    };
    proof {
        if lines >= height {
            lemma_chunks_capped(height as int, lines as int);
        }
        assert(chunk * width <= lines * width) by (nonlinear_arith)
            requires
                chunk <= lines,
                width >= 0,
        ;
        vstd::arithmetic::div_mod::lemma_fundamental_div_mod(height as int, chunk as int);
        assert(chunk * (height as int / chunk as int) == (height as int / chunk as int) * chunk)
            by (nonlinear_arith);
    }
    Ok(ChunkPlan { chunk, whole: height / chunk, rest: height % chunk })
}

/// The surface `pixels` in which the rows `lo .. hi` of the window `dest` hold what the
/// same surface held `dx` columns to the left and `dy` rows above.
pub open spec fn shifted_rows(
    pixels: Seq<u16>,
    cols: int,
    dest: Bounds,
    lo: int,
    hi: int,
    dx: int,
    dy: int,
) -> Seq<u16> {
    Seq::new(
        pixels.len(),
        |i: int|
            if dest.contains(i % cols, i / cols) && lo <= i / cols - dest.y_start < hi {
                pixels[(i / cols - dy) * cols + (i % cols - dx)]
            } else {
                pixels[i]
            },
    )
}

/// Moving all rows of a window is moving the window.
pub proof fn lemma_shifted_all_rows(pixels: Seq<u16>, cols: int, dest: Bounds, dx: int, dy: int)
    requires
        dest.wf(),
    ensures
        shifted_rows(pixels, cols, dest, 0, dest.spec_height(), dx, dy) == shifted(
            pixels,
            pixels,
            cols,
            dest,
            dx,
            dy,
        ),
        shifted_rows(pixels, cols, dest, 0, 0, dx, dy) == pixels,
        shifted_rows(pixels, cols, dest, dest.spec_height(), dest.spec_height(), dx, dy) == pixels,
{
    assert(shifted_rows(pixels, cols, dest, 0, dest.spec_height(), dx, dy) =~= shifted(
        pixels,
        pixels,
        cols,
        dest,
        dx,
        dy,
    ));
    assert(shifted_rows(pixels, cols, dest, 0, 0, dx, dy) =~= pixels);
    assert(shifted_rows(pixels, cols, dest, dest.spec_height(), dest.spec_height(), dx, dy)
        =~= pixels);
}

/// One pass of a scroll. When the rows `lo .. hi` of a window have been moved, moving
/// the rows `a .. b` next to them by reading and writing the surface as it is then gives
/// the surface with all those rows moved, provided that the pass lies on the side that
/// no earlier pass has written to: below the moved rows when the content goes up or
/// sideways, above them when it goes down.
pub proof fn lemma_scroll_pass(
    start: Seq<u16>,
    cols: int,
    rows: int,
    from: Bounds,
    dx: int,
    dy: int,
    lo: int,
    hi: int,
    a: int,
    b: int,
)
    requires
        start.len() == cols * rows,
        from.wf(),
        from.x_end < cols,
        from.y_end < rows,
        from.can_move(dx, dy),
        from.moved(dx, dy).x_end < cols,
        from.moved(dx, dy).y_end < rows,
        0 <= lo <= hi <= from.spec_height(),
        0 <= a < b <= from.spec_height(),
        (dy <= 0 && a == hi) || (dy > 0 && b == lo),
    ensures
        ({
            let to = from.moved(dx, dy);
            let now = shifted_rows(start, cols, to, lo, hi, dx, dy);
            paint(
                now,
                cols,
                to.spec_band(a, b - a),
                region(now, cols, from.spec_band(a, b - a)),
            ) == shifted_rows(
                start,
                cols,
                to,
                if a < lo {
                    a
                } else {
                    lo
                },
                if b > hi {
                    b
                } else {
                    hi
                },
                dx,
                dy,
            )
        }),
{
    let to = from.moved(dx, dy);
    let now = shifted_rows(start, cols, to, lo, hi, dx, dy);
    let part = from.spec_band(a, b - a);
    let part_to = to.spec_band(a, b - a);
    assert(part_to == part.moved(dx, dy));
    lemma_copy_is_shift(now, now, cols, rows, part, dx, dy);
    let left = shifted(now, now, cols, part_to, dx, dy);
    let right = shifted_rows(
        start,
        cols,
        to,
        if a < lo {
            a
        } else {
            lo
        },
        if b > hi {
            b
        } else {
            hi
        },
        dx,
        dy,
    );
    assert forall|i: int| 0 <= i < start.len() implies left[i] == right[i] by {
        lemma_grid_point(cols, rows, i);
        let x = i % cols;
        let y = i / cols;
        if part_to.contains(x, y) {
            // the pixel that is read has not been written by an earlier pass
            lemma_grid_index(cols, rows, x - dx, y - dy);
        }
    }
    assert(left =~= right);
}

/// A scroll gives what a copy of the whole rectangle at once gives: the surface on which
/// the rectangle, as it was read before anything was written, has been written `dx`
/// columns to the right and `dy` rows below. This holds as well where the two
/// rectangles overlap.
pub proof fn lemma_scroll_is_whole_copy(
    pixels: Seq<u16>,
    cols: int,
    rows: int,
    from: Bounds,
    dx: int,
    dy: int,
)
    requires
        pixels.len() == cols * rows,
        from.wf(),
        from.x_end < cols,
        from.y_end < rows,
        from.can_move(dx, dy),
        from.moved(dx, dy).x_end < cols,
        from.moved(dx, dy).y_end < rows,
    ensures
        shifted(pixels, pixels, cols, from.moved(dx, dy), dx, dy) == paint(
            pixels,
            cols,
            from.moved(dx, dy),
            region(pixels, cols, from),
        ),
{
    lemma_copy_is_shift(pixels, pixels, cols, rows, from, dx, dy);
}

/// Moves the content of a rectangle of a surface.
pub trait Scroller<Disp: Display> {
    /// The longest row, in pixels, that can be moved.
    spec fn row_capacity(&self) -> nat;

    /// Moves what the requested rectangle holds by `horiz_by` columns and `vert_by` rows.
    ///
    /// Fails with `BoundsError` where the rectangle or the place it is moved to is not a
    /// rectangle of the surface, and with `BufferTooSmall` where a row of the rectangle is
    /// longer than `row_capacity`; nothing is changed then.
    fn scroll_area(
        &mut self,
        disp: &mut Disp,
        x: Span,
        y: Span,
        horiz_by: i16,
        vert_by: i16,
    ) -> (r: Result<(), Error>)
        requires
            old(disp).inv(),
        ensures
            final(disp).inv(),
            final(disp).cols() == old(disp).cols(),
            final(disp).rows() == old(disp).rows(),
            final(self).row_capacity() == old(self).row_capacity(),
            scroll_outcome(
                *old(disp),
                *final(disp),
                old(self).row_capacity(),
                x,
                y,
                horiz_by as int,
                vert_by as int,
                r,
            ),
    ;
}

/// The rectangle that a scroll moves and the one that it moves it to, if both are
/// rectangles of the surface.
pub open spec fn scroll_windows(cols: nat, rows: nat, x: Span, y: Span, dx: int, dy: int) -> Option<
    (Bounds, Bounds),
> {
    match Bounds::clipped(x, y, extent(cols, rows)) {
        None => None,
        Some(from) => if from.can_move(dx, dy) && from.moved(dx, dy).within(
            extent(cols, rows),
        ) {
            Some((from, from.moved(dx, dy)))
        } else {
            None
        },
    }
}

/// What a scroll does to a surface, and what it answers.
pub open spec fn scroll_outcome<Disp: Display>(
    before: Disp,
    after: Disp,
    capacity: nat,
    x: Span,
    y: Span,
    dx: int,
    dy: int,
    r: Result<(), Error>,
) -> bool {
    match scroll_windows(before.cols(), before.rows(), x, y, dx, dy) {
        None => r == Err::<(), Error>(Error::BoundsError) && after == before,
        Some((from, to)) => if capacity < from.spec_width() {
            r == Err::<(), Error>(Error::BufferTooSmall) && after == before
        } else {
            &&& r is Ok || r == Err::<(), Error>(Error::BusFault)
            &&& Disp::dependable() ==> r is Ok && after.pixels() == shifted(
                before.pixels(),
                before.pixels(),
                before.cols() as int,
                to,
                dx,
                dy,
            )
        },
    }
}

/// Scrolls by copying through a buffer: as many rows at a time as the buffer holds.
pub struct CopyScroller<'a> {
    buffer: &'a mut [u16],
}

impl<'a> CopyScroller<'a> {
    /// The pixels that the buffer holds.
    pub closed spec fn capacity(&self) -> nat {
        self.buffer@.len()
    }

    pub fn new(buffer: &'a mut [u16]) -> (s: Self)
        ensures
            s.capacity() == old(buffer)@.len(),
    {
        Self { buffer }
    }

    /// Reads the window `source_window` and writes what was read into `target_window`.
    fn copy<Disp: Display>(
        &mut self,
        source_window: &Bounds,
        target_window: &Bounds,
        disp: &mut Disp,
    ) -> (r: Result<(), Error>)
        requires
            old(disp).inv(),
            source_window.wf(),
            target_window.wf(),
            source_window.within(extent(old(disp).cols(), old(disp).rows())),
            target_window.within(extent(old(disp).cols(), old(disp).rows())),
            source_window.spec_width() == target_window.spec_width(),
            source_window.spec_height() == target_window.spec_height(),
            source_window.spec_area() <= old(self).capacity(),
        ensures
            final(disp).inv(),
            final(disp).cols() == old(disp).cols(),
            final(disp).rows() == old(disp).rows(),
            final(self).capacity() == old(self).capacity(),
            r is Ok || r == Err::<(), Error>(Error::BusFault),
            Disp::dependable() ==> r is Ok && final(disp).pixels() == paint(
                old(disp).pixels(),
                old(disp).cols() as int,
                *target_window,
                region(old(disp).pixels(), old(disp).cols() as int, *source_window),
            ),
    {
        proof {
            disp.lemma_inv();
            lemma_clip_own_ranges(*source_window, extent(disp.cols(), disp.rows()));
            lemma_clip_own_ranges(*target_window, extent(disp.cols(), disp.rows()));
        }
        let ghost held = self.buffer@;
        let ghost data = region(disp.pixels(), disp.cols() as int, *source_window);
        match disp.read_area(source_window.range_horiz(), source_window.range_vert(), self.buffer) {
            Ok(()) => {},
            Err(_) => {
                return Err(Error::BusFault);
            },
        }
        proof {
            if Disp::dependable() {
                let stored = overlay(held, data);
                assert(stored.take(data.len() as int) =~= data);
                lemma_paint_prefix(
                    disp.pixels(),
                    disp.cols() as int,
                    *target_window,
                    stored,
                    data.len() as int,
                );
            }
        }
        match disp.fill_area(target_window.range_horiz(), target_window.range_vert(), self.buffer) {
            Ok(()) => Ok(()),
            Err(_) => Err(Error::BusFault),
        }
    }
}

impl<'a, Disp: Display> Scroller<Disp> for CopyScroller<'a> {
    open spec fn row_capacity(&self) -> nat {
        self.capacity()
    }

    /// The rows are moved in passes of as many rows as the buffer holds. Content that
    /// goes down is moved from the last row up, any other content from the first row
    /// down, so that no pass reads what an earlier one has written.
    fn scroll_area(
        &mut self,
        disp: &mut Disp,
        x: Span,
        y: Span,
        horiz_by: i16,
        vert_by: i16,
    ) -> (r: Result<(), Error>) {
        proof {
            disp.lemma_inv();
        }
        let max = Bounds {
            x_start: 0,
            x_end: disp.width() - 1,
            y_start: 0,
            y_end: disp.height() - 1,
        };
        let source = match Bounds::clip(x, y, &max) {
            Ok(b) => b,
            Err(_) => {
                return Err(Error::BoundsError);
            },
        };
        let target = match source.move_within(horiz_by, vert_by, &max) {
            Ok(b) => b,
            Err(_) => {
                return Err(Error::BoundsError);
            },
        };
        let height: u16 = source.height();
        let plan = match chunk_plan(self.buffer.len(), source.width(), height) {
            Ok(plan) => plan,
            Err(_) => {
                return Err(Error::BufferTooSmall);
            },
        };
        let upwards: bool = vert_by > 0;
        let ghost start = disp.pixels();
        let ghost cols = disp.cols() as int;
        let ghost rows = disp.rows() as int;
        let ghost dx = horiz_by as int;
        let ghost dy = vert_by as int;
        let ghost h = height as int;
        proof {
            lemma_shifted_all_rows(start, cols, target, dx, dy);
        }
        let mut done: u16 = 0;
        let mut passes: u16 = 0;
        while passes < plan.whole
            invariant
                disp.inv(),
                disp.cols() == cols == old(disp).cols(),
                disp.rows() == rows == old(disp).rows(),
                start == old(disp).pixels(),
                start.len() == cols * rows,
                1 <= cols <= u16::MAX,
                1 <= rows <= u16::MAX,
                dx == horiz_by as int,
                dy == vert_by as int,
                scroll_windows(old(disp).cols(), old(disp).rows(), x, y, dx, dy) == Some(
                    (source, target),
                ),
                old(self).capacity() >= source.spec_width(),
                self.capacity() == old(self).capacity(),
                source.wf(),
                target.wf(),
                source.within(extent(disp.cols(), disp.rows())),
                target.within(extent(disp.cols(), disp.rows())),
                source.can_move(dx, dy),
                target == source.moved(dx, dy),
                h == source.spec_height() == height,
                1 <= plan.chunk <= height,
                plan.chunk * source.spec_width() <= self.capacity(),
                plan.whole * plan.chunk + plan.rest == height,
                upwards == (dy > 0),
                passes <= plan.whole,
                done == passes * plan.chunk,
                done <= h,
                Disp::dependable() ==> disp.pixels() == if upwards {
                    shifted_rows(start, cols, target, h - done, h, dx, dy)
                } else {
                    shifted_rows(start, cols, target, 0, done as int, dx, dy)
                },
            decreases plan.whole - passes,
        {
            proof {
                assert((passes + 1) * plan.chunk == passes * plan.chunk + plan.chunk)
                    by (nonlinear_arith);
                assert((passes + 1) * plan.chunk <= plan.whole * plan.chunk) by (nonlinear_arith)
                    requires
                        passes + 1 <= plan.whole,
                        plan.chunk >= 0,
                ;
            }
            let first: u16 = if upwards {
                height - done - plan.chunk
            } else {
                done
            };
            let source_window = source.band(first, plan.chunk);
            let target_window = target.band(first, plan.chunk);
            proof {
                assert(source_window.spec_area() <= self.capacity()) by (nonlinear_arith)
                    requires
                        source_window.spec_area() == source_window.spec_width()
                            * source_window.spec_height(),
                        source_window.spec_height() == plan.chunk,
                        source_window.spec_width() == source.spec_width(),
                        plan.chunk * source.spec_width() <= self.capacity(),
                ;
                if upwards {
                    lemma_scroll_pass(
                        start,
                        cols,
                        rows,
                        source,
                        dx,
                        dy,
                        h - done,
                        h,
                        first as int,
                        first + plan.chunk,
                    );
                } else {
                    lemma_scroll_pass(
                        start,
                        cols,
                        rows,
                        source,
                        dx,
                        dy,
                        0,
                        done as int,
                        first as int,
                        first + plan.chunk,
                    );
                }
            }
            match self.copy(&source_window, &target_window, disp) {
                Ok(()) => {},
                Err(_) => {
                    return Err(Error::BusFault);
                },
            }
            done = done + plan.chunk;
            passes = passes + 1;
        }
        if plan.rest > 0 {
            let first: u16 = if upwards {
                0
            } else {
                done
            };
            let source_window = source.band(first, plan.rest);
            let target_window = target.band(first, plan.rest);
            proof {
                assert(source_window.spec_area() <= self.capacity()) by (nonlinear_arith)
                    requires
                        source_window.spec_area() == source_window.spec_width()
                            * source_window.spec_height(),
                        source_window.spec_height() == plan.rest,
                        plan.rest <= plan.chunk,
                        source_window.spec_width() == source.spec_width(),
                        source.spec_width() >= 0,
                        plan.chunk * source.spec_width() <= self.capacity(),
                ;
                if upwards {
                    lemma_scroll_pass(
                        start,
                        cols,
                        rows,
                        source,
                        dx,
                        dy,
                        h - done,
                        h,
                        0,
                        plan.rest as int,
                    );
                } else {
                    lemma_scroll_pass(
                        start,
                        cols,
                        rows,
                        source,
                        dx,
                        dy,
                        0,
                        done as int,
                        done as int,
                        h,
                    );
                }
            }
            match self.copy(&source_window, &target_window, disp) {
                Ok(()) => {},
                Err(_) => {
                    return Err(Error::BusFault);
                },
            }
        }
        Ok(())
    }
}

} // verus!
