use vstd::prelude::*;
use crate::error::Error;

verus! {

/// One edge of a requested coordinate range.
#[derive(Clone, Copy, Debug, PartialEq, Eq, Structural)]
pub enum Limit {
    /// The edge is left open: it falls on the edge of the largest extent.
    Unbounded,
    /// The coordinate itself belongs to the range.
    Included(u16),
    /// The coordinate is the first one outside the range.
    Excluded(u16),
}

/// A range of coordinates along one axis, either edge of which may be left open.
#[derive(Clone, Copy, Debug, PartialEq, Eq, Structural)]
pub struct Span {
    pub start: Limit,
    pub end: Limit,
}

impl Span {
    /// The first coordinate of the range, where `lowest` is the first one available.
    pub open spec fn first(self, lowest: int) -> int {
        match self.start {
            Limit::Unbounded => lowest,
            Limit::Included(a) => a as int,
            Limit::Excluded(a) => a + 1,
        }
    }

    /// The last coordinate of the range, where `highest` is the last one available.
    pub open spec fn last(self, highest: int) -> int {
        match self.end {
            Limit::Unbounded => highest,
            Limit::Included(b) => b as int,
            Limit::Excluded(b) => b - 1,
        }
    }

    /// The range is not empty and lies within `lowest ..= highest`.
    pub open spec fn fits(self, lowest: int, highest: int) -> bool {
        lowest <= self.first(lowest) <= self.last(highest) <= highest
    }

    /// The whole axis (`..`).
    pub fn full() -> (s: Span)
        ensures
            s == (Span { start: Limit::Unbounded, end: Limit::Unbounded }),
    {
        Span { start: Limit::Unbounded, end: Limit::Unbounded }
    }

    /// Everything from `start` on (`start..`).
    pub fn from(start: u16) -> (s: Span)
        ensures
            s == (Span { start: Limit::Included(start), end: Limit::Unbounded }),
    {
        Span { start: Limit::Included(start), end: Limit::Unbounded }
    }

    /// Everything before `end` (`..end`).
    pub fn to(end: u16) -> (s: Span)
        ensures
            s == (Span { start: Limit::Unbounded, end: Limit::Excluded(end) }),
    {
        Span { start: Limit::Unbounded, end: Limit::Excluded(end) }
    }

    /// The half-open range `start..end`.
    pub fn new(start: u16, end: u16) -> (s: Span)
        ensures
            s == (Span { start: Limit::Included(start), end: Limit::Excluded(end) }),
    {
        Span { start: Limit::Included(start), end: Limit::Excluded(end) }
    }

    /// The closed range `start..=end`.
    pub fn inclusive(start: u16, end: u16) -> (s: Span)
        ensures
            s == (Span { start: Limit::Included(start), end: Limit::Included(end) }),
    {
        Span { start: Limit::Included(start), end: Limit::Included(end) }
    }
}

/// An axis-aligned rectangle of pixels; all four edges belong to it.
#[derive(Clone, Copy, Debug, PartialEq, Eq, Structural)]
pub struct Bounds {
    pub x_start: u16,
    pub x_end: u16,
    pub y_start: u16,
    pub y_end: u16,
}

impl Bounds {
    /// The rectangle is not empty, and its width and height fit in 16 bits.
    pub open spec fn wf(self) -> bool {
        &&& self.x_start <= self.x_end < u16::MAX
        &&& self.y_start <= self.y_end < u16::MAX
    }

    pub open spec fn spec_width(self) -> int {
        self.x_end - self.x_start + 1
    }

    pub open spec fn spec_height(self) -> int {
        self.y_end - self.y_start + 1
    }

    pub open spec fn spec_area(self) -> int {
        self.spec_width() * self.spec_height()
    }

    /// Every pixel of `self` is a pixel of `outer`.
    pub open spec fn within(self, outer: Bounds) -> bool {
        &&& outer.x_start <= self.x_start && self.x_end <= outer.x_end
        &&& outer.y_start <= self.y_start && self.y_end <= outer.y_end
    }

    /// The pixel in column `x` and row `y` lies in the rectangle.
    pub open spec fn contains(self, x: int, y: int) -> bool {
        &&& self.x_start <= x <= self.x_end
        &&& self.y_start <= y <= self.y_end
    }

    /// The rectangle that the two requested ranges select inside `max`, if there is one:
    /// an open edge falls on the edge of `max`, and the result is neither empty nor
    /// larger than `max`.
    pub open spec fn clipped(x: Span, y: Span, max: Bounds) -> Option<Bounds> {
        if x.fits(max.x_start as int, max.x_end as int) && y.fits(
            max.y_start as int,
            max.y_end as int,
        ) {
            Some(
                Bounds {
                    x_start: x.first(max.x_start as int) as u16,
                    x_end: x.last(max.x_end as int) as u16,
                    y_start: y.first(max.y_start as int) as u16,
                    y_end: y.last(max.y_end as int) as u16,
                },
            )
        } else {
            None
        }
    }

    /// The rectangle shifted by `dx` columns and `dy` rows.
    pub open spec fn moved(self, dx: int, dy: int) -> Bounds {
        Bounds {
            x_start: (self.x_start + dx) as u16,
            x_end: (self.x_end + dx) as u16,
            y_start: (self.y_start + dy) as u16,
            y_end: (self.y_end + dy) as u16,
        }
    }

    /// The `count` rows of the rectangle that begin with its row number `first`.
    pub open spec fn spec_band(self, first: int, count: int) -> Bounds {
        Bounds {
            y_start: (self.y_start + first) as u16,
            y_end: (self.y_start + first + count - 1) as u16,
            ..self
        }
    }

    /// The shifted rectangle has coordinates that a `Bounds` can hold.
    pub open spec fn can_move(self, dx: int, dy: int) -> bool {
        &&& 0 <= self.x_start + dx && self.x_end + dx < u16::MAX
        &&& 0 <= self.y_start + dy && self.y_end + dy < u16::MAX
    }

    /// Resolves the requested ranges against `max`.
    ///
    /// Fails with `BoundsError` exactly when the request is empty or reaches outside
    /// `max`; a rectangle that is returned lies inside `max`.
    pub fn clip(x: Span, y: Span, max: &Bounds) -> (r: Result<Bounds, Error>)
        ensures
            match Bounds::clipped(x, y, *max) {
                Some(b) => r == Ok::<Bounds, Error>(b),
                None => r == Err::<Bounds, Error>(Error::BoundsError),
            },
            r matches Ok(b) ==> b.within(*max) && b.x_start <= b.x_end && b.y_start <= b.y_end,
            r matches Ok(b) ==> (max.wf() ==> b.wf()),
    {
        let x_first: u32 = match x.start {
            Limit::Unbounded => max.x_start as u32,
            Limit::Included(a) => a as u32,
            Limit::Excluded(a) => a as u32 + 1,
        };
        let y_first: u32 = match y.start {
            Limit::Unbounded => max.y_start as u32,
            Limit::Included(a) => a as u32,
            Limit::Excluded(a) => a as u32 + 1,
        };
        // An exclusive end of 0 leaves nothing: the request is empty.
        let x_last: u32 = match x.end {
            Limit::Unbounded => max.x_end as u32,
            Limit::Included(b) => b as u32,
            Limit::Excluded(b) => {
                if b == 0 {
                    return Err(Error::BoundsError);
                }
                b as u32 - 1
            },
        };
        let y_last: u32 = match y.end {
            Limit::Unbounded => max.y_end as u32,
            Limit::Included(b) => b as u32,
            Limit::Excluded(b) => {
                if b == 0 {
                    return Err(Error::BoundsError);
                }
                b as u32 - 1
            },
        };
        if max.x_start as u32 <= x_first && x_first <= x_last && x_last <= max.x_end as u32
            && max.y_start as u32 <= y_first && y_first <= y_last && y_last <= max.y_end as u32 {
            Ok(
                Bounds {
                    x_start: x_first as u16,
                    x_end: x_last as u16,
                    y_start: y_first as u16,
                    y_end: y_last as u16,
                },
            )
        } else {
            Err(Error::BoundsError)
        }
    }

    /// Number of columns.
    pub fn width(&self) -> (w: u16)
        requires
            self.wf(),
        ensures
            w == self.spec_width(),
            w >= 1,
    {
        self.x_end - self.x_start + 1
    }

    /// Number of rows.
    pub fn height(&self) -> (h: u16)
        requires
            self.wf(),
        ensures
            h == self.spec_height(),
            h >= 1,
    {
        self.y_end - self.y_start + 1
    }

    /// Number of pixels.
    pub fn area(&self) -> (a: u32)
        requires
            self.wf(),
        ensures
            a == self.spec_area(),
            a >= 1,
    {
        let w: u32 = self.width() as u32;
        let h: u32 = self.height() as u32;
        assert(w * h <= 0xFFFF * 0xFFFF && w * h >= 1) by (nonlinear_arith)
            requires
                1 <= w <= 0xFFFF,
                1 <= h <= 0xFFFF,
        ;
        w * h
    }

    /// Shifts both edges of both axes. The caller answers for the result: it has to stay
    /// on the coordinate grid.
    pub fn move_by(&mut self, dx: i16, dy: i16)
        requires
            old(self).wf(),
            old(self).can_move(dx as int, dy as int),
        ensures
            *final(self) == old(self).moved(dx as int, dy as int),
            final(self).wf(),
            final(self).spec_width() == old(self).spec_width(),
            final(self).spec_height() == old(self).spec_height(),
    {
        self.x_start = (self.x_start as i32 + dx as i32) as u16;
        self.x_end = (self.x_end as i32 + dx as i32) as u16;
        self.y_start = (self.y_start as i32 + dy as i32) as u16;
        self.y_end = (self.y_end as i32 + dy as i32) as u16;
    }

    /// The rectangle shifted by `(dx, dy)`, provided that it still lies inside `max`.
    pub fn move_within(&self, dx: i16, dy: i16, max: &Bounds) -> (r: Result<Bounds, Error>)
        requires
            self.wf(),
        ensures
            match r {
                Ok(b) => {
                    &&& self.can_move(dx as int, dy as int)
                    &&& b == self.moved(dx as int, dy as int)
                    &&& b.within(*max)
                    &&& b.wf()
                },
                Err(e) => {
                    &&& e == Error::BoundsError
                    &&& !(self.can_move(dx as int, dy as int) && self.moved(
                        dx as int,
                        dy as int,
                    ).within(*max))
                },
            },
    {
        let x_first: i32 = self.x_start as i32 + dx as i32;
        let x_last: i32 = self.x_end as i32 + dx as i32;
        let y_first: i32 = self.y_start as i32 + dy as i32;
        let y_last: i32 = self.y_end as i32 + dy as i32;
        if max.x_start as i32 <= x_first && x_last <= max.x_end as i32 && x_last < 0xFFFF
            && max.y_start as i32 <= y_first && y_last <= max.y_end as i32 && y_last < 0xFFFF {
            Ok(
                Bounds {
                    x_start: x_first as u16,
                    x_end: x_last as u16,
                    y_start: y_first as u16,
                    y_end: y_last as u16,
                },
            )
        } else {
            Err(Error::BoundsError)
        }
    }

    /// Keeps the first column and makes the rectangle `width` columns wide.
    ///
    /// Fails with `BoundsError`, changing nothing, exactly when `width` is 0 or the last
    /// column would fall off the coordinate grid.
    pub fn set_width(&mut self, width: u16) -> (r: Result<(), Error>)
        ensures
            r is Ok <==> 1 <= width && old(self).x_start + width - 1 < u16::MAX,
            r is Ok ==> *final(self) == (Bounds {
                x_end: (old(self).x_start + width - 1) as u16,
                ..*old(self)
            }),
            r is Err ==> r == Err::<(), Error>(Error::BoundsError) && *final(self) == *old(self),
    {
        let last: u32 = self.x_start as u32 + width as u32;
        if width == 0 || last > 0xFFFF {
            return Err(Error::BoundsError);
        }
        self.x_end = (last - 1) as u16;
        Ok(())
    }

    /// Keeps the first row and makes the rectangle `height` rows tall.
    ///
    /// Fails with `BoundsError`, changing nothing, exactly when `height` is 0 or the last
    /// row would fall off the coordinate grid.
    pub fn set_height(&mut self, height: u16) -> (r: Result<(), Error>)
        ensures
            r is Ok <==> 1 <= height && old(self).y_start + height - 1 < u16::MAX,
            r is Ok ==> *final(self) == (Bounds {
                y_end: (old(self).y_start + height - 1) as u16,
                ..*old(self)
            }),
            r is Err ==> r == Err::<(), Error>(Error::BoundsError) && *final(self) == *old(self),
    {
        let last: u32 = self.y_start as u32 + height as u32;
        if height == 0 || last > 0xFFFF {
            return Err(Error::BoundsError);
        }
        self.y_end = (last - 1) as u16;
        Ok(())
    }

    /// The `count` rows of the rectangle that begin with its row number `first`, as a
    /// rectangle of their own.
    pub fn band(&self, first: u16, count: u16) -> (b: Bounds)
        requires
            self.wf(),
            1 <= count,
            first + count <= self.spec_height(),
        ensures
            b == self.spec_band(first as int, count as int),
            b.wf(),
            b.within(*self),
            b.spec_width() == self.spec_width(),
            b.spec_height() == count,
    {
        Bounds {
            x_start: self.x_start,
            x_end: self.x_end,
            y_start: self.y_start + first,
            y_end: self.y_start + first + (count - 1),
        }
    }

    /// The columns of the rectangle as a closed range.
    pub fn range_horiz(&self) -> (s: Span)
        ensures
            s == (Span { start: Limit::Included(self.x_start), end: Limit::Included(self.x_end) }),
    {
        Span::inclusive(self.x_start, self.x_end)
    }

    /// The rows of the rectangle as a closed range.
    pub fn range_vert(&self) -> (s: Span)
        ensures
            s == (Span { start: Limit::Included(self.y_start), end: Limit::Included(self.y_end) }),
    {
        Span::inclusive(self.y_start, self.y_end)
    }
}

/// Asking for the rectangle's own two ranges gives the rectangle back, as long as it
/// lies inside the extent asked against.
pub proof fn lemma_clip_own_ranges(b: Bounds, max: Bounds)
    requires
        b.x_start <= b.x_end,
        b.y_start <= b.y_end,
        b.within(max),
    ensures
        Bounds::clipped(
            Span { start: Limit::Included(b.x_start), end: Limit::Included(b.x_end) },
            Span { start: Limit::Included(b.y_start), end: Limit::Included(b.y_end) },
            max,
        ) == Some(b),
{
}

} // verus!
