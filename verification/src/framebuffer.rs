use vstd::prelude::*;
use crate::display::{
    extent, lemma_grid_index, lemma_paint_prefix, lemma_paint_step, lemma_window_cell, overlay,
    paint, region, solid, Display,
};
use crate::error::Error;
use crate::geometry::{Bounds, Span};

verus! {

/// A surface kept in memory: a panel that is only simulated.
pub struct Framebuffer {
    width: u16,
    height: u16,
    data: Vec<u16>,
}

impl Framebuffer {
    /// A surface of `width` by `height` pixels of one colour; `BoundsError` for a surface
    /// without pixels.
    pub fn new(width: u16, height: u16, color: u16) -> (r: Result<Framebuffer, Error>)
        ensures
            width == 0 || height == 0 ==> r == Err::<Framebuffer, Error>(Error::BoundsError),
            width > 0 && height > 0 ==> r is Ok && r->Ok_0.inv() && r->Ok_0.cols() == width
                && r->Ok_0.rows() == height && r->Ok_0.pixels() == solid(width * height, color),
    {
        if width == 0 || height == 0 {
            return Err(Error::BoundsError);
        }
        assert(width * height <= 0xFFFF * 0xFFFF) by (nonlinear_arith)
            requires
                width <= 0xFFFF,
                height <= 0xFFFF,
        ;
        let count: usize = width as usize * height as usize;
        let mut data: Vec<u16> = Vec::new();
        let mut k: usize = 0;
        while k < count
            invariant
                k <= count,
                data@ == solid(k as int, color),
            decreases count - k,
        {
            data.push(color);
            k += 1;
            assert(data@ =~= solid(k as int, color));
        }
        Ok(Framebuffer { width, height, data })
    }

    /// The colour of the pixel in column `x` and row `y`, if the surface has that pixel.
    pub fn pixel(&self, x: u16, y: u16) -> (r: Option<u16>)
        requires
            self.inv(),
        ensures
            x < self.cols() && y < self.rows() ==> r == Some(
                self.pixels()[y * self.cols() + x],
            ),
            !(x < self.cols() && y < self.rows()) ==> r is None,
    {
        if x < self.width && y < self.height {
            proof {
                lemma_grid_index(self.width as int, self.height as int, x as int, y as int);
            }
            let row: usize = y as usize;
            let cols: usize = self.width as usize;
            assert(row * cols <= 0xFFFF * 0xFFFF) by (nonlinear_arith)
                requires
                    row <= 0xFFFF,
                    cols <= 0xFFFF,
            ;
            Some(self.data[row * cols + x as usize])
        } else {
            None
        }
    }

    /// Where the pixel at place `k` of the window `b` is kept.
    fn place(&self, b: &Bounds, k: usize) -> (at: usize)
        requires
            self.inv(),
            b.wf(),
            b.x_end < self.cols(),
            b.y_end < self.rows(),
            k < b.spec_area(),
        ensures
            at == (b.y_start + k as int / b.spec_width()) * self.cols() + b.x_start + k as int
                % b.spec_width(),
            at < self.cols() * self.rows(),
    {
        let w: usize = b.width() as usize;
        proof {
            lemma_window_cell(self.width as int, self.height as int, *b, k as int);
        }
        let px: usize = b.x_start as usize + k % w;
        let py: usize = b.y_start as usize + k / w;
        let cols: usize = self.width as usize;
        proof {
            assert(py * cols <= 0xFFFF * 0xFFFF) by (nonlinear_arith)
                requires
                    py <= 0xFFFF,
                    cols <= 0xFFFF,
            ;
        }
        py * cols + px
    }

    fn whole(&self) -> (b: Bounds)
        requires
            self.inv(),
        ensures
            b == extent(self.cols(), self.rows()),
            b.wf(),
    {
        Bounds { x_start: 0, x_end: self.width - 1, y_start: 0, y_end: self.height - 1 }
    }
}

impl Display for Framebuffer {
    closed spec fn inv(&self) -> bool {
        &&& self.width >= 1
        &&& self.height >= 1
        &&& self.data@.len() == self.width * self.height
    }

    closed spec fn cols(&self) -> nat {
        self.width as nat
    }

    closed spec fn rows(&self) -> nat {
        self.height as nat
    }

    closed spec fn pixels(&self) -> Seq<u16> {
        self.data@
    }

    open spec fn dependable() -> bool {
        true
    }

    proof fn lemma_inv(&self) {
    }

    fn width(&self) -> (w: u16) {
        self.width
    }

    fn height(&self) -> (h: u16) {
        self.height
    }

    fn fill_area_color(&mut self, x: Span, y: Span, color: u16) -> (r: Result<(), Error>) {
        let max = self.whole();
        let b = match Bounds::clip(x, y, &max) {
            Ok(b) => b,
            Err(_) => {
                return Err(Error::BoundsError);
            },
        };
        let area: usize = b.area() as usize;
        let ghost w = b.spec_width();
        let ghost data = solid(area as int, color);
        let ghost cols = self.width as int;
        let ghost rows = self.height as int;
        let mut k: usize = 0;
        proof {
            lemma_paint_prefix(old(self).data@, cols, b, data.take(0), 0);
            assert(self.data@ =~= paint(old(self).data@, cols, b, data.take(0)));
        }
        while k < area
            invariant
                k <= area,
                area == b.spec_area(),
                w == b.spec_width(),
                b.wf(),
                b.x_end < cols,
                b.y_end < rows,
                cols == self.width == old(self).width,
                rows == self.height == old(self).height,
                old(self).data@.len() == cols * rows,
                self.inv(),
                data == solid(area as int, color),
                self.data@ == paint(old(self).data@, cols, b, data.take(k as int)),
            decreases area - k,
        {
            proof {
                lemma_window_cell(cols, rows, b, k as int);
                lemma_paint_step(old(self).data@, cols, rows, b, data, k as int);
            }
            let at: usize = self.place(&b, k);
            self.data.set(at, color);
            k += 1;
        }
        proof {
            lemma_paint_prefix(old(self).data@, cols, b, data, area as int);
        }
        Ok(())
    }

    fn fill_area(&mut self, x: Span, y: Span, pixels: &[u16]) -> (r: Result<(), Error>) {
        let max = self.whole();
        let b = match Bounds::clip(x, y, &max) {
            Ok(b) => b,
            Err(_) => {
                return Err(Error::BoundsError);
            },
        };
        let area: usize = b.area() as usize;
        let count: usize = if pixels.len() < area {
            pixels.len()
        } else {
            area
        };
        let ghost w = b.spec_width();
        let ghost cols = self.width as int;
        let ghost rows = self.height as int;
        let mut k: usize = 0;
        proof {
            lemma_paint_prefix(old(self).data@, cols, b, pixels@.take(0), 0);
            assert(self.data@ =~= paint(old(self).data@, cols, b, pixels@.take(0)));
        }
        while k < count
            invariant
                k <= count,
                count <= area,
                count <= pixels@.len(),
                area == b.spec_area(),
                w == b.spec_width(),
                b.wf(),
                b.x_end < cols,
                b.y_end < rows,
                cols == self.width == old(self).width,
                rows == self.height == old(self).height,
                old(self).data@.len() == cols * rows,
                self.inv(),
                self.data@ == paint(old(self).data@, cols, b, pixels@.take(k as int)),
            decreases count - k,
        {
            proof {
                lemma_window_cell(cols, rows, b, k as int);
                lemma_paint_step(old(self).data@, cols, rows, b, pixels@, k as int);
            }
            let at: usize = self.place(&b, k);
            self.data.set(at, pixels[k]);
            k += 1;
        }
        proof {
            lemma_paint_prefix(old(self).data@, cols, b, pixels@, count as int);
        }
        if count < area {
            Err(Error::StreamUnderflow)
        } else {
            Ok(())
        }
    }

    fn read_area(&mut self, x: Span, y: Span, buffer: &mut [u16]) -> (r: Result<(), Error>) {
        let max = self.whole();
        let b = match Bounds::clip(x, y, &max) {
            Ok(b) => b,
            Err(_) => {
                return Err(Error::BoundsError);
            },
        };
        let area: usize = b.area() as usize;
        let count: usize = if buffer.len() < area {
            buffer.len()
        } else {
            area
        };
        let ghost w = b.spec_width();
        let ghost cols = self.width as int;
        let ghost rows = self.height as int;
        let ghost data = region(self.data@, cols, b);
        let mut k: usize = 0;
        assert(buffer@ =~= overlay(old(buffer)@, data.take(0)));
        while k < count
            invariant
                k <= count,
                count <= area,
                count <= buffer@.len(),
                buffer@.len() == old(buffer)@.len(),
                area == b.spec_area(),
                w == b.spec_width(),
                b.wf(),
                b.x_end < cols,
                b.y_end < rows,
                *self == *old(self),
                self.inv(),
                cols == self.width,
                rows == self.height,
                data == region(self.data@, cols, b),
                buffer@ == overlay(old(buffer)@, data.take(k as int)),
            decreases count - k,
        {
            proof {
                lemma_window_cell(cols, rows, b, k as int);
            }
            let at: usize = self.place(&b, k);
            buffer[k] = self.data[at];
            k += 1;
            assert(buffer@ =~= overlay(old(buffer)@, data.take(k as int)));
        }
        assert(buffer@ =~= overlay(old(buffer)@, data));
        Ok(())
    }
}

} // verus!
