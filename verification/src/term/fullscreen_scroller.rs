use vstd::prelude::*;
use crate::display::Display;
use crate::error::Error;
use crate::geometry::Span;

verus! {

/// Moves rows that span the whole width of a surface, by whatever means the surface
/// offers for it.
pub trait FullscreenVerticalScroller<Disp: Display> {
    /// Moves the requested rows by `vert_by` rows. The surface stays usable and keeps
    /// its size.
    fn scroll_area(&mut self, disp: &mut Disp, y: Span, vert_by: i16) -> (r: Result<(), Error>)
        requires
            old(disp).inv(),
        ensures
            final(disp).inv(),
            final(disp).cols() == old(disp).cols(),
            final(disp).rows() == old(disp).rows(),
    ;
}

} // verus!
