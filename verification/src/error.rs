use vstd::prelude::*;

verus! {

/// Everything that can go wrong while driving the panel.
#[derive(Clone, Copy, Debug, PartialEq, Eq, Structural)]
pub enum Error {
    /// A requested rectangle is empty or reaches outside the largest extent allowed.
    BoundsError,
    /// The staging buffer of a scroll cannot hold a single row of the region.
    BufferTooSmall,
    /// A pixel sequence ended before the addressed window was full.
    StreamUnderflow,
    /// A line of the bus could not be driven; the wiring or the chip is defective.
    BusFault,
}

} // verus!
