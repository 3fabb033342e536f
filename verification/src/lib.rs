//! A driver for an SSD1963 display controller on a 16-bit parallel bus, with a small
//! text terminal on top of it.
//!
//! From the bottom up: `pins` is what the hardware has to offer, `bus` turns words for
//! the chip into strobes on the lines, `chip` says what the chip makes of them,
//! `controller` speaks the commands of the chip and shows its frame memory as a
//! `display`, and `term` writes text onto a display. `sim` and `framebuffer` stand in
//! for the hardware where there is none.

pub mod bus;
pub mod chip;
pub mod controller;
pub mod display;
pub mod effect;
pub mod error;
pub mod framebuffer;
pub mod geometry;
pub mod pins;
pub mod protocol;
pub mod sim;
pub mod term;
