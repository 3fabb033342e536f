pub mod font;
pub mod fullscreen_scroller;
pub mod glyph;
pub mod model;
pub mod split;
pub mod terminal;
pub mod vertical_scroller;

pub use glyph::{get_bits, get_bits_transposed, CharPixelIter, CharPixelTransIter};
pub use split::{CharOrNewline, SplitByLenOrNewline};
pub use terminal::{display_size, Term};
