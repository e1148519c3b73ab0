pub mod bits;
pub mod color;

pub use bits::U8Iterator;
pub use color::Color;
pub use color::ColorIterator;
