pub mod arith;
pub mod point;
pub mod rect;

pub use point::Point;
pub use rect::Rect;
