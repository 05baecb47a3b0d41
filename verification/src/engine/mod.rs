pub mod diamond;
pub mod direction;
pub mod isometric;
pub mod texture;
pub mod tile_renderer;

pub use direction::Direction;
