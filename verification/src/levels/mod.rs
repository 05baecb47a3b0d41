pub mod drlg_l1;
pub mod random;

pub use drlg_l1::{CathedralGenerator, Tile, create_l1_dungeon};
