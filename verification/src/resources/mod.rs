pub mod bytes;
pub mod cl2;
pub mod clx;
pub mod dungeon_cel;
pub mod palette;
pub mod pcx;
pub mod trn;

pub use clx::{ClxFrameHeader, ClxHeader};
pub use palette::{Color, Palette};
pub use pcx::{PcxHeader, PcxImage};
pub use trn::ColorTransform;
