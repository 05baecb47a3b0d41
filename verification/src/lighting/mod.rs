pub mod crawl;
pub mod light_source;
pub mod light_table;
pub mod system;

pub use crawl::crawl_light;
pub use light_source::{LightSource, LightType};
pub use light_table::LightTables;
pub use system::{LightingSystem, MAXDUNX, MAXDUNY};
