pub mod assets;
pub mod debug;
pub mod devtools;
pub mod engine;
pub mod entity;
pub mod game;
pub mod levels;
pub mod lighting;
pub mod math;
pub mod renderer;
pub mod resources;
pub mod sprite;
pub mod tiles;
