pub mod base;
pub mod json;
pub mod text;
pub mod util;
pub mod swarm;
pub mod tui;
