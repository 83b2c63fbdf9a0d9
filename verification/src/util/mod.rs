pub mod time;
pub mod fmt;
pub mod path;
