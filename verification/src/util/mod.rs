//! Helpers shared by the other modules.

pub mod float32;
pub mod outcomes;
pub mod text;
pub mod path;
pub mod time;
