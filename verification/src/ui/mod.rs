//! What is shown, and what a click does.
//!
//! Everything is text and a tone; how a tone looks is up to the program that
//! draws.

pub mod debug;
pub mod devices;
pub mod inference;
pub mod lines;
pub mod shell;
pub mod training;
