//! The verified core of EKSingleMic: a single-microphone speaker filter with a
//! guided enrollment flow.
//!
//! Everything here is plain data and rules. Audio devices, files, windows and
//! floating-point signal processing live in the program around this library,
//! which hands in what it measured and acts on what is decided here.

pub mod app;
pub mod audio;
pub mod config;
pub mod ml;
pub mod pipeline;
pub mod profile;
pub mod ui;
pub mod util;
