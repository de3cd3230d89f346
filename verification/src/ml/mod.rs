//! Deciding which frames hold speech and whose it is.

pub mod speaker;
pub mod vad;
