//! The path of the audio: frames, the speaker filter and the realtime links.

pub mod filter;
pub mod frames;
pub mod realtime;
