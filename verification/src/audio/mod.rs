//! Audio devices and the buffers between them.

pub mod buffers;
pub mod devices;
pub mod ring;
