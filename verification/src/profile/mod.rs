//! Enrollment: what is recorded, how good it is, and the profile made of it.

pub mod builder;
pub mod quality;
pub mod record;
pub mod scan;
pub mod storage;
pub mod wav;
