//! What the user has set.

pub mod settings;
