//! The state of the program and what changes it.

pub mod commands;
pub mod controller;
pub mod startup;
pub mod state;
pub mod training;
