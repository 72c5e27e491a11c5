//! Configuration, errors, the clock and text helpers.

pub mod clock;
pub mod config;
pub mod errors;
pub mod format;
pub mod text;
