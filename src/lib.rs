//! Decoding of integer Unix timestamps given in a chosen unit, and the
//! filtering of comma-separated timestamp lists.

pub mod format;
pub mod plan;
pub mod time;
pub mod tokens;
