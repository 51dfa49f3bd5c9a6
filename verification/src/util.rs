//! Small helpers.

pub mod color;
