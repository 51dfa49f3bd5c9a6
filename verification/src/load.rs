//! Import of scene geometry and of the settings of a render.

pub mod config;
pub mod obj;
