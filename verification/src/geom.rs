//! Scene geometry.

pub mod fast;
pub mod kd;
pub mod scene;
