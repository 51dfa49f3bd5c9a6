//! Rays, intersection and shading.

pub mod inside;
pub mod shade;
pub mod trace;
pub mod view;
