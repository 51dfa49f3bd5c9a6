//! An exact-arithmetic path tracer and a few small tools that grew beside it.

pub mod asm68k;
pub mod distr;
pub mod elftools;
pub mod geom;
pub mod load;
pub mod render;
pub mod theater;
pub mod util;
