//! A small actor model: actors, references to them, and the containers that
//! they live in.

pub mod actor;
pub mod container;
