//! Distribution of the rows of an image over render workers.

pub mod master;
pub mod schedule;
