//! What is found out of a Linux host, and how its cameras are read.

pub mod camera;
pub mod probe;
