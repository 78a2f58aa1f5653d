//! Named, weighted records ("ducks"), their total order, their one-line
//! rendering, and a verified in-place sort.

pub mod order;
pub mod duck;
pub mod render;
pub mod sort;
