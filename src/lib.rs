//! Generator of a toy flow network laid out on a square grid: one node per
//! cell, one source at the corner and a band of sinks along the first row.
pub mod args;
pub mod decimal;
pub mod grid;
pub mod render;
