//! A 2-D charting core.
//!
//! The library maps logical data ("guest") coordinates into integer
//! pixel coordinates through composable axis specifications, manages a
//! drawing area with a stack of open semantic contexts, and emits a
//! stream of backend operations that a rendering backend replays; an
//! interactive backend can use the semantic contexts to attach hover
//! or tooltip behaviour to individual series, points and line
//! vertices, without any knowledge of coordinates or label formatting.

pub mod backend;
pub mod cartesian;
pub mod chart;
pub mod decimal;
pub mod drawing;
pub mod element;
pub mod ranged;
