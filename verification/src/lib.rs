//! Conway's Game of Life on a torus, with every rule of the simulation proved.
//!
//! * [`torus`]: coordinates that wrap around a ring.
//! * [`rule`]: the fate of one cell, given its state and its live neighbours.
//! * [`grid`]: the cell store, its mathematical model and neighbour counting.
//! * [`generation`]: the scan that schedules births and deaths and the commit
//!   that applies them, which together advance the grid by one generation.
//! * [`glider`]: the glider, and the proof that it travels.
//! * [`engine`]: the fixed-interval clock that decides when a generation is due.
//! * [`app`]: pointer and keyboard state, painting, and pausing.
//! * [`config`]: the settings a simulation is built from.

pub mod app;
pub mod config;
pub mod engine;
pub mod generation;
pub mod glider;
pub mod grid;
pub mod rule;
pub mod torus;
