//! A discrete-time simulation kernel.
//!
//! A simulation holds a collection of spatially positioned cells and one
//! shared global record.  Each iteration derives a neighbour relation from
//! the cell positions, runs pluggable processes that read cell, neighbour
//! and global state and queue typed update records, and then applies those
//! updates in order to produce the next state.

pub mod cells;
pub mod examples;
pub mod global;
pub mod network;
pub mod process;
pub mod run;
pub mod state;
