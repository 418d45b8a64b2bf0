//! Turn-based movement and time-loop simulation on a bounded grid.
//!
//! An agent crosses the grid towards the goal cell, paying fuel for every step
//! against its free directions. The moves of one traversal are recorded, and on
//! the next traversal an echo of the agent replays them while a new agent moves
//! in turn with it.

pub mod fault;
pub mod grid;
pub mod input;
pub mod inventory;
pub mod level;
pub mod movement;
pub mod recording;
pub mod soot;
pub mod turns;
