//! An interpreter core for the CHIP-8 virtual machine.
//!
//! The crate holds the instruction decoder and the machine state with its
//! execution engine. It performs no rendering, no input polling and no
//! pacing: a driver feeds it key events and calls [`state::State::update`]
//! and [`state::State::update_timers`] at the rates it chooses.

pub mod instruction;
pub mod quirks;
pub mod machine;
pub mod state;
pub mod laws;
