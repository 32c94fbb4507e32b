//! A CHIP-8 interpreter core: machine state, instruction semantics, the
//! keypad mapping, display compositing and the two-cadence scheduler.
//! Window, keyboard capture and file loading are left to the host program.

pub mod bits;
pub mod keypad;
pub mod semantics;
pub mod machine;
pub mod rom;
pub mod scheduler;
pub mod laws;
