//! A fixed particle scene as an explicit state machine: a repeating spawn
//! scheduler, one-shot lifetimes, an input trigger and a cleanup sweep, stepped
//! once per frame with the frame's elapsed time in nanoseconds.

pub mod effect;
pub mod laws;
pub mod scene;
pub mod timer;
