//! Core of an interactive terminal dashboard: a lifecycle state machine, a
//! command table that maps key codes to bound actions, and a controller that
//! renders metric snapshots while dispatching decoded key presses, restoring
//! the terminal on every exit path.

pub mod args;
pub mod console;
pub mod controller;
pub mod instruction;
pub mod keys;
pub mod metrics;
pub mod render;
pub mod status;
pub mod sys_print;
pub mod term;
