//! Support library for the quadrupel drone board: the debug message queue,
//! the radio status report and the order of the board's boot sequence.
use vstd::prelude::*;

pub mod debug_message;
pub mod initialize;
pub mod radio;
