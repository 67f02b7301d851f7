//! Controller logic for an automated pet door.
//!
//! The door watches a motion sensor, asks a beacon scanner over a serial
//! link for nearby advertisements, matches them against a known collar
//! identifier, judges proximity from signal strength, and drives a timed
//! unlock sequence on a match. This crate holds the verified core of that
//! loop: the bounded response accumulator, the incremental response parser,
//! the beacon matcher, the proximity decision, the actuator plan, and the
//! control-loop state machine. The hardware edges (UART reads and writes,
//! the PWM output, timers) live outside and drive these functions.

pub mod actuator;
pub mod buffer;
pub mod control;
pub mod matcher;
pub mod parser;
pub mod proximity;
