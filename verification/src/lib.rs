//! The logic of a flight panel: reading switches, encoders and analog controls, and reporting them
//! to a host as a joystick.
pub mod analog;
pub mod bits;
pub mod bump;
pub mod cli;
pub mod descriptor;
pub mod encoder;
pub mod expander;
pub mod joystick;
pub mod lines;
pub mod log;
pub mod mapping;
pub mod pool;
pub mod tasklist;
mod ticks;
pub mod trace;
pub mod trace_switch;
