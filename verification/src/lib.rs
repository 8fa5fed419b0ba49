//! Verified core of a CPU-driven PWM generator: the per-tick output state
//! machine that drives a shared output byte, the cycle length in ticks, the
//! parser for the channel bitmask typed by the user, and the shared output
//! slot handle.

pub mod pwm;
pub mod ui;
pub mod util;
