//! Countdown timer core for a single-window focus timer: the session state
//! machine, the progress-to-colour mapping and the `MM:SS` countdown text.
//!
//! All times are plain `u64` nanosecond counts handed in by the caller, so
//! every operation is deterministic and none reads a clock.

pub mod color;
pub mod display;
pub mod frame;
pub mod timer;
