//! Driver logic for RGB lighting modules on memory sticks that share one
//! two-wire serial bus.
//!
//! The library decides; the caller performs. Each command of
//! [`protocol::MultiRamController`] yields the exact list of bus operations
//! that carries it out, and [`transport`] decides when a failed register
//! operation is retried and how long to wait first.
mod error;
pub mod protocol;
pub mod transport;
mod types;

pub use error::FuryControllerError;
pub use types::{is_percent, Colour};
