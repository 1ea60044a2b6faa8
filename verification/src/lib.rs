//! Supervision of a fleet of market cranks: the registry of worker records,
//! the rules for starting, halting and evicting them, and the form in which
//! the registry is kept across restarts of the supervisor.
//!
//! The library decides; it never touches a process, a clock or a file. The
//! caller launches and signals processes, reads the clock and the disk, and
//! reports what happened as plain values.

pub mod crank;
pub mod error;
pub mod handler;
pub mod laws;
pub mod model;
pub mod monitor;
pub mod paths;
pub mod state;
pub mod text;
