//! The commands.
pub mod watch;
