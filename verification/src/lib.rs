//! Verified core of a file-sharing launcher.
//!
//! Given a list of file paths, the surrounding program discovers reachable
//! companion devices, lets the user pick one, transfers the files to it, and
//! reports the outcome in a single desktop notification.  Everything the
//! program decides -- how discovery output is parsed into device records, how
//! the chosen name is resolved, how per-file failures are collected, and which
//! notification ends the run -- lives here as verified functions.  The
//! unverified shell only spawns the external commands these functions name and
//! feeds their output back in.

pub mod device;
pub mod parser;
pub mod run;
pub mod session;
pub mod text;
