//! A buffer of log lines grouped by key, drained into one file per key.
//!
//! [`Logger`] collects lines in memory, each under a caller-chosen key, in the
//! order they were appended.  [`Logger::save_logs`] empties it and returns a
//! [`Flush`]: the name of a fresh time-stamped directory and, for every key,
//! the name and full text of the file to write there.  Writing those files is
//! left to the caller.

pub mod clock;
pub mod laws;
pub mod logger;
pub mod model;

pub use logger::{Flush, KeyBuffer, LogFile, Logger};
