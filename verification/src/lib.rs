//! Structured logging core: records, formatters and a time-based file
//! rotation policy, with every decision stated as a contract.
//!
//! The library performs no I/O. A [`Logger`] turns a [`Log`] record into a
//! [`Dispatch`]: the text for standard output and the text for the log file,
//! together with the name of the file to switch to when the record crosses a
//! rollover boundary. The caller performs the writes, and keeps the logger
//! and the open file behind one lock.
//!
//! Each function states in its contract what it returns; what holds of
//! several calls together is proved in the `lemma_` functions that stand
//! behind the code they speak of, in [`log`], [`json`] and [`file`].
//!
//! Taken on trust are the escape sequences of `owo_colors` ([`style`]), the
//! calendar date and the clock of `time` ([`timestamp`]), and `String::push`
//! of the standard library ([`text`]).

pub mod file;
pub mod json;
pub mod level;
pub mod log;
pub mod logger;
pub mod stdout;
pub mod style;
pub mod text;
pub mod timestamp;

pub use file::{FileLogger, FileWrite, RollInterval};
pub use level::LogLevel;
pub use log::{Log, LogFormat};
pub use logger::{Dispatch, InitError, Logger};
pub use stdout::StdoutLogger;
pub use timestamp::Timestamp;
