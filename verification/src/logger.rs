//! The logger: a minimum level, a format and the active sinks.
//!
//! A [`Logger`] is configured through chained setters, published once with
//! [`Logger::init`], and then asked by [`Logger::log`] what to write for each
//! record. It answers with a [`Dispatch`] and leaves the writing to the
//! caller.

use vstd::prelude::*;
use vstd::string::StringExecFns;

use crate::file::{FileLogger, FileLoggerView, FileWrite, FileWriteView, RollInterval};
use crate::level::LogLevel;
use crate::log::{Log, LogFormat, LogView};
use crate::stdout::StdoutLogger;
use crate::timestamp::{in_calendar, seconds_of};

verus! {

/// Why a logger could not be published.
#[derive(Clone, Debug, PartialEq, Eq)]
pub enum InitError {
    /// The directory for the log files does not exist.
    DirectoryDoesNotExist(String),
    /// A logger has been published before.
    MultipleInitializations,
}

impl InitError {
    /// The error in words.
    pub open spec fn spec_message(self) -> Seq<char> {
        match self {
            InitError::DirectoryDoesNotExist(directory) => "The directory `"@ + directory@
                + "` does not exist"@,
            InitError::MultipleInitializations => "Loggers can only be initialized once"@,
        }
    }

    /// The error in words.
    pub fn message(&self) -> (text: String)
        ensures
            text@ == self.spec_message(),
    {
        let mut text = String::new();
        match self {
            InitError::DirectoryDoesNotExist(directory) => {
                text.append("The directory `");
                text.append(directory.as_str());
                text.append("` does not exist");
            },
            InitError::MultipleInitializations => {
                text.append("Loggers can only be initialized once");
            },
        }
        text
    }
}

/// What one record asks the caller to write: a line for standard output, a
/// line for the log file, both or neither. The two are independent of each
/// other; a failure to write one must not keep the caller from the other.
#[derive(Clone, Debug, PartialEq, Eq)]
pub struct Dispatch {
    /// The line for standard output, if that sink is active.
    pub stdout: Option<String>,
    /// The work for the file sink, if that sink is active.
    pub file: Option<FileWrite>,
}

/// A [`Dispatch`] as mathematical values.
pub struct DispatchView {
    pub stdout: Option<Seq<char>>,
    pub file: Option<FileWriteView>,
}

impl View for Dispatch {
    type V = DispatchView;

    open spec fn view(&self) -> DispatchView {
        DispatchView {
            stdout: match self.stdout {
                Some(line) => Some(line@),
                None => None,
            },
            file: match self.file {
                Some(write) => Some(write@),
                None => None,
            },
        }
    }
}

impl DispatchView {
    /// Nothing to write to any sink.
    pub open spec fn is_empty(self) -> bool {
        self.stdout is None && self.file is None
    }
}

/// What a [`Logger`] holds, as mathematical values.
pub struct LoggerView {
    /// Records below this level are dropped.
    pub level: LogLevel,
    pub format: LogFormat,
    /// Whether the standard-output sink is active.
    pub stdout: bool,
    /// The file sink, if it is active.
    pub file: Option<FileLoggerView>,
}

impl LoggerView {
    /// The configuration that a new logger starts from: `Info` and above, in
    /// the `Pretty` format, to standard output only.
    pub open spec fn initial() -> Self {
        LoggerView {
            level: LogLevel::Info,
            format: LogFormat::Pretty,
            stdout: true,
            file: None,
        }
    }

    /// The file sink, if there is one, is well formed.
    pub open spec fn wf(self) -> bool {
        self.file matches Some(file) ==> file.wf()
    }

    /// Whether a record of this level passes the filter.
    pub open spec fn accepts(self, level: LogLevel) -> bool {
        level.spec_rank() >= self.level.spec_rank()
    }

    /// What the record asks the caller to write.
    pub open spec fn dispatch(self, log: LogView) -> DispatchView {
        if self.accepts(log.level) {
            DispatchView {
                stdout: if self.stdout {
                    Some(log.render(self.format))
                } else {
                    None
                },
                file: match self.file {
                    Some(file) => Some(file.write(log, self.format)),
                    None => None,
                },
            }
        } else {
            DispatchView { stdout: None, file: None }
        }
    }

    /// The logger after the record: the file sink has moved on if the record
    /// passed the filter and crossed the rollover boundary.
    pub open spec fn after(self, log: LogView) -> Self {
        match self.file {
            Some(file) if self.accepts(log.level) => LoggerView {
                file: Some(file.after(seconds_of(log.millis))),
                ..self
            },
            _ => self,
        }
    }
}

/// Filters records by level and fans them out to the active sinks.
#[derive(Clone, Debug)]
pub struct Logger {
    level: LogLevel,
    format: LogFormat,
    stdout: Option<StdoutLogger>,
    file: Option<FileLogger>,
}

impl View for Logger {
    type V = LoggerView;

    closed spec fn view(&self) -> LoggerView {
        LoggerView {
            level: self.level,
            format: self.format,
            stdout: self.stdout is Some,
            file: match self.file {
                Some(file) => Some(file@),
                None => None,
            },
        }
    }
}

impl Default for Logger {
    fn default() -> (r: Logger)
        ensures
            r@ == LoggerView::initial(),
    {
        Logger {
            level: LogLevel::Info,
            format: LogFormat::Pretty,
            stdout: Some(StdoutLogger::new()),
            file: None,
        }
    }
}

impl Logger {
    /// A logger with the initial configuration.
    pub fn new() -> (r: Logger)
        ensures
            r@ == LoggerView::initial(),
    {
        Logger {
            level: LogLevel::Info,
            format: LogFormat::Pretty,
            stdout: Some(StdoutLogger::new()),
            file: None,
        }
    }

    /// A logger with the initial configuration, to be changed by the setters.
    pub fn builder() -> (r: Logger)
        ensures
            r@ == LoggerView::initial(),
    {
        Logger::new()
    }

    /// Sets the minimum level.
    pub fn level(self, level: LogLevel) -> (r: Logger)
        ensures
            r@ == (LoggerView { level, ..self@ }),
    {
        let mut r = self;
        r.level = level;
        r
    }

    /// Sets the format.
    pub fn format(self, format: LogFormat) -> (r: Logger)
        ensures
            r@ == (LoggerView { format, ..self@ }),
    {
        let mut r = self;
        r.format = format;
        r
    }

    /// Sets the format to `Pretty`.
    pub fn pretty(self) -> (r: Logger)
        ensures
            r@ == (LoggerView { format: LogFormat::Pretty, ..self@ }),
    {
        self.format(LogFormat::Pretty)
    }

    /// Sets the format to `Compact`.
    pub fn compact(self) -> (r: Logger)
        ensures
            r@ == (LoggerView { format: LogFormat::Compact, ..self@ }),
    {
        self.format(LogFormat::Compact)
    }

    /// Sets the format to `Json`.
    pub fn json(self) -> (r: Logger)
        ensures
            r@ == (LoggerView { format: LogFormat::Json, ..self@ }),
    {
        self.format(LogFormat::Json)
    }

    /// Switches the standard-output sink on or off.
    pub fn stdout(self, s: bool) -> (r: Logger)
        ensures
            r@ == (LoggerView { stdout: s, ..self@ }),
    {
        let mut r = self;
        if s {
            r.stdout = Some(StdoutLogger::new());
        } else {
            r.stdout = None;
        }
        r
    }

    /// Switches the file sink on, for files in `directory` that roll over
    /// every `roll_interval`. The sink is made now, by the system clock; a
    /// file sink that was there before is replaced.
    pub fn file(self, directory: &str, roll_interval: RollInterval) -> (r: Logger)
        ensures
            r@.wf(),
            exists|seconds: int|
                in_calendar(seconds) && r@ == (LoggerView {
                    file: Some(
                        #[trigger] FileLoggerView::started(directory@, roll_interval, seconds),
                    ),
                    ..self@
                }),
    {
        self.with_file(FileLogger::new(directory, roll_interval))
    }

    /// Switches the file sink on, with `file` as its state.
    pub fn with_file(self, file: FileLogger) -> (r: Logger)
        ensures
            r@ == (LoggerView { file: Some(file@), ..self@ }),
    {
        let mut r = self;
        r.file = Some(file);
        r
    }

    /// The minimum level.
    pub fn min_level(&self) -> (r: LogLevel)
        ensures
            r == self@.level,
    {
        self.level
    }

    /// The format of every line.
    pub fn line_format(&self) -> (r: LogFormat)
        ensures
            r == self@.format,
    {
        self.format
    }

    /// Whether the standard-output sink is active.
    pub fn has_stdout(&self) -> (r: bool)
        ensures
            r == self@.stdout,
    {
        self.stdout.is_some()
    }

    /// The file sink, if it is active.
    pub fn file_logger(&self) -> (r: Option<&FileLogger>)
        ensures
            r is Some <==> self@.file is Some,
            r matches Some(file) ==> self@.file == Some(file@),
    {
        self.file.as_ref()
    }

    /// Publishes the logger into `slot`, the one place from which the
    /// program reaches its logger, and freezes its configuration.
    ///
    /// `directory_exists` says whether the file sink's directory exists; it
    /// is not looked at without a file sink. A missing directory is reported
    /// first; then a slot that is taken. On an error the slot is left as it
    /// was.
    pub fn init(self, slot: &mut Option<Logger>, directory_exists: bool) -> (r: Result<
        (),
        InitError,
    >)
        ensures
            match r {
                Ok(_) => {
                    &&& self@.file is Some ==> directory_exists
                    &&& *old(slot) is None
                    &&& *final(slot) == Some(self)
                },
                Err(InitError::DirectoryDoesNotExist(directory)) => {
                    &&& self@.file matches Some(file) && directory@ == file.directory
                    &&& !directory_exists
                    &&& *final(slot) == *old(slot)
                },
                Err(InitError::MultipleInitializations) => {
                    &&& self@.file is Some ==> directory_exists
                    &&& *old(slot) is Some
                    &&& *final(slot) == *old(slot)
                },
            },
    {
        if !directory_exists {
            if let Some(file) = &self.file {
                let mut directory = String::new();
                directory.append(file.directory());
                return Err(InitError::DirectoryDoesNotExist(directory));
            }
        }
        if slot.is_some() {
            return Err(InitError::MultipleInitializations);
        }
        *slot = Some(self);
        Ok(())
    }

    /// Takes one record and says what to write for it.
    ///
    /// A record below the minimum level touches no sink: nothing is to be
    /// written and the logger stays as it was. Any other record is rendered
    /// for each active sink, standard output first, and the file sink rolls
    /// over first if the record's timestamp has reached the boundary.
    pub fn log(&mut self, log: Log) -> (out: Dispatch)
        requires
            log@.has_message(),
        ensures
            out@ == old(self)@.dispatch(log@),
            final(self)@ == old(self)@.after(log@),
            old(self)@.wf() ==> final(self)@.wf(),
            !old(self)@.accepts(log.level) ==> out@.is_empty() && final(self)@ == old(self)@,
    {
        if log.level.rank() < self.level.rank() {
            return Dispatch { stdout: None, file: None };
        }
        let stdout = match &self.stdout {
            Some(sink) => Some(sink.log(&log, &self.format)),
            None => None,
        };
        let file = match &mut self.file {
            Some(sink) => Some(sink.log(&log, &self.format)),
            None => None,
        };
        Dispatch { stdout, file }
    }
}

} // verus!
