//! The log sink's decisions: which lines are produced, and where they go.
//! Writing them out is left to the caller.

use crate::errors::{DogError, DogResult};
use vstd::prelude::*;
use vstd::string::*;

verus! {

/// The layout of the time stamp that opens a log line.
pub const DATE_FORMAT_STR: &'static str = "%Y-%m-%d %H:%M:%S";

/// How grave a log line is.
#[derive(Clone, Copy, Debug, PartialEq, Eq, Structural)]
pub enum LogLevel {
    INFO,
    ERROR,
    FATAL,
}

impl LogLevel {
    /// The word that names the level in a log line.
    pub open spec fn word(self) -> Seq<char> {
        match self {
            LogLevel::INFO => "INFO"@,
            LogLevel::ERROR => "ERROR"@,
            LogLevel::FATAL => "FATAL"@,
        }
    }

    /// The word that names the level in a log line.
    pub fn label(&self) -> (s: &'static str)
        ensures
            s@ == self.word(),
    {
        match self {
            LogLevel::INFO => "INFO",
            LogLevel::ERROR => "ERROR",
            LogLevel::FATAL => "FATAL",
        }
    }
}

/// One line to be written, and where.
#[derive(Clone, Debug)]
pub struct LogRecord {
    /// The finished line, without a line break.
    pub line: String,
    /// Whether the line goes to standard output.
    pub print: bool,
    /// The file the line is appended to, if any.
    pub file: Option<String>,
    /// Whether the process ends after the line is written.
    pub terminate: bool,
}

/// Where log lines go.
#[derive(Clone, Debug)]
pub struct Logger {
    pub write_file: Option<String>,
    pub do_print: bool,
    pub deactivated: bool,
}

/// The characters of an optional string.
pub open spec fn opt_view(o: Option<String>) -> Option<Seq<char>> {
    match o {
        Some(s) => Some(s@),
        None => None,
    }
}

/// The text of a log line.
pub open spec fn line_of(stamp: Seq<char>, level: LogLevel, message: Seq<char>) -> Seq<char> {
    stamp + " | "@ + level.word() + " : "@ + message
}

/// `chrono::Local::now` rendered through `DateTime::format` with
/// `DATE_FORMAT_STR`, as a string: the wall-clock time of the call in the
/// machine's time zone. It differs from call to call, so nothing is claimed
/// of the text. chrono panics where the system clock stands before 1970
/// and where the machine's time-zone data yields no offset for the moment;
/// neither depends on an argument, so no precondition can rule them out.
#[verifier::external_body]
fn timestamp() -> (r: String) {
    chrono::Local::now().format(DATE_FORMAT_STR).to_string()
}

/// A copy of an optional string.
pub fn copy_opt(o: &Option<String>) -> (r: Option<String>)
    ensures
        opt_view(r) == opt_view(*o),
{
    match o {
        Some(s) => Some(s.clone()),
        None => None,
    }
}

impl Logger {
    /// Whether the logger has been switched off after a failed write.
    pub open spec fn muted(&self) -> bool {
        self.deactivated
    }

    /// `rec` is what this logger writes for `message` at `level`, under some
    /// time stamp.
    pub open spec fn wrote(&self, rec: LogRecord, level: LogLevel, message: Seq<char>) -> bool {
        &&& exists|stamp: Seq<char>| rec.line@ == line_of(stamp, level, message)
        &&& rec.print == self.do_print
        &&& opt_view(rec.file) == opt_view(self.write_file)
        &&& rec.terminate == (level == LogLevel::FATAL)
    }

    /// A logger that prints and writes no file.
    pub fn default() -> (l: Self)
        ensures
            l.write_file is None,
            l.do_print,
            !l.muted(),
    {
        Self { write_file: None, do_print: true, deactivated: false }
    }

    /// A logger that writes to `out_file`, if one is given. `file_ready` says
    /// whether that file exists or could be created; a file that is not
    /// ready is a fatal fault.
    pub fn new(do_print: bool, out_file: Option<String>, file_ready: bool) -> (r: DogResult<Self>)
        ensures
            r is Err <==> (out_file is Some && !file_ready),
            r matches Ok(l) ==> l.do_print == do_print && opt_view(l.write_file) == opt_view(
                out_file,
            ) && !l.muted(),
            r matches Err(e) ==> e@ == (
                "usr-fileopen-log"@,
                "Could not open log file"@,
                LogLevel::FATAL,
            ),
    {
        if out_file.is_some() && !file_ready {
            return Err(
                DogError::fatal("usr-fileopen-log".to_owned(), "Could not open log file".to_owned()),
            );
        }
        Ok(Self { write_file: out_file, do_print, deactivated: false })
    }

    /// Switches the logger off: later calls produce no record.
    pub fn deactivate(&mut self)
        ensures
            final(self).muted(),
            final(self).do_print == old(self).do_print,
            final(self).write_file == old(self).write_file,
    {
        self.deactivated = true;
    }

    /// The line for `message` at `level` under the time stamp `stamp`.
    pub fn render(stamp: &str, level: LogLevel, message: &str) -> (s: String)
        ensures
            s@ == line_of(stamp@, level, message@),
    {
        let mut s = stamp.to_owned();
        s.append(" | ");
        s.append(level.label());
        s.append(" : ");
        s.append(message);
        s
    }

    /// The record for `message` at `level` under the time stamp `stamp`, or
    /// `None` where the logger is switched off.
    pub fn record(&self, stamp: &str, level: LogLevel, message: &str) -> (r: Option<LogRecord>)
        ensures
            self.muted() <==> r is None,
            r matches Some(rec) ==> {
                &&& rec.line@ == line_of(stamp@, level, message@)
                &&& rec.print == self.do_print
                &&& opt_view(rec.file) == opt_view(self.write_file)
                &&& rec.terminate == (level == LogLevel::FATAL)
            },
    {
        if self.deactivated {
            return None;
        }
        Some(
            LogRecord {
                line: Self::render(stamp, level, message),
                print: self.do_print,
                file: copy_opt(&self.write_file),
                terminate: level == LogLevel::FATAL,
            },
        )
    }

    /// The record for `message` at `level`, stamped with the current local
    /// time.
    pub fn log(&self, level: LogLevel, message: &str) -> (r: Option<LogRecord>)
        ensures
            self.muted() <==> r is None,
            r matches Some(rec) ==> self.wrote(rec, level, message@),
    {
        let stamp = timestamp();
        self.record(stamp.as_str(), level, message)
    }

    /// The record for `message` at `ERROR`.
    pub fn error(&self, message: &str) -> (r: Option<LogRecord>)
        ensures
            self.muted() <==> r is None,
            r matches Some(rec) ==> self.wrote(rec, LogLevel::ERROR, message@),
    {
        self.log(LogLevel::ERROR, message)
    }

    /// The record for `message` at `INFO`.
    pub fn info(&self, message: &str) -> (r: Option<LogRecord>)
        ensures
            self.muted() <==> r is None,
            r matches Some(rec) ==> self.wrote(rec, LogLevel::INFO, message@),
    {
        self.log(LogLevel::INFO, message)
    }

    /// The record of a fatal message: the process ends once it is written.
    pub fn fatal(&self, message: &str) -> (r: Option<LogRecord>)
        ensures
            self.muted() <==> r is None,
            r matches Some(rec) ==> self.wrote(rec, LogLevel::FATAL, message@),
    {
        self.log(LogLevel::FATAL, message)
    }
}

} // verus!
