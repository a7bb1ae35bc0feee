//! The activity log: which lines are written, and to which file.
//!
//! The logger does not write. It keeps the entries that are due, each with
//! the file it belongs to and the time at which it was made, until the
//! caller takes them and appends them to their files.
//!
//! The time of an entry is the clock's to say. `Logger::record` takes the
//! time as an argument and says exactly what is kept; `Logger::log` reads
//! the clock and records. What holds of a logger whatever the clock shows
//! is stated of its [`LogView`], which leaves the times aside.

use crate::paths::{join_path, path_join};
use std::path::PathBuf;
use vstd::prelude::*;
use vstd::string::StringExecFns;

verus! {

/// The time format in the name of a log file.
pub open spec fn file_stamp_format() -> Seq<char> {
    "%Y%m%d_%H%M%S"@
}

/// The time format at the head of a log line.
pub open spec fn line_stamp_format() -> Seq<char> {
    "%Y-%m-%d %H:%M:%S"@
}

/// Calls `chrono::Local::now` and renders the time it gives with
/// `DateTime::format`. The result depends on the clock and the time zone
/// of the machine, so nothing is claimed of it. Rendering panics on a
/// format that chrono cannot parse, which neither of the two formats
/// admitted here is. Reading the time panics on a machine whose clock
/// stands before 1970 or whose time zone cannot be made out: no argument
/// has a part in that.
#[verifier::external_body]
fn local_time(format: &str) -> (stamp: String)
    requires
        format@ == file_stamp_format() || format@ == line_stamp_format(),
{
    chrono::Local::now().format(format).to_string()
}

/// The name of the log file that was opened at the time `stamp`.
pub open spec fn log_file_name(stamp: Seq<char>) -> Seq<char> {
    "taskflow_"@ + stamp + ".log"@
}

/// The line that an entry is written as.
pub open spec fn log_line(stamp: Seq<char>, message: Seq<char>) -> Seq<char> {
    "["@ + stamp + "] "@ + message + "\n"@
}

/// The message that records the start of a job.
pub open spec fn start_message(filename: Seq<char>, script: Seq<char>) -> Seq<char> {
    "Starting: "@ + filename + " with script: "@ + script
}

/// The message that records a success.
pub open spec fn success_message(filename: Seq<char>) -> Seq<char> {
    "Success: "@ + filename
}

/// The message that records a failure.
pub open spec fn error_message(filename: Seq<char>, error: Seq<char>) -> Seq<char> {
    "Error: "@ + filename + " - "@ + error
}

/// One line that is due to be appended to a log file.
#[derive(Debug)]
pub struct LogEntry {
    /// The file to append to.
    pub file: PathBuf,
    /// The local time at which the entry was made.
    pub stamp: String,
    /// What happened.
    pub message: String,
}

/// The mathematical value of a [`LogEntry`].
pub struct EntryView {
    pub file: PathBuf,
    pub stamp: Seq<char>,
    pub message: Seq<char>,
}

/// An entry with its time left aside: where it goes and what it says.
pub struct NoteView {
    pub file: PathBuf,
    pub message: Seq<char>,
}

impl EntryView {
    /// The entry with its time left aside.
    pub open spec fn note(self) -> NoteView {
        NoteView { file: self.file, message: self.message }
    }
}

impl View for LogEntry {
    type V = EntryView;

    open spec fn view(&self) -> EntryView {
        EntryView { file: self.file, stamp: self.stamp@, message: self.message@ }
    }
}

impl LogEntry {
    /// The line to append: the time in square brackets, the message, and a
    /// line feed.
    pub fn line(&self) -> (line: String)
        ensures
            line@ == log_line(self.stamp@, self.message@),
    {
        let mut line = String::from_str("[");
        line.append(self.stamp.as_str());
        line.append("] ");
        line.append(self.message.as_str());
        line.append("\n");
        line
    }
}

/// The values of a sequence of entries, in order.
pub open spec fn entry_views(entries: Seq<LogEntry>) -> Seq<EntryView> {
    entries.map_values(|entry: LogEntry| entry@)
}

/// Decides what is logged and where.
#[derive(Debug)]
pub struct Logger {
    log_file: Option<PathBuf>,
    enabled: bool,
    pending: Vec<LogEntry>,
}

/// The mathematical value of a [`Logger`].
pub struct LoggerView {
    pub log_file: Option<PathBuf>,
    pub enabled: bool,
    pub pending: Seq<EntryView>,
}

impl LoggerView {
    /// Whether messages are recorded at all: logging is on and there is a
    /// file to write to.
    pub open spec fn active(self) -> bool {
        self.enabled && self.log_file is Some
    }

    /// The logger after `message` was handed to it at the time `stamp`.
    pub open spec fn recorded(self, stamp: Seq<char>, message: Seq<char>) -> LoggerView {
        if self.active() {
            LoggerView {
                pending: self.pending.push(EntryView { file: self.log_file->0, stamp, message }),
                ..self
            }
        } else {
            self
        }
    }

    /// The logger with nothing pending.
    pub open spec fn flushed(self) -> LoggerView {
        LoggerView { pending: Seq::empty(), ..self }
    }

    /// Whether this logger still holds, in front and as they were, times
    /// and all, the entries that `before` held.
    pub open spec fn keeps(self, before: LoggerView) -> bool {
        before.pending.is_prefix_of(self.pending)
    }

    /// The logger with the times of its entries left aside.
    pub open spec fn untimed(self) -> LogView {
        LogView {
            log_file: self.log_file,
            enabled: self.enabled,
            notes: self.pending.map_values(|entry: EntryView| entry.note()),
        }
    }
}

/// What a logger holds, the times of its entries left aside.
pub struct LogView {
    pub log_file: Option<PathBuf>,
    pub enabled: bool,
    pub notes: Seq<NoteView>,
}

impl LogView {
    /// Whether messages are recorded at all: logging is on and there is a
    /// file to write to.
    pub open spec fn active(self) -> bool {
        self.enabled && self.log_file is Some
    }

    /// The log after `message` was handed to the logger, at whatever time.
    pub open spec fn logged(self, message: Seq<char>) -> LogView {
        if self.active() {
            LogView {
                notes: self.notes.push(NoteView { file: self.log_file->0, message }),
                ..self
            }
        } else {
            self
        }
    }
}

/// A logger that keeps what a second one held, which keeps what a third one
/// held, keeps what the third one held.
pub proof fn lemma_keeps_on(last: LoggerView, middle: LoggerView, first: LoggerView)
    requires
        last.keeps(middle),
        middle.keeps(first),
    ensures
        last.keeps(first),
{
    assert(first.pending =~= last.pending.subrange(0, first.pending.len() as int)) by {
        assert forall|i: int| 0 <= i < first.pending.len() implies first.pending[i]
            == last.pending[i] by {
            assert(first.pending[i] == middle.pending.subrange(0, first.pending.len() as int)[i]);
            assert(middle.pending[i] == last.pending.subrange(0, middle.pending.len() as int)[i]);
        }
    }
}

/// Recording a message at any time is logging it, the time left aside.
pub proof fn lemma_recorded_is_logged(logger: LoggerView, stamp: Seq<char>, message: Seq<char>)
    ensures
        logger.recorded(stamp, message).untimed() == logger.untimed().logged(message),
{
    assert(logger.recorded(stamp, message).untimed().notes =~= logger.untimed().logged(
        message,
    ).notes);
}

/// The log file of a logger made for `output_dir` at the time `stamp`:
/// none when logging is off or there is no directory.
pub open spec fn log_file_at(
    output_dir: Option<PathBuf>,
    enabled: bool,
    stamp: Seq<char>,
) -> Option<PathBuf> {
    if enabled {
        match output_dir {
            Some(dir) => Some(path_join(dir, log_file_name(stamp))),
            None => None,
        }
    } else {
        None
    }
}

/// Whether `log_file` is the log file of a logger made for `output_dir` at
/// some time.
pub open spec fn log_file_fits(
    log_file: Option<PathBuf>,
    output_dir: Option<PathBuf>,
    enabled: bool,
) -> bool {
    exists|stamp: Seq<char>| log_file == #[trigger] log_file_at(output_dir, enabled, stamp)
}

/// The log file for `output_dir` at the time `stamp`.
pub fn log_file_for(output_dir: Option<PathBuf>, enabled: bool, stamp: &str) -> (log_file: Option<
    PathBuf,
>)
    ensures
        log_file == log_file_at(output_dir, enabled, stamp@),
{
    if enabled {
        match output_dir {
            Some(dir) => {
                let mut name = String::from_str("taskflow_");
                name.append(stamp);
                name.append(".log");
                Some(join_path(&dir, name.as_str()))
            },
            None => None,
        }
    } else {
        None
    }
}

impl View for Logger {
    type V = LoggerView;

    closed spec fn view(&self) -> LoggerView {
        LoggerView {
            log_file: self.log_file,
            enabled: self.enabled,
            pending: entry_views(self.pending@),
        }
    }
}

/// The log file for `output_dir` at the present time. The clock is read
/// only where there is a file to name.
fn log_file_now(output_dir: Option<PathBuf>, enabled: bool) -> (log_file: Option<PathBuf>)
    ensures
        log_file_fits(log_file, output_dir, enabled),
{
    if enabled && output_dir.is_some() {
        let stamp = local_time("%Y%m%d_%H%M%S");
        log_file_for(output_dir, enabled, stamp.as_str())
    } else {
        proof {
            assert(log_file_at(output_dir, enabled, Seq::empty()) is None);
        }
        None
    }
}

impl Logger {
    /// A logger that writes to a new file in `output_dir`, named after the
    /// present time, if `enabled` and there is a directory; else one that
    /// records nothing.
    pub fn new(output_dir: Option<PathBuf>, enabled: bool) -> (logger: Logger)
        ensures
            logger@.enabled == enabled,
            logger@.pending == Seq::<EntryView>::empty(),
            log_file_fits(logger@.log_file, output_dir, enabled),
    {
        Logger { log_file: log_file_now(output_dir, enabled), enabled, pending: Vec::new() }
    }

    /// Records `message` as handed over at the time `stamp`, if the logger
    /// is active: the entry goes behind those that are pending, bound for
    /// the logger's file.
    pub fn record(&mut self, stamp: String, message: &str)
        ensures
            final(self)@ == old(self)@.recorded(stamp@, message@),
    {
        if !self.enabled {
            return ;
        }
        match &self.log_file {
            None => {},
            Some(path) => {
                let ghost before = self.pending@;
                let entry = LogEntry {
                    file: path.clone(),
                    stamp,
                    message: String::from_str(message),
                };
                self.pending.push(entry);
                proof {
                    assert(entry_views(self.pending@) =~= entry_views(before).push(entry@));
                }
            },
        }
    }

    /// Whether messages are recorded at all.
    pub fn is_active(&self) -> (active: bool)
        ensures
            active == self@.active(),
    {
        self.enabled && self.log_file.is_some()
    }

    /// Records `message`, stamped with the present time, if the logger is
    /// active. The clock is read only then.
    pub fn log(&mut self, message: &str)
        ensures
            exists|stamp: Seq<char>|
                final(self)@ == #[trigger] old(self)@.recorded(stamp, message@),
            final(self)@.untimed() == old(self)@.untimed().logged(message@),
            final(self)@.keeps(old(self)@),
    {
        if self.is_active() {
            let stamp = local_time("%Y-%m-%d %H:%M:%S");
            proof {
                lemma_recorded_is_logged(self@, stamp@, message@);
                assert(self@.recorded(stamp@, message@).keeps(self@));
            }
            self.record(stamp, message);
        } else {
            proof {
                assert(self@ == self@.recorded(Seq::empty(), message@));
            }
        }
    }

    /// Records that `script` is about to be run on `filename`.
    pub fn log_start(&mut self, filename: &str, script: &str)
        ensures
            exists|stamp: Seq<char>|
                final(self)@ == #[trigger] old(self)@.recorded(
                    stamp,
                    start_message(filename@, script@),
                ),
            final(self)@.untimed() == old(self)@.untimed().logged(
                start_message(filename@, script@),
            ),
            final(self)@.keeps(old(self)@),
    {
        let mut message = String::from_str("Starting: ");
        message.append(filename);
        message.append(" with script: ");
        message.append(script);
        self.log(message.as_str());
    }

    /// Records that `filename` was processed.
    pub fn log_success(&mut self, filename: &str)
        ensures
            exists|stamp: Seq<char>|
                final(self)@ == #[trigger] old(self)@.recorded(stamp, success_message(filename@)),
            final(self)@.untimed() == old(self)@.untimed().logged(success_message(filename@)),
            final(self)@.keeps(old(self)@),
    {
        let mut message = String::from_str("Success: ");
        message.append(filename);
        self.log(message.as_str());
    }

    /// Records that processing `filename` failed with `error`.
    pub fn log_error(&mut self, filename: &str, error: &str)
        ensures
            exists|stamp: Seq<char>|
                final(self)@ == #[trigger] old(self)@.recorded(
                    stamp,
                    error_message(filename@, error@),
                ),
            final(self)@.untimed() == old(self)@.untimed().logged(error_message(filename@, error@)),
            final(self)@.keeps(old(self)@),
    {
        let mut message = String::from_str("Error: ");
        message.append(filename);
        message.append(" - ");
        message.append(error);
        self.log(message.as_str());
    }

    /// Turns logging on or off and points it at a new file in `output_dir`,
    /// named after the present time. Entries that are pending stay.
    pub fn update(&mut self, output_dir: Option<PathBuf>, enabled: bool)
        ensures
            final(self)@.enabled == enabled,
            final(self)@.pending == old(self)@.pending,
            log_file_fits(final(self)@.log_file, output_dir, enabled),
    {
        self.enabled = enabled;
        self.log_file = log_file_now(output_dir, enabled);
    }

    /// Hands over the entries that are due, oldest first, and forgets them.
    pub fn take_pending(&mut self) -> (entries: Vec<LogEntry>)
        ensures
            entry_views(entries@) == old(self)@.pending,
            final(self)@ == old(self)@.flushed(),
    {
        let mut entries: Vec<LogEntry> = Vec::new();
        std::mem::swap(&mut self.pending, &mut entries);
        proof {
            assert(entry_views(self.pending@) =~= Seq::<EntryView>::empty());
        }
        entries
    }

    /// Whether logging is switched on.
    pub fn is_enabled(&self) -> (enabled: bool)
        ensures
            enabled == self@.enabled,
    {
        self.enabled
    }

    /// The file that entries made now would go to, if any.
    pub fn log_file(&self) -> (log_file: Option<PathBuf>)
        ensures
            log_file == self@.log_file,
    {
        match &self.log_file {
            Some(path) => Some(path.clone()),
            None => None,
        }
    }
}

} // verus!
