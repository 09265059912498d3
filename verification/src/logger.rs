//! The settings of the logger and the rule by which it lets a record pass.

use std::path::PathBuf;
use vstd::prelude::*;
use vstd::string::StringSliceAdditionalSpecFns;
use vstd::utf8::encode_utf8;

verus! {

/// Makes `std::path::PathBuf` known to the verifier as an opaque type: a path
/// is carried through and never looked into, and nothing is claimed of it.
#[verifier::external_type_specification]
#[verifier::external_body]
pub struct ExPathBuf(PathBuf);

/// How much the logger lets pass, as the user chooses it. `Full` lets pass
/// what `Trace` does, from every target.
#[derive(Clone, Copy, Debug, PartialEq, Eq, Structural)]
pub enum LogLevel {
    Off,
    Error,
    Warn,
    Info,
    Debug,
    Trace,
    Full,
}

/// The most verbose severity that is let pass.
#[derive(Clone, Copy, Debug, PartialEq, Eq, Structural)]
pub enum LevelFilter {
    Off,
    Error,
    Warn,
    Info,
    Debug,
    Trace,
}

/// The severity of one record.
#[derive(Clone, Copy, Debug, PartialEq, Eq, Structural)]
pub enum Level {
    Error,
    Warn,
    Info,
    Debug,
    Trace,
}

/// The stream that a record is printed to.
#[derive(Clone, Copy, Debug, PartialEq, Eq, Structural)]
pub enum MessageEventKind {
    Info,
    Error,
}

impl Default for LogLevel {
    fn default() -> (level: LogLevel)
        ensures
            level == LogLevel::Off,
    {
        LogLevel::Off
    }
}

impl LogLevel {
    /// The filter that the level stands for.
    pub open spec fn spec_filter(self) -> LevelFilter {
        match self {
            LogLevel::Off => LevelFilter::Off,
            LogLevel::Error => LevelFilter::Error,
            LogLevel::Warn => LevelFilter::Warn,
            LogLevel::Info => LevelFilter::Info,
            LogLevel::Debug => LevelFilter::Debug,
            LogLevel::Trace => LevelFilter::Trace,
            LogLevel::Full => LevelFilter::Trace,
        }
    }

    /// The filter that the level stands for.
    pub fn filter(self) -> (filter: LevelFilter)
        ensures
            filter == self.spec_filter(),
    {
        match self {
            LogLevel::Off => LevelFilter::Off,
            LogLevel::Error => LevelFilter::Error,
            LogLevel::Warn => LevelFilter::Warn,
            LogLevel::Info => LevelFilter::Info,
            LogLevel::Debug => LevelFilter::Debug,
            LogLevel::Trace | LogLevel::Full => LevelFilter::Trace,
        }
    }

    /// Whether records of every target pass, whatever the prefixes.
    pub fn is_full(self) -> (full: bool)
        ensures
            full == (self == LogLevel::Full),
    {
        match self {
            LogLevel::Full => true,
            _ => false,
        }
    }
}

impl LevelFilter {
    /// The place of the filter in the order from silent to verbose.
    pub open spec fn rank(self) -> nat {
        match self {
            LevelFilter::Off => 0,
            LevelFilter::Error => 1,
            LevelFilter::Warn => 2,
            LevelFilter::Info => 3,
            LevelFilter::Debug => 4,
            LevelFilter::Trace => 5,
        }
    }

    /// Whether the filter lets a record of severity `level` pass: the
    /// severity is no more verbose than the filter.
    pub fn allows(self, level: Level) -> (allowed: bool)
        ensures
            allowed == (level.rank() <= self.rank()),
    {
        let filter_rank: u8 = match self {
            LevelFilter::Off => 0,
            LevelFilter::Error => 1,
            LevelFilter::Warn => 2,
            LevelFilter::Info => 3,
            LevelFilter::Debug => 4,
            LevelFilter::Trace => 5,
        };
        let level_rank: u8 = match level {
            Level::Error => 1,
            Level::Warn => 2,
            Level::Info => 3,
            Level::Debug => 4,
            Level::Trace => 5,
        };
        level_rank <= filter_rank
    }
}

impl Level {
    /// The place of the severity in the order from grave to verbose.
    pub open spec fn rank(self) -> nat {
        match self {
            Level::Error => 1,
            Level::Warn => 2,
            Level::Info => 3,
            Level::Debug => 4,
            Level::Trace => 5,
        }
    }

    /// The stream for a record of this severity: errors and warnings go to
    /// the error stream, the rest to the ordinary one.
    pub fn event_kind(self) -> (kind: MessageEventKind)
        ensures
            kind == if self == Level::Error || self == Level::Warn {
                MessageEventKind::Error
            } else {
                MessageEventKind::Info
            },
    {
        match self {
            Level::Error | Level::Warn => MessageEventKind::Error,
            _ => MessageEventKind::Info,
        }
    }
}

/// Whether the text `target` starts with the text `prefix`: the bytes of the
/// one, in UTF-8, begin the bytes of the other.
pub open spec fn spec_has_prefix(target: Seq<char>, prefix: Seq<char>) -> bool {
    encode_utf8(prefix).is_prefix_of(encode_utf8(target))
}

/// Whether `target` starts with `prefix`.
pub fn has_prefix(target: &str, prefix: &str) -> (found: bool)
    ensures
        found == spec_has_prefix(target@, prefix@),
{
    let target_bytes = target.as_bytes();
    let prefix_bytes = prefix.as_bytes();
    if prefix_bytes.len() > target_bytes.len() {
        return false;
    }
    let mut i: usize = 0;
    while i < prefix_bytes.len()
        invariant
            i <= prefix_bytes@.len() <= target_bytes@.len(),
            prefix_bytes@ == encode_utf8(prefix@),
            target_bytes@ == encode_utf8(target@),
            prefix_bytes@.subrange(0, i as int) == target_bytes@.subrange(0, i as int),
        decreases prefix_bytes@.len() - i,
    {
        if prefix_bytes[i] != target_bytes[i] {
            assert(prefix_bytes@[i as int] != target_bytes@.subrange(
                0,
                prefix_bytes@.len() as int,
            )[i as int]);
            return false;
        }
        i = i + 1;
        assert(prefix_bytes@.subrange(0, i as int) =~= target_bytes@.subrange(0, i as int));
    }
    assert(prefix_bytes@.subrange(0, i as int) =~= prefix_bytes@);
    true
}

/// Whether one of `prefixes` begins `target`.
pub open spec fn spec_any_prefix(prefixes: Seq<String>, target: Seq<char>) -> bool {
    exists|i: int| 0 <= i < prefixes.len() && spec_has_prefix(target, (#[trigger] prefixes[i])@)
}

/// Whether one of `prefixes` begins `target`.
pub fn any_prefix(prefixes: &Vec<String>, target: &str) -> (found: bool)
    ensures
        found == spec_any_prefix(prefixes@, target@),
{
    let mut i: usize = 0;
    while i < prefixes.len()
        invariant
            i <= prefixes@.len(),
            forall|j: int| 0 <= j < i ==> !spec_has_prefix(target@, (#[trigger] prefixes@[j])@),
        decreases prefixes@.len() - i,
    {
        if has_prefix(target, prefixes[i].as_str()) {
            return true;
        }
        i = i + 1;
    }
    false
}

/// What a logger is built from: where it writes, how much it lets pass, and
/// the target prefixes it is limited to.
pub struct LoggerBuilder {
    pub path: Option<PathBuf>,
    pub level: LogLevel,
    pub prefixes: Vec<String>,
}

impl LoggerBuilder {
    /// A builder with no file, level `Off` and no prefix.
    pub fn new() -> (builder: LoggerBuilder)
        ensures
            builder.path is None,
            builder.level == LogLevel::Off,
            builder.prefixes@.len() == 0,
    {
        LoggerBuilder { path: None, level: LogLevel::Off, prefixes: Vec::new() }
    }

    /// Sets or clears the directory of the log files.
    pub fn path_option(self, path: Option<PathBuf>) -> (builder: LoggerBuilder)
        ensures
            builder.path == path,
            builder.level == self.level,
            builder.prefixes == self.prefixes,
    {
        LoggerBuilder { path, level: self.level, prefixes: self.prefixes }
    }

    /// Sets the directory of the log files.
    pub fn path(self, path: PathBuf) -> (builder: LoggerBuilder)
        ensures
            builder.path == Some(path),
            builder.level == self.level,
            builder.prefixes == self.prefixes,
    {
        LoggerBuilder { path: Some(path), level: self.level, prefixes: self.prefixes }
    }

    /// Sets the level.
    pub fn level(self, level: LogLevel) -> (builder: LoggerBuilder)
        ensures
            builder.path == self.path,
            builder.level == level,
            builder.prefixes == self.prefixes,
    {
        LoggerBuilder { path: self.path, level, prefixes: self.prefixes }
    }

    /// Adds one target prefix after those already there.
    pub fn prefix(self, prefix: String) -> (builder: LoggerBuilder)
        ensures
            builder.path == self.path,
            builder.level == self.level,
            builder.prefixes@ == self.prefixes@.push(prefix),
    {
        let mut prefixes = self.prefixes;
        prefixes.push(prefix);
        LoggerBuilder { path: self.path, level: self.level, prefixes }
    }
}

/// What a logger decides by: the filter that its level stands for, whether
/// its level is `Full`, and the target prefixes it is limited to.
pub struct LogFilter {
    pub level_filter: LevelFilter,
    pub full_logs: bool,
    pub prefixes: Vec<String>,
}

impl LogFilter {
    /// The filter of a logger with this level and these prefixes.
    pub fn new(level: LogLevel, prefixes: Vec<String>) -> (filter: LogFilter)
        ensures
            filter.level_filter == level.spec_filter(),
            filter.full_logs == (level == LogLevel::Full),
            filter.prefixes == prefixes,
    {
        LogFilter { level_filter: level.filter(), full_logs: level.is_full(), prefixes }
    }

    /// Whether a record of severity `level` from `target` passes: the
    /// severity passes the level filter, and the target starts with one of
    /// the prefixes, unless there is none or the level is `Full`.
    pub open spec fn spec_enabled(self, target: Seq<char>, level: Level) -> bool {
        &&& self.full_logs || self.prefixes@.len() == 0 || spec_any_prefix(self.prefixes@, target)
        &&& level.rank() <= self.level_filter.rank()
    }

    /// Whether a record of severity `level` from `target` passes.
    pub fn enabled(&self, target: &str, level: Level) -> (enabled: bool)
        ensures
            enabled == self.spec_enabled(target@, level),
    {
        (self.full_logs || self.prefixes.len() == 0 || any_prefix(&self.prefixes, target))
            && self.level_filter.allows(level)
    }
}

} // verus!
