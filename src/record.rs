use vstd::prelude::*;

verus! {

/// Severity of a log record, from least to most severe.
#[derive(Clone, Copy, Debug, PartialEq, Eq, Structural)]
pub enum Level {
    Trace,
    Verbose,
    Debug,
    Unspecified,
    Info,
    Warn,
    Error,
    Fatal,
    Assert,
}

/// The level named by its single upper-case letter; anything else is `Unspecified`.
pub open spec fn level_of_letter(s: Seq<char>) -> Level {
    if s.len() != 1 {
        Level::Unspecified
    } else if s[0] == 'T' {
        Level::Trace
    } else if s[0] == 'V' {
        Level::Verbose
    } else if s[0] == 'D' {
        Level::Debug
    } else if s[0] == 'I' {
        Level::Info
    } else if s[0] == 'W' {
        Level::Warn
    } else if s[0] == 'E' {
        Level::Error
    } else if s[0] == 'F' {
        Level::Fatal
    } else if s[0] == 'A' {
        Level::Assert
    } else {
        Level::Unspecified
    }
}

/// The letter that stands for a level in the rendered badge.
pub open spec fn badge_letter(l: Level) -> char {
    match l {
        Level::Trace => 'T',
        Level::Verbose => 'V',
        Level::Debug => 'D',
        Level::Unspecified => '-',
        Level::Info => 'I',
        Level::Warn => 'W',
        Level::Error => 'E',
        Level::Fatal => 'F',
        Level::Assert => 'A',
    }
}

/// The priority letter that `log -p` takes for a level.
pub open spec fn priority_letter(l: Level) -> char {
    match l {
        Level::Trace | Level::Verbose => 'v',
        Level::Debug | Level::Unspecified => 'd',
        Level::Info => 'i',
        Level::Warn => 'w',
        Level::Error | Level::Fatal | Level::Assert => 'e',
    }
}

impl Level {
    /// Parses a level from its letter (`"I"` is `Info`); any other text is `Unspecified`.
    pub fn from_letter(s: &str) -> (r: Level)
        ensures
            r == level_of_letter(s@),
    {
        if s.unicode_len() != 1 {
            return Level::Unspecified;
        }
        let c = s.get_char(0);
        if c == 'T' {
            Level::Trace
        } else if c == 'V' {
            Level::Verbose
        } else if c == 'D' {
            Level::Debug
        } else if c == 'I' {
            Level::Info
        } else if c == 'W' {
            Level::Warn
        } else if c == 'E' {
            Level::Error
        } else if c == 'F' {
            Level::Fatal
        } else if c == 'A' {
            Level::Assert
        } else {
            Level::Unspecified
        }
    }

    /// The letter shown in the level badge.
    pub fn badge(&self) -> (r: char)
        ensures
            r == badge_letter(*self),
    {
        match self {
            Level::Trace => 'T',
            Level::Verbose => 'V',
            Level::Debug => 'D',
            Level::Unspecified => '-',
            Level::Info => 'I',
            Level::Warn => 'W',
            Level::Error => 'E',
            Level::Fatal => 'F',
            Level::Assert => 'A',
        }
    }

    /// The priority letter handed to `log -p`.
    pub fn priority(&self) -> (r: char)
        ensures
            r == priority_letter(*self),
    {
        match self {
            Level::Trace | Level::Verbose => 'v',
            Level::Debug | Level::Unspecified => 'd',
            Level::Info => 'i',
            Level::Warn => 'w',
            Level::Error | Level::Fatal | Level::Assert => 'e',
        }
    }
}

/// Largest magnitude of seconds since the epoch that a timestamp may hold.
pub const MAX_SECONDS: i64 = 1_000_000_000_000;

/// Nanoseconds in one second.
pub const NANOS_PER_SECOND: u32 = 1_000_000_000;

/// A point in time: seconds since the Unix epoch (UTC) and the nanoseconds
/// within that second.
#[derive(Clone, Copy, Debug, PartialEq, Eq, Structural)]
pub struct Timestamp {
    pub seconds: i64,
    pub nanos: u32,
}

impl Timestamp {
    /// The nanoseconds lie within one second and the seconds within range.
    pub open spec fn wf(&self) -> bool {
        &&& self.nanos < NANOS_PER_SECOND
        &&& -MAX_SECONDS <= self.seconds <= MAX_SECONDS
    }

    /// The timestamp as a whole number of nanoseconds since the epoch.
    pub open spec fn total_nanos(&self) -> int {
        self.seconds * 1_000_000_000 + self.nanos
    }

    /// A timestamp, or `None` where the parts are out of range.
    pub fn new(seconds: i64, nanos: u32) -> (r: Option<Timestamp>)
        ensures
            r is Some <==> (Timestamp { seconds, nanos }).wf(),
            r is Some ==> r->0 == (Timestamp { seconds, nanos }),
    {
        if nanos < NANOS_PER_SECOND && -MAX_SECONDS <= seconds && seconds <= MAX_SECONDS {
            Some(Timestamp { seconds, nanos })
        } else {
            None
        }
    }
}

/// One structured log entry.
#[derive(Debug)]
pub struct Record {
    pub tag: String,
    pub message: String,
    pub level: Level,
    pub process: String,
    pub thread: String,
    pub timestamp: Option<Timestamp>,
}

impl Record {
    /// A carried timestamp is well formed.
    pub open spec fn wf(&self) -> bool {
        self.timestamp is Some ==> self.timestamp->0.wf()
    }
}

/// What a record source yields: a record, or the end of the stream.
#[derive(Debug)]
pub enum Message {
    Record(Record),
    Done,
}

} // verus!
