use vstd::prelude::*;
use crate::record::{level_of_letter, priority_letter, Level, Message, Record};

verus! {

/// `s` between double quotes, as one shell word.
pub open spec fn quoted(s: Seq<char>) -> Seq<char> {
    seq!['"'] + s + seq!['"']
}

/// Arguments to `adb` that write a message to the device log:
/// `shell log -p <priority> -t "<tag>" <message>`.
pub open spec fn log_args(level: Level, tag: Seq<char>, message: Seq<char>) -> Seq<Seq<char>> {
    seq!["shell"@, "log"@, "-p"@, seq![priority_letter(level)], "-t"@, quoted(tag), message]
}

/// The views of a list of strings.
pub open spec fn views(v: Seq<String>) -> Seq<Seq<char>> {
    Seq::new(v.len(), |i: int| v[i]@)
}

/// Arguments to `adb` that write `message` to the device log with this
/// level and tag.
pub fn command_args(level: Level, tag: &str, message: &str) -> (r: Vec<String>)
    ensures
        r@.len() == 7,
        views(r@) == log_args(level, tag@, message@),
{
    let mut q: Vec<char> = Vec::new();
    q.push('"');
    let tag_chars = crate::text::chars_of(tag);
    let mut i: usize = 0;
    while i < tag_chars.len()
        invariant
            i <= tag_chars@.len(),
            q@ == seq!['"'] + tag_chars@.take(i as int),
        decreases tag_chars@.len() - i,
    {
        q.push(tag_chars[i]);
        i = i + 1;
        assert(q@ =~= seq!['"'] + tag_chars@.take(i as int));
    }
    q.push('"');
    assert(tag_chars@.take(i as int) =~= tag_chars@);
    assert(q@ =~= quoted(tag@));
    let p: Vec<char> = vec![level.priority()];
    assert(p@ =~= seq![priority_letter(level)]);
    let mut r: Vec<String> = Vec::new();
    r.push(String::from_str("shell"));
    r.push(String::from_str("log"));
    r.push(String::from_str("-p"));
    r.push(crate::text::string_of(&p));
    r.push(String::from_str("-t"));
    r.push(crate::text::string_of(&q));
    r.push(message.to_owned());
    assert(views(r@) =~= log_args(level, tag@, message@));
    r
}

/// A sink that writes each record to the device log with the record's own
/// level, tag and message. It keeps no state between records.
pub struct Logger {}

impl Logger {
    /// A sink.
    pub fn new() -> (r: Logger) {
        Logger {}
    }

    /// The priority letter handed to `log -p` for a level.
    pub fn level(level: &Level) -> (r: char)
        ensures
            r == priority_letter(*level),
    {
        level.priority()
    }

    /// The command to run for a message: the `adb` arguments for a record,
    /// nothing for the end of the stream.
    pub fn start_send(&self, item: &Message) -> (r: Option<Vec<String>>)
        ensures
            item is Done ==> r is None,
            item is Record ==> r is Some && r->0@.len() == 7 && views(r->0@) == log_args(
                item->Record_0.level,
                item->Record_0.tag@,
                item->Record_0.message@,
            ),
    {
        match item {
            Message::Record(rec) => Some(command_args(rec.level, rec.tag.as_str(), rec.message.as_str())),
            Message::Done => None,
        }
    }
}

/// Whether records are read from standard input or one message is written.
#[derive(Clone, Copy, Debug, PartialEq, Eq, Structural)]
pub enum Mode {
    Stream,
    Once,
}

/// The tag used where none is given.
pub open spec fn default_tag() -> Seq<char> {
    "Rogcat"@
}

/// What to log, from the command line's message, tag and level.
pub struct Request {
    pub mode: Mode,
    pub message: String,
    pub tag: String,
    pub level: Level,
}

/// The text of an optional argument, empty where it is missing.
pub open spec fn or_empty(s: Option<&str>) -> Seq<char> {
    match s {
        Some(t) => t@,
        None => Seq::empty(),
    }
}

impl Request {
    /// A request: the message `-` asks for streaming, any other (or none)
    /// for one message; the tag defaults to `Rogcat`; the level is parsed
    /// from its letter.
    pub fn from_args(message: Option<&str>, tag: Option<&str>, level: Option<&str>) -> (r: Request)
        ensures
            r.message@ == or_empty(message),
            r.mode == (if or_empty(message) == seq!['-'] { Mode::Stream } else { Mode::Once }),
            r.tag@ == (match tag {
                Some(t) => t@,
                None => default_tag(),
            }),
            r.level == level_of_letter(or_empty(level)),
    {
        let message: String = match message {
            Some(m) => m.to_owned(),
            None => String::new(),
        };
        let tag: String = match tag {
            Some(t) => t.to_owned(),
            None => String::from_str("Rogcat"),
        };
        let level: Level = match level {
            Some(l) => Level::from_letter(l),
            None => Level::Unspecified,
        };
        let stream = message.as_str().unicode_len() == 1 && message.as_str().get_char(0) == '-';
        assert(stream <==> message@ == seq!['-']) by {
            if message@.len() == 1 && message@[0] == '-' {
                assert(message@ =~= seq!['-']);
            }
        }
        Request { mode: if stream { Mode::Stream } else { Mode::Once }, message, tag, level }
    }

    /// A record read in streaming mode: the line as its message, under the
    /// request's tag and level, with no process, thread or timestamp.
    pub fn record_for(&self, line: String) -> (r: Record)
        ensures
            r.message@ == line@,
            r.tag@ == self.tag@,
            r.level == self.level,
            r.process@.len() == 0,
            r.thread@.len() == 0,
            r.timestamp is None,
            r.wf(),
    {
        Record {
            tag: self.tag.clone(),
            message: line,
            level: self.level,
            process: String::new(),
            thread: String::new(),
            timestamp: None,
        }
    }

    /// The `adb` arguments that write the request's one message.
    pub fn once_args(&self) -> (r: Vec<String>)
        ensures
            r@.len() == 7,
            views(r@) == log_args(self.level, self.tag@, self.message@),
    {
        command_args(self.level, self.tag.as_str(), self.message.as_str())
    }
}

} // verus!
