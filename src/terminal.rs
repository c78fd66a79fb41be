use vstd::prelude::*;
use crate::color::{hashed_color, text_color};
use crate::layout::{
    lemma_wrap_round_trip, wraps, marker_glyph, align_left, align_right, format_seconds, message_lines, pad_left, pad_right, seconds_text,
    wrap_message, Chunk,
};
use crate::record::{badge_letter, Level, Record, Timestamp};
use crate::stamps::TagTimes;
use crate::text::{chars_of, string_of};

verus! {

/// Whether a regular expression compiles.
pub uninterp spec fn regex_valid(pattern: Seq<char>) -> bool;

/// Whether a regular expression matches somewhere in a text.
pub uninterp spec fn regex_is_match(pattern: Seq<char>, text: Seq<char>) -> bool;

/// A text with every match of a regular expression replaced.
pub uninterp spec fn regex_replace_all(pattern: Seq<char>, text: Seq<char>, replacement: Seq<char>) -> Seq<char>;

/// A UTC time, given as seconds and nanoseconds since the epoch, written
/// after a `strftime` format; `None` where the format is not valid.
pub uninterp spec fn strftime_utc(format: Seq<char>, seconds: i64, nanos: u32) -> Option<Seq<char>>;

/// Relies on `regex::Regex::new` (whether the pattern compiles) and
/// `regex::Regex::is_match` (whether it matches anywhere in the text).
#[verifier::external_body]
fn regex_matches(pattern: &str, text: &str) -> (r: Option<bool>)
    ensures
        r is Some <==> regex_valid(pattern@),
        r is Some ==> r->0 == regex_is_match(pattern@, text@),
{
    match regex::Regex::new(pattern) {
        Ok(re) => Some(re.is_match(text)),
        Err(_) => None,
    }
}

/// Relies on `regex::Regex::new` (whether the pattern compiles) and
/// `regex::Regex::replace_all` (the text with every match replaced).
#[verifier::external_body]
fn regex_replace(pattern: &str, text: &str, replacement: &str) -> (r: Option<String>)
    ensures
        r is Some <==> regex_valid(pattern@),
        r is Some ==> r->0@ == regex_replace_all(pattern@, text@, replacement@),
{
    match regex::Regex::new(pattern) {
        Ok(re) => Some(re.replace_all(text, replacement).into_owned()),
        Err(_) => None,
    }
}

/// Relies on `time::Timespec::new` and `time::at_utc` (the broken-down UTC
/// time of an instant) and `time::strftime` (that time written after a
/// format, or an error for an invalid format).
/// `at_utc` hands the seconds to the C library as `time_t`; this assumes a
/// 64-bit `time_t`, on which every seconds value that `Timestamp::wf` admits
/// converts without loss and `gmtime_r` succeeds.
#[verifier::external_body]
fn format_utc(format: &str, ts: Timestamp) -> (r: Option<String>)
    requires
        ts.wf(),
    ensures
        r is Some <==> strftime_utc(format@, ts.seconds, ts.nanos) is Some,
        r is Some ==> r->0@ == strftime_utc(format@, ts.seconds, ts.nanos)->0,
{
    let tm = time::at_utc(time::Timespec::new(ts.seconds, ts.nanos as i32));
    time::strftime(format, &tm).ok()
}

/// Colour bucket of a level's badge and text.
#[derive(Clone, Copy, Debug, PartialEq, Eq, Structural)]
pub enum LevelColor {
    Dim,
    Green,
    Yellow,
    Red,
}

/// The colour bucket of a level.
pub open spec fn level_color_of(l: Level) -> LevelColor {
    match l {
        Level::Trace | Level::Verbose | Level::Debug | Level::Unspecified => LevelColor::Dim,
        Level::Info => LevelColor::Green,
        Level::Warn => LevelColor::Yellow,
        Level::Error | Level::Fatal | Level::Assert => LevelColor::Red,
    }
}

/// The colour bucket of a level.
pub fn level_color(l: Level) -> (r: LevelColor)
    ensures
        r == level_color_of(l),
{
    match l {
        Level::Trace | Level::Verbose | Level::Debug | Level::Unspecified => LevelColor::Dim,
        Level::Info => LevelColor::Green,
        Level::Warn => LevelColor::Yellow,
        Level::Error | Level::Fatal | Level::Assert => LevelColor::Red,
    }
}

/// The timestamp text before padding: the formatted time cut to `width`
/// characters, or nothing where there is no timestamp or formatting fails.
pub open spec fn timestamp_text(format: Seq<char>, width: nat, ts: Option<Timestamp>) -> Seq<char> {
    match ts {
        Some(t) => cut_text(strftime_utc(format, t.seconds, t.nanos), width),
        None => Seq::empty(),
    }
}

/// Whole milliseconds from `prev` to `cur`, rounded toward zero.
pub open spec fn millis_between(prev: Timestamp, cur: Timestamp) -> int {
    let d = cur.total_nanos() - prev.total_nanos();
    if d >= 0 {
        d / 1_000_000
    } else {
        -((-d) / 1_000_000)
    }
}

/// Shown where the time since the previous entry does not fit its column.
pub open spec fn diff_placeholder() -> Seq<char> {
    seq!['-', '.', '-', '-', '-']
}

/// The time-difference text before padding: empty unless the difference is
/// shown, the record has a timestamp and its tag one from before; then the
/// seconds with three decimals, or the placeholder where they are wider than
/// `width`.
pub open spec fn diff_text(enabled: bool, prev: Option<Timestamp>, cur: Option<Timestamp>, width: nat) -> Seq<char> {
    if enabled && prev is Some && cur is Some {
        let s = seconds_text(millis_between(prev->0, cur->0));
        if s.len() <= width {
            s
        } else {
            diff_placeholder()
        }
    } else {
        Seq::empty()
    }
}

/// Whether a message marks the beginning of a log buffer.
pub open spec fn is_beginning(message: Seq<char>) -> bool {
    regex_valid("^--------- beginning of"@) && regex_is_match("^--------- beginning of"@, message)
}

/// The tag shown for a record: a buffer-beginning message stands in its own tag column.
pub open spec fn shown_tag(tag: Seq<char>, message: Seq<char>) -> Seq<char> {
    if is_beginning(message) {
        message
    } else {
        tag
    }
}

/// A tag fitted to `w` characters: unless shortening is off or it fits,
/// lower-case vowels are removed, then what is still too long is cut.
pub open spec fn shortened(t: Seq<char>, w: nat, full: bool) -> Seq<char> {
    fitted(t, if regex_valid("a|e|i|o|u"@) { regex_replace_all("a|e|i|o|u"@, t, ""@) } else { t }, w, full)
}

/// The thread column: nothing for an empty thread, else a space and the
/// thread aligned right to `w`.
pub open spec fn thread_text(thread: Seq<char>, w: nat) -> Seq<char> {
    if thread.len() == 0 {
        Seq::empty()
    } else {
        seq![' '] + align_right(thread, w)
    }
}

/// The level badge: the level's letter between two spaces.
pub open spec fn badge_text(l: Level) -> Seq<char> {
    seq![' ', badge_letter(l), ' ']
}

/// The larger of two widths.
pub open spec fn wider(a: nat, b: nat) -> nat {
    if a >= b {
        a
    } else {
        b
    }
}


/// The preamble width handed to wrapping, held to what a `usize` can hold.
pub open spec fn capped(n: nat) -> usize {
    if n <= usize::MAX {
        n as usize
    } else {
        usize::MAX
    }
}


/// Whole milliseconds from `prev` to `cur`, rounded toward zero.
pub fn elapsed_millis(prev: Timestamp, cur: Timestamp) -> (r: i128)
    requires
        prev.wf(),
        cur.wf(),
    ensures
        r == millis_between(prev, cur),
        -4_000_000_000_000_000 <= r <= 4_000_000_000_000_000,
{
    let d: i128 = (cur.seconds as i128 - prev.seconds as i128) * 1_000_000_000
        + (cur.nanos as i128 - prev.nanos as i128);
    assert(d == cur.total_nanos() - prev.total_nanos());
    if d >= 0 {
        d / 1_000_000
    } else {
        -((-d) / 1_000_000)
    }
}

/// The time-difference column before padding (see `diff_text`).
pub fn diff_field(enabled: bool, prev: Option<Timestamp>, cur: Option<Timestamp>, width: usize) -> (r: Vec<char>)
    requires
        prev is Some ==> prev->0.wf(),
        cur is Some ==> cur->0.wf(),
    ensures
        r@ == diff_text(enabled, prev, cur, width as nat),
{
    match (prev, cur) {
        (Some(p), Some(c)) => {
            if enabled {
                let s = format_seconds(elapsed_millis(p, c));
                if s.len() <= width {
                    s
                } else {
                    let r: Vec<char> = vec!['-', '.', '-', '-', '-'];
                    assert(r@ =~= diff_placeholder());
                    r
                }
            } else {
                Vec::new()
            }
        },
        _ => Vec::new(),
    }
}

/// A formatted time cut to `width` characters; nothing where formatting failed.
pub open spec fn cut_text(formatted: Option<Seq<char>>, width: nat) -> Seq<char> {
    match formatted {
        Some(s) => if s.len() <= width { s } else { s.take(width as int) },
        None => Seq::empty(),
    }
}

/// Cuts a formatted time to `width` characters; nothing where formatting failed.
pub fn cut_timestamp(formatted: Option<&str>, width: usize) -> (r: Vec<char>)
    ensures
        r@ == cut_text(
            match formatted {
                Some(s) => Some(s@),
                None => None,
            },
            width as nat,
        ),
{
    match formatted {
        Some(s) => {
            if s.unicode_len() <= width {
                chars_of(s)
            } else {
                let cut = s.substring_char(0, width);
                assert(cut@ =~= s@.take(width as int));
                chars_of(cut)
            }
        },
        None => Vec::new(),
    }
}

/// The timestamp column before padding (see `timestamp_text`).
pub fn timestamp_field(format: &str, width: usize, ts: Option<Timestamp>) -> (r: Vec<char>)
    requires
        ts is Some ==> ts->0.wf(),
    ensures
        r@ == timestamp_text(format@, width as nat, ts),
{
    match ts {
        Some(t) => match format_utc(format, t) {
            Some(s) => cut_timestamp(Some(s.as_str()), width),
            None => cut_timestamp(None, width),
        },
        None => Vec::new(),
    }
}

/// Whether a message marks the beginning of a log buffer.
pub fn beginning_of(message: &str) -> (r: bool)
    ensures
        r == is_beginning(message@),
{
    match regex_matches("^--------- beginning of", message) {
        Some(b) => b,
        None => false,
    }
}

/// A tag fitted to a column `w` wide: kept where shortening is off or it
/// fits, else `stripped` (the tag without vowels), cut to `w` characters.
pub open spec fn fitted(t: Seq<char>, stripped: Seq<char>, w: nat, full: bool) -> Seq<char> {
    if full || t.len() <= w {
        t
    } else if stripped.len() > w {
        stripped.take(w as int)
    } else {
        stripped
    }
}

/// Fits a tag to a column `w` wide and aligns it right, given the tag with
/// its vowels removed.
pub fn fit_tag(t: &str, stripped: &str, w: usize, full: bool) -> (r: Vec<char>)
    ensures
        r@ == align_right(fitted(t@, stripped@, w as nat, full), w as nat),
{
    let base: Vec<char> = if full || t.unicode_len() <= w {
        chars_of(t)
    } else if stripped.unicode_len() > w {
        let cut = stripped.substring_char(0, w);
        assert(cut@ =~= stripped@.take(w as int));
        chars_of(cut)
    } else {
        chars_of(stripped)
    };
    pad_left(&base, w)
}

/// A tag fitted to and aligned right in a column `w` wide (see `shortened`).
pub fn shorten_tag(t: &str, w: usize, full: bool) -> (r: Vec<char>)
    ensures
        r@ == align_right(shortened(t@, w as nat, full), w as nat),
{
    let s: String = match regex_replace("a|e|i|o|u", t, "") {
        Some(s) => s,
        None => t.to_owned(),
    };
    fit_tag(t, s.as_str(), w, full)
}

/// The thread column (see `thread_text`).
pub fn thread_field(thread: &str, w: usize) -> (r: Vec<char>)
    ensures
        r@ == thread_text(thread@, w as nat),
{
    if thread.is_empty() {
        Vec::new()
    } else {
        let padded = pad_left(&chars_of(thread), w);
        let mut r: Vec<char> = Vec::new();
        r.push(' ');
        let mut i: usize = 0;
        while i < padded.len()
            invariant
                i <= padded@.len(),
                r@ == seq![' '] + padded@.take(i as int),
            decreases padded@.len() - i,
        {
            r.push(padded[i]);
            i = i + 1;
            assert(r@ =~= seq![' '] + padded@.take(i as int));
        }
        assert(padded@.take(i as int) =~= padded@);
        r
    }
}

/// What is printed for one record: an optional full-width rule, then one
/// line per chunk of the message, each after the same preamble fields.
pub struct Rendering {
    /// A horizontal rule as wide as the terminal comes first.
    pub rule: bool,
    pub timestamp: String,
    pub diff: String,
    pub tag: String,
    pub pid: String,
    pub tid: String,
    pub level: String,
    pub tag_color: u16,
    pub pid_color: u16,
    pub tid_color: u16,
    pub level_color: LevelColor,
    pub chunks: Vec<Chunk>,
}

impl Rendering {
    /// Columns taken before the chunk on every line: the timestamp,
    /// difference, tag, process, thread and level fields as rendered, the
    /// separating spaces, the parentheses and the marker glyph.
    pub open spec fn preamble(&self) -> nat {
        self.timestamp@.len() + self.diff@.len() + self.tag@.len() + self.pid@.len() + self.tid@.len()
            + self.level@.len() + 9
    }

    /// The uncoloured text of line `i`: timestamp, difference and tag
    /// columns, process and thread in parentheses, level badge, marker glyph
    /// and the chunk, separated by single spaces.
    pub open spec fn line_text(&self, i: int) -> Seq<char> {
        self.timestamp@ + seq![' '] + self.diff@ + seq![' '] + self.tag@ + seq![' ', '('] + self.pid@
            + self.tid@ + seq![')', ' '] + self.level@ + seq![' ', marker_glyph(self.chunks@[i].marker), ' ']
            + self.chunks@[i].text@
    }

    /// The uncoloured text of line `i`.
    pub fn line(&self, i: usize) -> (r: String)
        requires
            i < self.chunks@.len(),
        ensures
            r@ == self.line_text(i as int),
    {
        let mut v: Vec<char> = Vec::new();
        push_str(&mut v, self.timestamp.as_str());
        v.push(' ');
        push_str(&mut v, self.diff.as_str());
        v.push(' ');
        push_str(&mut v, self.tag.as_str());
        v.push(' ');
        v.push('(');
        push_str(&mut v, self.pid.as_str());
        push_str(&mut v, self.tid.as_str());
        v.push(')');
        v.push(' ');
        push_str(&mut v, self.level.as_str());
        v.push(' ');
        v.push(self.chunks[i].marker.glyph());
        v.push(' ');
        push_str(&mut v, self.chunks[i].text.as_str());
        assert(v@ =~= self.line_text(i as int));
        string_of(&v)
    }
}

/// Where a message wraps, every printed line fits the terminal: the
/// preamble and a chunk no wider than the room the preamble leaves.
proof fn lemma_lines_fit(r: &Rendering, m: Seq<char>, columns: Option<usize>)
    requires
        r.chunks@.len() == message_lines(m, columns, capped(r.preamble())).len(),
        forall|i: int| 0 <= i < r.chunks@.len() ==> (#[trigger] r.chunks@[i])@ == message_lines(m, columns, capped(r.preamble()))[i],
    ensures
        wraps(m.len(), columns, capped(r.preamble())) ==> forall|i: int| 0 <= i < r.chunks@.len() ==> (#[trigger] r.line_text(i)).len() <= columns->0,
{
    lemma_wrap_round_trip(m, columns, capped(r.preamble()));
    if wraps(m.len(), columns, capped(r.preamble())) {
        assert forall|i: int| 0 <= i < r.chunks@.len() implies (#[trigger] r.line_text(i)).len() <= columns->0 by {
            let lines = message_lines(m, columns, capped(r.preamble()));
            assert(capped(r.preamble()) == r.preamble());
            assert(r.chunks@[i]@ == lines[i]);
            assert(lines[i].1.len() <= columns->0 - capped(r.preamble()));
            assert(r.line_text(i).len() == r.preamble() + r.chunks@[i].text@.len());
        }
    }
}

/// Appends the characters of `s` to `v`.
fn push_str(v: &mut Vec<char>, s: &str)
    ensures
        final(v)@ == old(v)@ + s@,
{
    let c = chars_of(s);
    let mut i: usize = 0;
    while i < c.len()
        invariant
            i <= c@.len(),
            v@ == old(v)@ + c@.take(i as int),
        decreases c@.len() - i,
    {
        v.push(c[i]);
        i = i + 1;
        assert(v@ =~= old(v)@ + c@.take(i as int));
    }
    assert(c@.take(i as int) =~= c@);
}

/// The widest of `w0` and the lengths of the identifiers seen, one record
/// after another, as `Terminal::render` keeps it.
pub open spec fn widest(w0: nat, seen: Seq<Seq<char>>) -> nat
    decreases seen.len(),
{
    if seen.len() == 0 {
        w0
    } else {
        wider(widest(w0, seen.drop_last()), seen.last().len())
    }
}

/// The process identifiers of a run of records.
pub open spec fn process_views(records: Seq<Record>) -> Seq<Seq<char>> {
    Seq::new(records.len(), |i: int| records[i].process@)
}

/// The thread identifiers of a run of records.
pub open spec fn thread_views(records: Seq<Record>) -> Seq<Seq<char>> {
    Seq::new(records.len(), |i: int| records[i].thread@)
}

/// Over any run of records, a column width never shrinks, and after each
/// record it is at least the length of every identifier seen so far.
pub proof fn lemma_widths_grow(w0: nat, seen: Seq<Seq<char>>)
    ensures
        widest(w0, seen) >= w0,
        forall|i: int| 0 <= i < seen.len() ==> (#[trigger] seen[i]).len() <= widest(w0, seen),
        forall|i: int, j: int| 0 <= i <= j <= seen.len() ==> widest(w0, #[trigger] seen.take(i)) <= widest(w0, #[trigger] seen.take(j)),
    decreases seen.len(),
{
    if seen.len() > 0 {
        let front = seen.drop_last();
        lemma_widths_grow(w0, front);
        assert forall|i: int| 0 <= i < seen.len() implies (#[trigger] seen[i]).len() <= widest(w0, seen) by {
            if i < seen.len() - 1 {
                assert(seen[i] == front[i]);
            }
        }
        assert forall|i: int, j: int| 0 <= i <= j <= seen.len() implies widest(w0, #[trigger] seen.take(i)) <= widest(w0, #[trigger] seen.take(j)) by {
            assert(seen.take(seen.len() as int) =~= seen);
            if j < seen.len() {
                assert(seen.take(i) =~= front.take(i));
                assert(seen.take(j) =~= front.take(j));
            } else if i < seen.len() {
                assert(seen.take(i) =~= front.take(i));
                assert(front.take(front.len() as int) =~= front);
            }
        }
    }
}

/// How a terminal renders records.
pub struct Options {
    /// Paint fields in colour.
    pub color: bool,
    /// `strftime` format of the timestamp column.
    pub date_format: String,
    /// Width of the timestamp column.
    pub date_width: usize,
    /// Show tags whole instead of shortening them.
    pub full_tag: bool,
    /// Width of the tag column.
    pub tag_width: usize,
    /// Show the time since the previous record with the same tag.
    pub time_diff: bool,
    /// Width of the time-difference column.
    pub diff_width: usize,
}

impl Options {
    /// Colour, month-day timestamps 18 wide, a difference column 8 wide, a
    /// tag column 20 wide, with tag shortening and time differences on.
    pub fn new() -> (r: Options)
        ensures
            r.color,
            r.date_format@ == "%m-%d %H:%M:%S.%f"@,
            r.date_width == 18,
            !r.full_tag,
            r.tag_width == 20,
            r.time_diff,
            r.diff_width == 8,
    {
        Options {
            color: true,
            date_format: String::from_str("%m-%d %H:%M:%S.%f"),
            date_width: 18,
            full_tag: false,
            tag_width: 20,
            time_diff: true,
            diff_width: 8,
        }
    }
}

/// Renders records for a terminal, keeping the column widths seen so far and
/// the last timestamp of each tag.
pub struct Terminal {
    options: Options,
    process_width: usize,
    thread_width: usize,
    tag_timestamps: TagTimes,
}

impl Terminal {
    /// The table is well formed and holds only valid timestamps.
    pub closed spec fn wf(&self) -> bool {
        &&& self.tag_timestamps.wf()
        &&& forall|k: Seq<char>| #[trigger] self.tag_timestamps@.contains_key(k) ==> self.tag_timestamps@[k].wf()
    }

    /// How this terminal renders.
    pub closed spec fn spec_options(&self) -> Options {
        self.options
    }

    /// Widest process identifier so far.
    pub closed spec fn spec_process_width(&self) -> nat {
        self.process_width as nat
    }

    /// Widest thread identifier so far.
    pub closed spec fn spec_thread_width(&self) -> nat {
        self.thread_width as nat
    }

    /// The last timestamp of each tag.
    pub closed spec fn stamps(&self) -> Map<Seq<char>, Timestamp> {
        self.tag_timestamps@
    }

    /// The previous timestamp of a tag, if any.
    pub open spec fn previous(&self, tag: Seq<char>) -> Option<Timestamp> {
        if self.stamps().contains_key(tag) {
            Some(self.stamps()[tag])
        } else {
            None
        }
    }

    /// A renderer with the given options, no widths and no timestamps seen.
    pub fn with_options(options: Options) -> (r: Terminal)
        ensures
            r.wf(),
            r.spec_options() == options,
            r.spec_process_width() == 0,
            r.spec_thread_width() == 0,
            r.stamps() == Map::<Seq<char>, Timestamp>::empty(),
    {
        Terminal { options, process_width: 0, thread_width: 0, tag_timestamps: TagTimes::new() }
    }

    /// A renderer with the default options.
    pub fn new() -> (r: Terminal)
        ensures
            r.wf(),
            r.spec_options().color,
            r.spec_options().date_format@ == "%m-%d %H:%M:%S.%f"@,
            r.spec_options().date_width == 18,
            !r.spec_options().full_tag,
            r.spec_options().tag_width == 20,
            r.spec_options().time_diff,
            r.spec_options().diff_width == 8,
            r.spec_process_width() == 0,
            r.spec_thread_width() == 0,
            r.stamps() == Map::<Seq<char>, Timestamp>::empty(),
    {
        Terminal::with_options(Options::new())
    }

    /// How this terminal renders.
    pub fn options(&self) -> (r: &Options)
        ensures
            *r == self.spec_options(),
    {
        &self.options
    }


    /// Renders one record for a terminal `columns` wide (`None` where the
    /// width is not known), widening the process and thread columns to fit
    /// it and recording its timestamp as the last of its tag.
    pub fn render(&mut self, record: &Record, columns: Option<usize>) -> (r: Rendering)
        requires
            old(self).wf(),
            record.wf(),
        ensures
            final(self).wf(),
            final(self).spec_options() == old(self).spec_options(),
            final(self).spec_process_width() == wider(old(self).spec_process_width(), record.process@.len()),
            final(self).spec_thread_width() == wider(old(self).spec_thread_width(), record.thread@.len()),
            final(self).stamps() == (if old(self).spec_options().time_diff && record.timestamp is Some
                && record.tag@.len() > 0 {
                old(self).stamps().insert(record.tag@, record.timestamp->0)
            } else {
                old(self).stamps()
            }),
            r.rule == (is_beginning(record.message@) && columns is Some),
            r.timestamp@ == align_left(
                timestamp_text(old(self).spec_options().date_format@, old(self).spec_options().date_width as nat, record.timestamp),
                old(self).spec_options().date_width as nat,
            ),
            r.diff@ == align_right(
                diff_text(
                    old(self).spec_options().time_diff,
                    old(self).previous(record.tag@),
                    record.timestamp,
                    old(self).spec_options().diff_width as nat,
                ),
                old(self).spec_options().diff_width as nat,
            ),
            r.tag@ == align_right(
                shortened(shown_tag(record.tag@, record.message@), old(self).spec_options().tag_width as nat, old(self).spec_options().full_tag),
                old(self).spec_options().tag_width as nat,
            ),
            r.pid@ == align_left(record.process@, final(self).spec_process_width()),
            r.tid@ == thread_text(record.thread@, final(self).spec_thread_width()),
            r.level@ == badge_text(record.level),
            r.tag_color == text_color(r.tag@),
            r.pid_color == text_color(r.pid@),
            r.tid_color == text_color(r.tid@),
            r.level_color == level_color_of(record.level),
            r.chunks@.len() == message_lines(record.message@, columns, capped(r.preamble())).len(),
            forall|i: int| 0 <= i < r.chunks@.len() ==> (#[trigger] r.chunks@[i])@ == message_lines(record.message@, columns, capped(r.preamble()))[i],
            wraps(record.message@.len(), columns, capped(r.preamble())) ==> forall|i: int| 0 <= i < r.chunks@.len() ==> (#[trigger] r.line_text(i)).len() <= columns->0,
    {
        let date_width = self.options.date_width;
        let diff_width = self.options.diff_width;
        let tag_width = self.options.tag_width;
        let ts_text = timestamp_field(self.options.date_format.as_str(), date_width, record.timestamp);
        let ts_v = pad_right(&ts_text, date_width);
        let timestamp = string_of(&ts_v);

        let prev = if self.options.time_diff {
            self.tag_timestamps.get(&record.tag)
        } else {
            None
        };
        let diff_chars = diff_field(self.options.time_diff, prev, record.timestamp, diff_width);
        let diff_v = pad_left(&diff_chars, diff_width);
        let diff = string_of(&diff_v);

        let beginning = beginning_of(record.message.as_str());
        let shown: &String = if beginning { &record.message } else { &record.tag };
        let tag_v = shorten_tag(shown.as_str(), tag_width, self.options.full_tag);
        let tag = string_of(&tag_v);

        let plen = record.process.as_str().unicode_len();
        if plen > self.process_width {
            self.process_width = plen;
        }
        let pid_v = pad_right(&chars_of(record.process.as_str()), self.process_width);
        let pid = string_of(&pid_v);
        let tlen = record.thread.as_str().unicode_len();
        if tlen > self.thread_width {
            self.thread_width = tlen;
        }
        let tid_v = thread_field(record.thread.as_str(), self.thread_width);
        let tid = string_of(&tid_v);

        let badge: Vec<char> = vec![' ', record.level.badge(), ' '];
        assert(badge@ =~= badge_text(record.level));
        let level = string_of(&badge);

        let total: u128 = ts_v.len() as u128 + diff_v.len() as u128 + tag_v.len() as u128
            + pid_v.len() as u128 + tid_v.len() as u128 + badge.len() as u128 + 9;
        let preamble: usize = if total <= usize::MAX as u128 {
            total as usize
        } else {
            usize::MAX
        };
        let chunks = wrap_message(record.message.as_str(), columns, preamble);

        if let Some(t) = record.timestamp {
            if self.options.time_diff && !record.tag.as_str().is_empty() {
                self.tag_timestamps.set(&record.tag, t);
            }
        }

        let r = Rendering {
            rule: beginning && columns.is_some(),
            tag_color: hashed_color(tag.as_str()),
            pid_color: hashed_color(pid.as_str()),
            tid_color: hashed_color(tid.as_str()),
            level_color: level_color(record.level),
            timestamp,
            diff,
            tag,
            pid,
            tid,
            level,
            chunks,
        };
        assert(r.preamble() == total);
        proof {
            lemma_lines_fit(&r, record.message@, columns);
        }
        r
    }

    /// Renders records one after another, as `render` does each. After the
    /// run each column width is the widest of its starting width and every
    /// identifier seen, so it never shrank and covers every one of them.
    pub fn render_all(&mut self, records: &Vec<Record>, columns: Option<usize>) -> (r: Vec<Rendering>)
        requires
            old(self).wf(),
            forall|i: int| 0 <= i < records@.len() ==> (#[trigger] records@[i]).wf(),
        ensures
            final(self).wf(),
            final(self).spec_options() == old(self).spec_options(),
            r@.len() == records@.len(),
            final(self).spec_process_width() == widest(old(self).spec_process_width(), process_views(records@)),
            final(self).spec_thread_width() == widest(old(self).spec_thread_width(), thread_views(records@)),
            final(self).spec_process_width() >= old(self).spec_process_width(),
            final(self).spec_thread_width() >= old(self).spec_thread_width(),
            forall|i: int| 0 <= i < records@.len() ==> (#[trigger] records@[i]).process@.len() <= final(self).spec_process_width()
                && records@[i].thread@.len() <= final(self).spec_thread_width(),
    {
        let mut out: Vec<Rendering> = Vec::new();
        let mut i: usize = 0;
        while i < records.len()
            invariant
                i <= records@.len(),
                self.wf(),
                self.spec_options() == old(self).spec_options(),
                out@.len() == i,
                forall|j: int| 0 <= j < records@.len() ==> (#[trigger] records@[j]).wf(),
                self.spec_process_width() == widest(old(self).spec_process_width(), process_views(records@.take(i as int))),
                self.spec_thread_width() == widest(old(self).spec_thread_width(), thread_views(records@.take(i as int))),
            decreases records@.len() - i,
        {
            let ghost before = records@.take(i as int);
            let r = self.render(&records[i], columns);
            out.push(r);
            i = i + 1;
            assert(process_views(records@.take(i as int)).drop_last() =~= process_views(before));
            assert(thread_views(records@.take(i as int)).drop_last() =~= thread_views(before));
        }
        assert(records@.take(i as int) =~= records@);
        proof {
            lemma_widths_grow(old(self).spec_process_width(), process_views(records@));
            lemma_widths_grow(old(self).spec_thread_width(), thread_views(records@));
            assert forall|j: int| 0 <= j < records@.len() implies (#[trigger] records@[j]).process@.len() <= self.spec_process_width()
                && records@[j].thread@.len() <= self.spec_thread_width() by {
                assert(process_views(records@)[j] == records@[j].process@);
                assert(thread_views(records@)[j] == records@[j].thread@);
            }
        }
        out
    }

    /// Widest process identifier so far.
    pub fn process_width(&self) -> (r: usize)
        ensures
            r == self.spec_process_width(),
    {
        self.process_width
    }

    /// Widest thread identifier so far.
    pub fn thread_width(&self) -> (r: usize)
        ensures
            r == self.spec_thread_width(),
    {
        self.thread_width
    }
}

} // verus!
