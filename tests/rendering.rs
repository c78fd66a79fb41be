use rogcat::color::hashed_color;
use rogcat::layout::{format_seconds, wrap_message, Marker};
use rogcat::record::{Level, Record, Timestamp};
use rogcat::terminal::{
    beginning_of, cut_timestamp, diff_field, elapsed_millis, fit_tag, shorten_tag, timestamp_field, LevelColor, Options,
    Terminal,
};

fn text(v: Vec<char>) -> String {
    v.into_iter().collect()
}

fn record(tag: &str, message: &str, process: &str, thread: &str, ts: Option<Timestamp>) -> Record {
    Record {
        tag: tag.to_string(),
        message: message.to_string(),
        level: Level::Info,
        process: process.to_string(),
        thread: thread.to_string(),
        timestamp: ts,
    }
}

#[test]
fn color_of_empty_is_seed() {
    assert_eq!(hashed_color(""), 42);
}

#[test]
fn color_folds_bytes_with_xor() {
    assert_eq!(hashed_color("a"), 42 ^ 97);
    assert_eq!(hashed_color("ab"), 42 ^ 97 ^ 98);
}

#[test]
fn color_is_deterministic() {
    for s in ["Tag", "1234", " 5678", "ActivityManager", "ü"] {
        assert_eq!(hashed_color(s), hashed_color(s));
    }
}

#[test]
fn color_remaps_unreadable_indices() {
    // '*' is 42, so the fold gives 0, which moves to 2.
    assert_eq!(hashed_color("*"), 2);
    // 42 ^ 58 = 16, which moves to 22.
    assert_eq!(hashed_color(":"), 22);
    // 42 ^ 30 = 52, which moves to 56.
    assert_eq!(hashed_color("\u{1e}"), 56);
    // Two-byte characters fold both bytes.
    assert_eq!(hashed_color("\u{e5}"), 42 ^ 0xc3 ^ 0xa5);
}

#[test]
fn color_never_unreadable() {
    let bad = |c: u16| {
        c <= 1
            || (16..=21).contains(&c)
            || (52..=55).contains(&c)
            || (126..=129).contains(&c)
            || (163..=165).contains(&c)
            || (200..=201).contains(&c)
            || c == 207
            || (232..=240).contains(&c)
    };
    for b in 0u8..=127 {
        let s = String::from_utf8(vec![b]).unwrap();
        let c = hashed_color(&s);
        assert!(c < 256);
        assert!(!bad(c), "byte {} gave {}", b, c);
    }
}

#[test]
fn wraps_into_three_chunks_for_width_40_preamble_30_length_25() {
    let m = "abcdefghijklmnopqrstuvwxy";
    let chunks = wrap_message(m, Some(40), 30);
    assert_eq!(chunks.len(), 3);
    assert_eq!(chunks[0].marker, Marker::First);
    assert_eq!(chunks[0].text, "abcdefghij");
    assert_eq!(chunks[1].marker, Marker::Middle);
    assert_eq!(chunks[1].text, "klmnopqrst");
    assert_eq!(chunks[2].marker, Marker::Last);
    assert_eq!(chunks[2].text, "uvwxy");
}

#[test]
fn wraps_into_first_and_last() {
    let chunks = wrap_message("abcdefghijklmno", Some(40), 30);
    assert_eq!(chunks.len(), 2);
    assert_eq!(chunks[0].marker.glyph(), '┌');
    assert_eq!(chunks[0].text, "abcdefghij");
    assert_eq!(chunks[1].marker.glyph(), '└');
    assert_eq!(chunks[1].text, "klmno");
}

#[test]
fn wrap_joins_back_to_message() {
    let m = "äöü€ multi-byte text that is long enough to wrap several times";
    let chunks = wrap_message(m, Some(17), 7);
    assert!(chunks.len() > 2);
    let joined: String = chunks.iter().map(|c| c.text.as_str()).collect();
    assert_eq!(joined, m);
    assert!(chunks.iter().all(|c| c.text.chars().count() <= 10));
    assert_eq!(chunks[1].marker.glyph(), '├');
}

#[test]
fn fitting_message_is_one_line() {
    let chunks = wrap_message("short", Some(40), 30);
    assert_eq!(chunks.len(), 1);
    assert_eq!(chunks[0].marker, Marker::Single);
    assert_eq!(chunks[0].marker.glyph(), ' ');
    assert_eq!(chunks[0].text, "short");
}

#[test]
fn unknown_width_is_not_wrapped() {
    let long = "x".repeat(500);
    let chunks = wrap_message(&long, None, 30);
    assert_eq!(chunks.len(), 1);
    assert_eq!(chunks[0].text, long);
}

#[test]
fn no_room_after_preamble_is_not_wrapped() {
    let chunks = wrap_message("hello", Some(20), 30);
    assert_eq!(chunks.len(), 1);
    assert_eq!(chunks[0].marker, Marker::Single);
}

#[test]
fn seconds_with_three_decimals() {
    assert_eq!(text(format_seconds(0)), "0.000");
    assert_eq!(text(format_seconds(1250)), "1.250");
    assert_eq!(text(format_seconds(-5)), "-0.005");
    assert_eq!(text(format_seconds(123456789)), "123456.789");
}

#[test]
fn millis_round_toward_zero() {
    let a = Timestamp::new(100, 0).unwrap();
    let b = Timestamp::new(101, 250_900_000).unwrap();
    assert_eq!(elapsed_millis(a, b), 1250);
    assert_eq!(elapsed_millis(b, a), -1250);
}

#[test]
fn diff_empty_without_previous() {
    let t = Timestamp::new(10, 0);
    assert_eq!(text(diff_field(true, None, t, 8)), "");
}

#[test]
fn diff_in_seconds() {
    let t0 = Timestamp::new(100, 0);
    let t1 = Timestamp::new(101, 250_000_000);
    assert_eq!(text(diff_field(true, t0, t1, 8)), "1.250");
    assert_eq!(text(diff_field(false, t0, t1, 8)), "");
}

#[test]
fn diff_too_wide_is_placeholder() {
    let t0 = Timestamp::new(0, 0);
    let t1 = Timestamp::new(100_000, 0);
    assert_eq!(text(diff_field(true, t0, t1, 8)), "-.---");
    let t2 = Timestamp::new(9_999, 999_000_000);
    assert_eq!(text(diff_field(true, t0, t2, 8)), "9999.999");
}

#[test]
fn timestamp_out_of_range_is_rejected() {
    assert!(Timestamp::new(0, 1_000_000_000).is_none());
    assert!(Timestamp::new(i64::MAX, 0).is_none());
    assert!(Timestamp::new(-5, 999_999_999).is_some());
}

#[test]
fn timestamp_formatted_and_cut() {
    let t = Timestamp::new(0, 123_456_789);
    assert_eq!(text(timestamp_field("%m-%d %H:%M:%S.%f", 18, t)), "01-01 00:00:00.123");
    assert_eq!(text(timestamp_field("%H:%M", 18, t)), "00:00");
    assert_eq!(text(timestamp_field("%m", 18, None)), "");
}

#[test]
fn bad_time_format_gives_empty_field() {
    let t = Timestamp::new(0, 0);
    assert_eq!(text(timestamp_field("%Q", 18, t)), "");
}

#[test]
fn long_tag_loses_vowels_then_aligns() {
    let t = text(shorten_tag("LongTagNameExceedingWidth", 20, false));
    assert_eq!(t, "   LngTgNmExcdngWdth");
    assert_eq!(t.chars().count(), 20);
}

#[test]
fn long_tag_is_cut_after_vowels() {
    let t = text(shorten_tag("SystemServerProcessWatchdogThread", 20, false));
    assert_eq!(t, "SystmSrvrPrcssWtchdg");
}

#[test]
fn full_tag_is_kept() {
    let t = text(shorten_tag("LongTagNameExceedingWidth", 20, true));
    assert_eq!(t, "LongTagNameExceedingWidth");
    assert_eq!(text(shorten_tag("Tag", 6, false)), "   Tag");
}

#[test]
fn beginning_marker_detected() {
    assert!(beginning_of("--------- beginning of main"));
    assert!(!beginning_of("hello"));
    assert!(!beginning_of("x --------- beginning of main"));
}

#[test]
fn widths_only_grow() {
    let mut t = Terminal::new();
    t.render(&record("A", "m", "12", "7", None), None);
    assert_eq!((t.process_width(), t.thread_width()), (2, 1));
    t.render(&record("A", "m", "12345", "", None), None);
    assert_eq!((t.process_width(), t.thread_width()), (5, 1));
    t.render(&record("A", "m", "1", "123", None), None);
    assert_eq!((t.process_width(), t.thread_width()), (5, 3));
}

#[test]
fn render_one_line() {
    let mut t = Terminal::new();
    let ts = Timestamp::new(0, 123_456_789);
    let r = t.render(&record("Tag", "hello", "123", "456", ts), None);
    assert!(!r.rule);
    assert_eq!(r.chunks.len(), 1);
    let expected = format!(
        "{:<18} {:>8} {:>20} ({}{}) {} {} {}",
        "01-01 00:00:00.123", "", "Tag", "123", " 456", " I ", " ", "hello"
    );
    assert_eq!(r.line(0), expected);
    assert_eq!(r.level_color, LevelColor::Green);
    assert_eq!(r.tag_color, hashed_color(&r.tag));
    assert_eq!(r.pid_color, hashed_color("123"));
    assert_eq!(r.tid_color, hashed_color(" 456"));
}

#[test]
fn render_diff_per_tag() {
    let mut t = Terminal::new();
    let r = t.render(&record("A", "x", "1", "", Timestamp::new(10, 0)), None);
    assert_eq!(r.diff, "        ");
    let r = t.render(&record("B", "x", "1", "", Timestamp::new(11, 0)), None);
    assert_eq!(r.diff, "        ");
    let r = t.render(&record("A", "x", "1", "", Timestamp::new(12, 500_000_000)), None);
    assert_eq!(r.diff, "   2.500");
    let r = t.render(&record("A", "x", "1", "", Timestamp::new(13, 0)), None);
    assert_eq!(r.diff, "   0.500");
}

#[test]
fn render_without_time_diff() {
    let mut o = Options::new();
    o.time_diff = false;
    let mut t = Terminal::with_options(o);
    t.render(&record("A", "x", "1", "", Timestamp::new(10, 0)), None);
    let r = t.render(&record("A", "x", "1", "", Timestamp::new(12, 0)), None);
    assert_eq!(r.diff, "        ");
}

#[test]
fn render_beginning_marker() {
    let mut t = Terminal::new();
    let r = t.render(&record("", "--------- beginning of main", "", "", None), Some(100));
    assert!(r.rule);
    assert_eq!(r.tag, "--------- bgnnng f m");
    let r = t.render(&record("", "--------- beginning of main", "", "", None), None);
    assert!(!r.rule);
}

#[test]
fn render_wraps_long_message() {
    let mut t = Terminal::new();
    // preamble: 18 + 8 + 20 + 3 (pid) + 0 (tid) + 3 (badge) + 9 = 61
    let msg = "0123456789".repeat(3);
    let r = t.render(&record("T", &msg, "123", "", None), Some(71));
    assert_eq!(r.chunks.len(), 3);
    assert_eq!(r.chunks[0].text, "0123456789");
    assert_eq!(r.chunks[2].marker, Marker::Last);
    assert!(r.line(0).ends_with("┌ 0123456789"));
    assert!(r.line(1).ends_with("├ 0123456789"));
    assert_eq!(r.line(0).chars().count(), 71);
    let r = t.render(&record("T", &msg, "123", "", None), Some(91));
    assert_eq!(r.chunks.len(), 1);
}

#[test]
fn wrapped_lines_fit_with_wide_thread() {
    let mut t = Terminal::new();
    let msg = "abcdefghijklmnopqrst";
    let r = t.render(&record("T", msg, "1", "123", None), Some(70));
    assert!(r.chunks.len() > 1);
    for i in 0..r.chunks.len() {
        assert!(r.line(i).chars().count() <= 70, "line {} too wide", i);
    }
    let joined: String = r.chunks.iter().map(|c| c.text.as_str()).collect();
    assert_eq!(joined, msg);
}

#[test]
fn full_tag_wider_than_column_still_fits() {
    let mut o = Options::new();
    o.full_tag = true;
    let mut t = Terminal::with_options(o);
    let msg = "m".repeat(40);
    let r = t.render(&record("AnExtremelyLongTagThatIsNotShortenedAtAll", &msg, "1", "", None), Some(100));
    for i in 0..r.chunks.len() {
        assert!(r.line(i).chars().count() <= 100);
    }
}

#[test]
fn widths_over_a_run() {
    let mut t = Terminal::new();
    let records = vec![
        record("A", "m", "12", "7", None),
        record("A", "m", "12345", "", None),
        record("A", "m", "1", "123", None),
    ];
    let out = t.render_all(&records, None);
    assert_eq!(out.len(), 3);
    assert_eq!((t.process_width(), t.thread_width()), (5, 3));
}

#[test]
fn fit_tag_keeps_cuts_or_strips() {
    assert_eq!(text(fit_tag("Short", "Shrt", 10, false)), "     Short");
    assert_eq!(text(fit_tag("LongTagName", "LngTgNm", 8, false)), " LngTgNm");
    assert_eq!(text(fit_tag("LongTagName", "LngTgNm", 4, false)), "LngT");
    assert_eq!(text(fit_tag("LongTagName", "LngTgNm", 4, true)), "LongTagName");
}

#[test]
fn cut_timestamp_to_width() {
    assert_eq!(text(cut_timestamp(Some("01-01 00:00:00.123456789"), 18)), "01-01 00:00:00.123");
    assert_eq!(text(cut_timestamp(Some("00:00"), 18)), "00:00");
    assert_eq!(text(cut_timestamp(None, 18)), "");
}

#[test]
fn levels_parse_and_badge() {
    assert_eq!(Level::from_letter("I"), Level::Info);
    assert_eq!(Level::from_letter("A"), Level::Assert);
    assert_eq!(Level::from_letter("x"), Level::Unspecified);
    assert_eq!(Level::from_letter("II"), Level::Unspecified);
    assert_eq!(Level::Unspecified.badge(), '-');
    assert_eq!(Level::Warn.badge(), 'W');
}
