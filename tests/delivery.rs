use rogcat::logger::{command_args, Logger, Mode, Request};
use rogcat::pipeline::{Action, Driver, Event, Outcome};
use rogcat::record::{Level, Message, Record};

fn rec(message: &str) -> Record {
    Record {
        tag: String::new(),
        message: message.to_string(),
        level: Level::Unspecified,
        process: String::new(),
        thread: String::new(),
        timestamp: None,
    }
}

#[test]
fn one_shot_arguments() {
    let r = Request::from_args(Some("hello"), Some("Test"), Some("I"));
    assert_eq!(r.mode, Mode::Once);
    assert_eq!(r.once_args(), vec!["shell", "log", "-p", "i", "-t", "\"Test\"", "hello"]);
}

#[test]
fn stream_mode_and_defaults() {
    let r = Request::from_args(Some("-"), None, None);
    assert_eq!(r.mode, Mode::Stream);
    assert_eq!(r.tag, "Rogcat");
    assert_eq!(r.level, Level::Unspecified);
    let r = Request::from_args(None, None, Some("W"));
    assert_eq!(r.mode, Mode::Once);
    assert_eq!(r.message, "");
    assert_eq!(r.level, Level::Warn);
}

#[test]
fn priority_letters() {
    let cases = [
        (Level::Trace, 'v'),
        (Level::Verbose, 'v'),
        (Level::Debug, 'd'),
        (Level::Unspecified, 'd'),
        (Level::Info, 'i'),
        (Level::Warn, 'w'),
        (Level::Error, 'e'),
        (Level::Fatal, 'e'),
        (Level::Assert, 'e'),
    ];
    for (l, c) in cases {
        assert_eq!(Logger::level(&l), c);
    }
}

#[test]
fn sink_builds_command_per_record() {
    let r = Request::from_args(Some("-"), Some("Tg"), Some("E"));
    let logger = Logger::new();
    let line = r.record_for("line one".to_string());
    assert_eq!(line.tag, "Tg");
    assert_eq!(line.level, Level::Error);
    let args = logger.start_send(&Message::Record(line)).unwrap();
    assert_eq!(args, vec!["shell", "log", "-p", "e", "-t", "\"Tg\"", "line one"]);
    assert!(logger.start_send(&Message::Done).is_none());
}

#[test]
fn sink_uses_each_records_level_and_tag() {
    let logger = Logger::new();
    let mut a = rec("boom");
    a.level = Level::Error;
    a.tag = "Crash".to_string();
    let args = logger.start_send(&Message::Record(a)).unwrap();
    assert_eq!(args, vec!["shell", "log", "-p", "e", "-t", "\"Crash\"", "boom"]);
    let mut b = rec("fine");
    b.level = Level::Info;
    let args = logger.start_send(&Message::Record(b)).unwrap();
    assert_eq!(args, vec!["shell", "log", "-p", "i", "-t", "\"\"", "fine"]);
}

#[test]
fn command_quotes_tag_only() {
    let args = command_args(Level::Debug, "a b", "c d");
    assert_eq!(args, vec!["shell", "log", "-p", "d", "-t", "\"a b\"", "c d"]);
}

#[test]
fn done_stops_delivery() {
    let mut d = Driver::new();
    let a = d.step(Event::Arrived(Message::Record(rec("1"))));
    assert!(matches!(a, Action::Deliver(ref r) if r.message == "1"));
    let a = d.step(Event::Arrived(Message::Done));
    assert!(matches!(a, Action::Finish(Outcome::Success)));
    let a = d.step(Event::Arrived(Message::Record(rec("2"))));
    assert!(matches!(a, Action::Ignore));
    let a = d.step(Event::Failed);
    assert!(matches!(a, Action::Ignore));
}

#[test]
fn end_of_source_succeeds_and_failure_fails() {
    let mut d = Driver::new();
    assert!(matches!(d.step(Event::Ended), Action::Finish(Outcome::Success)));
    let mut d = Driver::new();
    assert!(matches!(d.step(Event::Failed), Action::Finish(Outcome::Failure)));
    assert!(d.finished);
}
