//! Tests of the report renderer, the alignment pass, the number printing,
//! and the tailer state machine.

use topngx::render::{render_table, QueryTable, RenderValue};
use topngx::tailer::{attach, loop_step, step, LoopAction, LoopEvent, TailAction, TailEvent};
use topngx::text::{i64_string, u64_string};
use topngx::AppError;

#[test]
fn table_renders_header_then_rows() {
    let t = QueryTable {
        columns: vec![String::from("a"), String::from("b")],
        rows: vec![
            vec![RenderValue::Integer(7), RenderValue::Null],
            vec![
                RenderValue::Text(Vec::from("x".as_bytes())),
                RenderValue::Real(String::from("1.50")),
            ],
        ],
    };
    let s = render_table(&t).unwrap();
    assert_eq!(s, "a\tb\n7\tnull\t\nx\t1.50\t\n");
}

#[test]
fn blob_decoded_as_text_and_failure_is_encoding_error() {
    let ok = QueryTable {
        columns: vec![String::from("a")],
        rows: vec![vec![RenderValue::Blob(Vec::from("hi".as_bytes()))]],
    };
    assert_eq!(render_table(&ok).unwrap(), "a\nhi\t\n");
    let bad = QueryTable {
        columns: vec![String::from("a")],
        rows: vec![vec![RenderValue::Blob(vec![0xff, 0xfe])]],
    };
    assert!(matches!(render_table(&bad), Err(AppError::Encoding)));
}

#[test]
fn decimal_rendering() {
    assert_eq!(u64_string(0), "0");
    assert_eq!(u64_string(1234), "1234");
    assert_eq!(u64_string(u64::MAX), "18446744073709551615");
    assert_eq!(i64_string(-45), "-45");
    assert_eq!(i64_string(i64::MIN), "-9223372036854775808");
    assert_eq!(i64_string(7), "7");
}

#[test]
fn tailer_attaches_at_end_and_never_replays() {
    let s0 = attach(100);
    assert_eq!(s0.offset, 100);
    assert!(!s0.stopped);
    let (s1, a1) = step(s0, &TailEvent::Line(5));
    assert_eq!(s1.offset, 105);
    assert_eq!(a1, TailAction::Forward);
    let (s2, a2) = step(s1, &TailEvent::Empty);
    assert_eq!(s2.offset, 105);
    assert_eq!(a2, TailAction::Sleep);
    assert!(s2.offset >= 100);
}

#[test]
fn cancellation_stops_tailer_within_one_poll() {
    let s0 = attach(42);
    let (s1, a1) = step(s0, &TailEvent::Stop);
    assert_eq!(a1, TailAction::Exit);
    assert!(s1.stopped);
    assert_eq!(s1.offset, 42);
}

#[test]
fn main_loop_decisions() {
    assert_eq!(loop_step(true, &LoopEvent::Tick), LoopAction::Shutdown);
    assert_eq!(loop_step(true, &LoopEvent::LineReceived), LoopAction::Shutdown);
    assert_eq!(loop_step(false, &LoopEvent::LineReceived), LoopAction::Ingest);
    assert_eq!(loop_step(false, &LoopEvent::Tick), LoopAction::Refresh);
}

#[test]
fn error_messages_carry_their_text() {
    assert_eq!(AppError::Config(String::from("bad")).message(), "bad");
    assert_eq!(AppError::Io(String::from("no such file")).message(), "no such file");
    assert_eq!(AppError::Store(String::from("syntax error")).message(), "syntax error");
    assert_eq!(AppError::Compile(String::from("bad pattern")).message(), "bad pattern");
    assert_eq!(AppError::Encoding.message(), "query result is not valid UTF-8");
}
