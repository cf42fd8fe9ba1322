//! End-to-end tests of the static pipeline: extraction, the embedded store,
//! and the rendered report.

use topngx::config::{resolve_source, validate_follow, Source};
use topngx::format::format_to_pattern;
use topngx::query::{build_plan, QueryOptions, SubCommand};
use topngx::store::{generate_processor, process_lines};
use topngx::AppError;

fn log_line(addr: &str, path: &str, status: &str, bytes: &str) -> String {
    format!(
        "{addr} - - [06/Nov/2014:19:11:24 +0600] \"GET {path} HTTP/1.1\" {status} {bytes} \"-\" \"UA\""
    )
}

fn opts() -> QueryOptions {
    QueryOptions {
        group_by: String::from("request_path"),
        having: 1,
        limit: 10,
        order_by: String::from("count"),
    }
}

fn run_static(cmd: &Option<SubCommand>, lines: &Vec<String>) -> Result<String, AppError> {
    let matcher = format_to_pattern("combined")?;
    let plan = build_plan(cmd, &opts());
    let processor = generate_processor(plan.fields, plan.queries)?;
    process_lines(&processor, &matcher, lines)?;
    processor.report()
}

#[test]
fn static_pipeline_is_idempotent_over_identical_input() {
    let lines = vec![
        log_line("1.1.1.1", "/a", "200", "100"),
        log_line("1.1.1.1", "/a", "404", "50"),
        log_line("2.2.2.2", "/b", "200", "300"),
        String::from("not a log line"),
    ];
    let first = run_static(&None, &lines).unwrap();
    let second = run_static(&None, &lines).unwrap();
    assert_eq!(first, second);
    assert!(!first.is_empty());
}

#[test]
fn unmatched_lines_are_dropped_not_errors() {
    let lines = vec![String::from("garbage"), log_line("1.1.1.1", "/a", "200", "10")];
    let out = run_static(&None, &lines).unwrap();
    // The summary counts exactly the one matching line.
    assert!(out.contains("count"));
}

#[test]
fn top_with_limit_three_returns_three_rows_in_descending_count_order() {
    let mut lines = Vec::new();
    let paths = [("/a", 5), ("/b", 4), ("/c", 3), ("/d", 2), ("/e", 1)];
    for (path, n) in paths {
        for _ in 0..n {
            lines.push(log_line("9.9.9.9", path, "200", "10"));
        }
    }
    let cmd = Some(SubCommand::Top(vec![String::from("request_path")]));
    let opts3 = QueryOptions { limit: 3, ..opts() };
    let matcher = format_to_pattern("combined").unwrap();
    let plan = build_plan(&cmd, &opts3);
    let processor = generate_processor(plan.fields, plan.queries).unwrap();
    process_lines(&processor, &matcher, &lines).unwrap();
    let out = processor.report().unwrap();
    let rows: Vec<&str> = out.lines().filter(|l| !l.trim().is_empty()).collect();
    // One header line, then exactly three rows; the alignment pass has
    // replaced every tab with padding.
    assert_eq!(rows.len(), 4);
    assert!(!out.contains('\t'));
    assert!(rows[1].contains("/a") && rows[1].trim().ends_with("5"));
    assert!(rows[2].contains("/b") && rows[2].trim().ends_with("4"));
    assert!(rows[3].contains("/c") && rows[3].trim().ends_with("3"));
}

#[test]
fn avg_over_bytes_reports_two_decimal_average() {
    let lines = vec![
        log_line("1.1.1.1", "/a", "200", "100"),
        log_line("1.1.1.1", "/a", "200", "101"),
    ];
    let cmd = Some(SubCommand::Avg(vec![String::from("bytes_sent")]));
    let out = run_static(&cmd, &lines).unwrap();
    assert!(out.contains("100.50"));
}

#[test]
fn report_with_no_queries_is_empty_and_succeeds() {
    let processor = generate_processor(vec![String::from("f")], Vec::new()).unwrap();
    assert_eq!(processor.report().unwrap(), "");
}

#[test]
fn failing_query_aborts_report_with_store_error() {
    let processor = generate_processor(
        vec![String::from("f")],
        vec![String::from("SELECT nonsense FROM nowhere")],
    )
    .unwrap();
    let r = processor.report();
    assert!(matches!(r, Err(AppError::Store(_))));
}

#[test]
fn source_resolution_and_follow_guard() {
    let r = resolve_source(&Some(String::from("access.log")), true).unwrap();
    assert!(matches!(r, Source::LogFile(ref p) if p == "access.log"));
    let r2 = resolve_source(&None, false).unwrap();
    assert!(matches!(r2, Source::Stdin));
    let r3 = resolve_source(&None, true);
    match r3 {
        Err(AppError::Config(m)) => assert_eq!(m, "STDIN is a TTY"),
        _ => panic!("a terminal stdin without a file is a configuration error"),
    }
    let r4 = validate_follow(true, &Source::Stdin);
    match r4 {
        Err(AppError::Config(m)) => assert_eq!(m, "cannot tail STDIN"),
        _ => panic!("following stdin is a configuration error"),
    }
    assert!(validate_follow(true, &Source::LogFile(String::from("x"))).is_ok());
    assert!(validate_follow(false, &Source::Stdin).is_ok());
}
