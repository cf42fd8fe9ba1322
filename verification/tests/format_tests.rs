//! Tests of the format compiler: pattern text, directive listing, and
//! matching against real log lines.

use topngx::format::{available_variables, format_to_pattern, template_directives,
    template_to_pattern, Matcher};

const COMBINED: &str = r#"$remote_addr - $remote_user [$time_local] "$request" $status $body_bytes_sent "$http_referer" "$http_user_agent""#;

#[test]
fn combined_matches() {
    let line = r#"66.249.65.3 - - [06/Nov/2014:19:11:24 +0600] "GET / HTTP/1.1" 200 4223 "-" "User-Agent""#;
    let pattern = format_to_pattern(COMBINED).unwrap();
    assert!(pattern.captures(line).is_some());
}

#[test]
fn pattern_text_escapes_literals_and_names_groups() {
    let p = template_to_pattern("$a - $b");
    assert_eq!(p, "(?P<a>.*) - (?P<b>.*)");
    let p2 = template_to_pattern("[$x].$y");
    assert_eq!(p2, r"\[(?P<x>.*)\]\.(?P<y>.*)");
}

#[test]
fn directives_listed_in_template_order_without_duplicates() {
    let names = template_directives(COMBINED);
    assert_eq!(
        names,
        vec![
            "remote_addr",
            "remote_user",
            "time_local",
            "request",
            "status",
            "body_bytes_sent",
            "http_referer",
            "http_user_agent"
        ]
    );
    for i in 0..names.len() {
        for j in 0..i {
            assert_ne!(names[i], names[j]);
        }
    }
}

#[test]
fn combined_line_yields_request_status_and_bytes() {
    let line = r#"66.249.65.3 - - [06/Nov/2014:19:11:24 +0600] "GET / HTTP/1.1" 200 4223 "-" "User-Agent""#;
    let m = Matcher::compile(COMBINED).unwrap();
    let caps = m.captures(line).expect("the combined line must match");
    let names = m.group_names();
    let get = |name: &str| -> Option<String> {
        let i = names.iter().position(|n| n == name)?;
        caps[i].clone()
    };
    assert_eq!(get("request").unwrap(), "GET / HTTP/1.1");
    assert_eq!(get("status").unwrap(), "200");
    assert_eq!(get("body_bytes_sent").unwrap(), "4223");
}

#[test]
fn available_variables_lists_combined_directives() {
    let vars = available_variables("combined").unwrap();
    assert_eq!(
        vars,
        "remote_addr, remote_user, time_local, request, status, body_bytes_sent, http_referer, http_user_agent"
    );
}

#[test]
fn invalid_template_reports_compile_error() {
    let r = Matcher::compile("\\");
    assert!(matches!(r, Err(topngx::AppError::Compile(_))));
}
