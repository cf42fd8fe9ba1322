//! Tests of the query builder: exact statement text per subcommand.

use topngx::query::{
    avg_query, build_plan, default_fields, detailed_query, print_query, sum_query, summary_query,
    top_query, QueryOptions, SubCommand,
};

fn opts() -> QueryOptions {
    QueryOptions {
        group_by: String::from("request_path"),
        having: 1,
        limit: 10,
        order_by: String::from("count"),
    }
}

#[test]
fn avg_query_text() {
    let q = avg_query(&vec![String::from("a"), String::from("b")]);
    assert_eq!(q, "SELECT AVG(a), AVG(b) FROM log");
}

#[test]
fn sum_query_text() {
    let q = sum_query(&vec![String::from("bytes_sent")]);
    assert_eq!(q, "SELECT SUM(bytes_sent) FROM log");
}

#[test]
fn print_query_text() {
    let q = print_query(&vec![String::from("a"), String::from("b")]);
    assert_eq!(q, "SELECT a, b FROM log GROUP BY a, b");
}

#[test]
fn top_query_text() {
    let q = top_query(&String::from("request_path"), 3);
    assert_eq!(
        q,
        "SELECT request_path, COUNT(1) AS count FROM log GROUP BY request_path ORDER BY COUNT DESC LIMIT 3"
    );
}

#[test]
fn summary_query_text() {
    let q = summary_query(&String::from("count"), 10);
    assert_eq!(
        q,
        "SELECT count(1) AS count,\nAVG(bytes_sent) as avg_bytes_sent,\nCOUNT(CASE WHEN status_type = 2 THEN 1 END) AS '2XX',\nCOUNT(CASE WHEN status_type = 3 THEN 1 END) AS '3XX',\nCOUNT(CASE WHEN status_type = 4 THEN 1 END) AS '4XX',\nCOUNT(CASE WHEN status_type = 5 THEN 1 END) AS '5XX'\nFROM log\nORDER BY count DESC\nLIMIT 10;"
    );
}

#[test]
fn detailed_query_text() {
    let q = detailed_query(&String::from("request_path"), 2, &String::from("count"), 5);
    assert_eq!(
        q,
        "SELECT request_path,\nCOUNT(1) AS count,\nAVG(bytes_sent) AS avg_bytes_sent,\nCOUNT(CASE WHEN status_type = 2 THEN 1 END) AS '2XX',\nCOUNT(CASE WHEN status_type = 3 THEN 1 END) AS '3XX',\nCOUNT(CASE WHEN status_type = 4 THEN 1 END) AS '4XX',\nCOUNT(CASE WHEN status_type = 5 THEN 1 END) AS '5XX'\nFROM log\nGROUP BY request_path\nHAVING count >= 2\nORDER BY count DESC\nLIMIT 5;"
    );
}

#[test]
fn default_fields_dedupe_group_by() {
    let f = default_fields(&String::from("request_path"));
    assert_eq!(f, vec!["status_type", "bytes_sent", "request_path"]);
    let g = default_fields(&String::from("bytes_sent"));
    assert_eq!(g, vec!["status_type", "bytes_sent"]);
}

#[test]
fn plan_for_default_run() {
    let plan = build_plan(&None, &opts());
    assert_eq!(plan.fields, vec!["status_type", "bytes_sent", "request_path"]);
    assert_eq!(plan.queries.len(), 2);
    assert!(plan.queries[0].starts_with("SELECT count(1) AS count"));
    assert!(plan.queries[1].contains("GROUP BY request_path"));
}

#[test]
fn plan_for_top_builds_one_query_per_field() {
    let cmd = Some(SubCommand::Top(vec![String::from("a"), String::from("b")]));
    let plan = build_plan(&cmd, &opts());
    assert_eq!(plan.fields, vec!["a", "b"]);
    assert_eq!(plan.queries.len(), 2);
    assert!(plan.queries[0].contains("GROUP BY a"));
    assert!(plan.queries[1].contains("GROUP BY b"));
}

#[test]
fn plan_for_custom_query_is_verbatim() {
    let cmd = Some(SubCommand::Query(
        vec![String::from("a")],
        String::from("SELECT a FROM log WHERE a > 1"),
    ));
    let plan = build_plan(&cmd, &opts());
    assert_eq!(plan.queries, vec!["SELECT a FROM log WHERE a > 1"]);
}
