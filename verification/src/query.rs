//! The query builder: a pure mapping from a subcommand and its options to
//! the field schema and the list of aggregate queries that one run uses.

use vstd::prelude::*;
use vstd::string::StringExecFns;
use crate::text::join_with;
use crate::text::join_strings;
use crate::text::dec_of;
use crate::text::u64_string;

verus! {

/// The subcommand selecting what one run computes.
pub enum SubCommand {
    /// Print the average of the given fields.
    Avg(Vec<String>),
    /// List the available fields, the access log, and the format in use.
    Info,
    /// Print the supplied fields, deduplicated.
    Print(Vec<String>),
    /// Run a user-supplied query over the given fields.
    Query(Vec<String>, String),
    /// Compute the sum of the given fields.
    Sum(Vec<String>),
    /// Find the top values for the given fields.
    Top(Vec<String>),
}

/// The display options a plan depends on.
pub struct QueryOptions {
    /// Group the default detailed query by this field.
    pub group_by: String,
    /// Keep only groups with at least this count in the detailed query.
    pub having: u64,
    /// Limit each query to this many records.
    pub limit: u64,
    /// Order the default queries by this column.
    pub order_by: String,
}

/// The resolved field schema and query list of one run.
pub struct QueryPlan {
    /// The fields to extract from each line, in schema order.
    pub fields: Vec<String>,
    /// The queries to run at each report, in declaration order.
    pub queries: Vec<String>,
}

/// The fields tracked when no subcommand names any: the two derived numeric
/// fields, then the group-by field unless it already is one of them.
pub open spec fn default_fields_spec(group_by: Seq<char>) -> Seq<Seq<char>> {
    let base = seq!["status_type"@, "bytes_sent"@];
    if base.contains(group_by) {
        base
    } else {
        base.push(group_by)
    }
}

/// `SELECT AVG(f1), ..., AVG(fn) FROM log`
pub open spec fn avg_query_spec(fields: Seq<Seq<char>>) -> Seq<char> {
    "SELECT "@ + join_with(fields.map_values(|f: Seq<char>| "AVG("@ + f + ")"@), ", "@)
        + " FROM log"@
}

/// `SELECT SUM(f1), ..., SUM(fn) FROM log`
pub open spec fn sum_query_spec(fields: Seq<Seq<char>>) -> Seq<char> {
    "SELECT "@ + join_with(fields.map_values(|f: Seq<char>| "SUM("@ + f + ")"@), ", "@)
        + " FROM log"@
}

/// `SELECT f1, ..., fn FROM log GROUP BY f1, ..., fn`
pub open spec fn print_query_spec(fields: Seq<Seq<char>>) -> Seq<char> {
    "SELECT "@ + join_with(fields, ", "@) + " FROM log GROUP BY "@ + join_with(fields, ", "@)
}

/// The per-field top query: value and count, grouped by the field, most
/// frequent first, limited.
pub open spec fn top_query_spec(field: Seq<char>, limit: nat) -> Seq<char> {
    "SELECT "@ + field + ", COUNT(1) AS count FROM log GROUP BY "@ + field
        + " ORDER BY COUNT DESC LIMIT "@ + dec_of(limit)
}

/// The default summary query: total count, average bytes, and one bucket
/// count per status class.
pub open spec fn summary_query_spec(order_by: Seq<char>, limit: nat) -> Seq<char> {
    "SELECT count(1) AS count,\nAVG(bytes_sent) as avg_bytes_sent,\nCOUNT(CASE WHEN status_type = 2 THEN 1 END) AS '2XX',\nCOUNT(CASE WHEN status_type = 3 THEN 1 END) AS '3XX',\nCOUNT(CASE WHEN status_type = 4 THEN 1 END) AS '4XX',\nCOUNT(CASE WHEN status_type = 5 THEN 1 END) AS '5XX'\nFROM log\nORDER BY "@
        + order_by + " DESC\nLIMIT "@ + dec_of(limit) + ";"@
}

/// The default detailed query: the same aggregates per group-by bucket,
/// keeping buckets whose count reaches the having threshold.
pub open spec fn detailed_query_spec(
    group_by: Seq<char>,
    having: nat,
    order_by: Seq<char>,
    limit: nat,
) -> Seq<char> {
    "SELECT "@ + group_by
        + ",\nCOUNT(1) AS count,\nAVG(bytes_sent) AS avg_bytes_sent,\nCOUNT(CASE WHEN status_type = 2 THEN 1 END) AS '2XX',\nCOUNT(CASE WHEN status_type = 3 THEN 1 END) AS '3XX',\nCOUNT(CASE WHEN status_type = 4 THEN 1 END) AS '4XX',\nCOUNT(CASE WHEN status_type = 5 THEN 1 END) AS '5XX'\nFROM log\nGROUP BY "@
        + group_by + "\nHAVING count >= "@ + dec_of(having) + "\nORDER BY "@ + order_by
        + " DESC\nLIMIT "@ + dec_of(limit) + ";"@
}

/// Builds `SELECT AVG(f1), ..., AVG(fn) FROM log`.
pub fn avg_query(fields: &Vec<String>) -> (r: String)
    ensures
        r@ == avg_query_spec(fields.deep_view()),
{
    let mut exprs: Vec<String> = Vec::new();
    let mut i: usize = 0;
    while i < fields.len()
        invariant
            i <= fields.len(),
            fields.deep_view().len() == fields@.len(),
            exprs.deep_view().len() == i,
            forall|k: int|
                0 <= k < i ==> exprs.deep_view()[k] == "AVG("@ + fields.deep_view()[k] + ")"@,
        decreases fields.len() - i,
    {
        let mut e: String = "AVG(".to_owned();
        e.append(fields[i].as_str());
        e.append(")");
        let ghost before = exprs.deep_view();
        let ghost ev = e@;
        exprs.push(e);
        proof {
            assert(ev =~= "AVG("@ + fields.deep_view()[i as int] + ")"@);
            assert(exprs.deep_view() =~~= before.push(ev));
        }
        i = i + 1;
    }
    proof {
        assert(exprs.deep_view() =~~= fields.deep_view().map_values(
            |f: Seq<char>| "AVG("@ + f + ")"@,
        ));
    }
    let mut r: String = "SELECT ".to_owned();
    r.append(join_strings(&exprs, ", ").as_str());
    r.append(" FROM log");
    proof {
        assert(r@ =~= avg_query_spec(fields.deep_view()));
    }
    r
}

/// Builds `SELECT SUM(f1), ..., SUM(fn) FROM log`.
pub fn sum_query(fields: &Vec<String>) -> (r: String)
    ensures
        r@ == sum_query_spec(fields.deep_view()),
{
    let mut exprs: Vec<String> = Vec::new();
    let mut i: usize = 0;
    while i < fields.len()
        invariant
            i <= fields.len(),
            fields.deep_view().len() == fields@.len(),
            exprs.deep_view().len() == i,
            forall|k: int|
                0 <= k < i ==> exprs.deep_view()[k] == "SUM("@ + fields.deep_view()[k] + ")"@,
        decreases fields.len() - i,
    {
        let mut e: String = "SUM(".to_owned();
        e.append(fields[i].as_str());
        e.append(")");
        let ghost before = exprs.deep_view();
        let ghost ev = e@;
        exprs.push(e);
        proof {
            assert(ev =~= "SUM("@ + fields.deep_view()[i as int] + ")"@);
            assert(exprs.deep_view() =~~= before.push(ev));
        }
        i = i + 1;
    }
    proof {
        assert(exprs.deep_view() =~~= fields.deep_view().map_values(
            |f: Seq<char>| "SUM("@ + f + ")"@,
        ));
    }
    let mut r: String = "SELECT ".to_owned();
    r.append(join_strings(&exprs, ", ").as_str());
    r.append(" FROM log");
    proof {
        assert(r@ =~= sum_query_spec(fields.deep_view()));
    }
    r
}

/// Builds the deduplicating listing query of the print subcommand.
pub fn print_query(fields: &Vec<String>) -> (r: String)
    ensures
        r@ == print_query_spec(fields.deep_view()),
{
    let selections = join_strings(fields, ", ");
    let mut r: String = "SELECT ".to_owned();
    r.append(selections.as_str());
    r.append(" FROM log GROUP BY ");
    r.append(selections.as_str());
    proof {
        assert(r@ =~= print_query_spec(fields.deep_view()));
    }
    r
}

/// Builds the top query for one field.
pub fn top_query(field: &String, limit: u64) -> (r: String)
    ensures
        r@ == top_query_spec(field@, limit as nat),
{
    let mut r: String = "SELECT ".to_owned();
    r.append(field.as_str());
    r.append(", COUNT(1) AS count FROM log GROUP BY ");
    r.append(field.as_str());
    r.append(" ORDER BY COUNT DESC LIMIT ");
    r.append(u64_string(limit).as_str());
    proof {
        assert(r@ =~= top_query_spec(field@, limit as nat));
    }
    r
}

/// Builds the default summary query.
pub fn summary_query(order_by: &String, limit: u64) -> (r: String)
    ensures
        r@ == summary_query_spec(order_by@, limit as nat),
{
    let mut r: String =
        "SELECT count(1) AS count,\nAVG(bytes_sent) as avg_bytes_sent,\nCOUNT(CASE WHEN status_type = 2 THEN 1 END) AS '2XX',\nCOUNT(CASE WHEN status_type = 3 THEN 1 END) AS '3XX',\nCOUNT(CASE WHEN status_type = 4 THEN 1 END) AS '4XX',\nCOUNT(CASE WHEN status_type = 5 THEN 1 END) AS '5XX'\nFROM log\nORDER BY ".to_owned();
    r.append(order_by.as_str());
    r.append(" DESC\nLIMIT ");
    r.append(u64_string(limit).as_str());
    r.append(";");
    proof {
        assert(r@ =~= summary_query_spec(order_by@, limit as nat));
    }
    r
}

/// Builds the default detailed query.
pub fn detailed_query(group_by: &String, having: u64, order_by: &String, limit: u64) -> (r: String)
    ensures
        r@ == detailed_query_spec(group_by@, having as nat, order_by@, limit as nat),
{
    let mut r: String = "SELECT ".to_owned();
    r.append(group_by.as_str());
    r.append(
        ",\nCOUNT(1) AS count,\nAVG(bytes_sent) AS avg_bytes_sent,\nCOUNT(CASE WHEN status_type = 2 THEN 1 END) AS '2XX',\nCOUNT(CASE WHEN status_type = 3 THEN 1 END) AS '3XX',\nCOUNT(CASE WHEN status_type = 4 THEN 1 END) AS '4XX',\nCOUNT(CASE WHEN status_type = 5 THEN 1 END) AS '5XX'\nFROM log\nGROUP BY ",
    );
    r.append(group_by.as_str());
    r.append("\nHAVING count >= ");
    r.append(u64_string(having).as_str());
    r.append("\nORDER BY ");
    r.append(order_by.as_str());
    r.append(" DESC\nLIMIT ");
    r.append(u64_string(limit).as_str());
    r.append(";");
    proof {
        assert(r@ =~= detailed_query_spec(group_by@, having as nat, order_by@, limit as nat));
    }
    r
}

/// The default field schema: status class, bytes sent, and the group-by
/// field unless it repeats one of them.
pub fn default_fields(group_by: &String) -> (r: Vec<String>)
    ensures
        r.deep_view() == default_fields_spec(group_by@),
{
    let mut r: Vec<String> = Vec::new();
    r.push("status_type".to_owned());
    r.push("bytes_sent".to_owned());
    let gb: String = group_by.clone();
    let st: String = "status_type".to_owned();
    let bs: String = "bytes_sent".to_owned();
    let ghost base = seq!["status_type"@, "bytes_sent"@];
    proof {
        assert(r.deep_view() =~~= base);
    }
    if gb == st || gb == bs {
        proof {
            assert(base.contains(group_by@));
        }
        r
    } else {
        proof {
            assert forall|k: int| 0 <= k < base.len() implies base[k] != group_by@ by {
                if k == 0 {
                    assert(base[0] == "status_type"@);
                } else {
                    assert(base[k] == "bytes_sent"@);
                }
            }
            assert(!base.contains(group_by@));
        }
        let ghost before = r.deep_view();
        r.push(group_by.clone());
        proof {
            assert(r.deep_view() =~~= before.push(group_by@));
        }
        r
    }
}

/// Translates the subcommand and options of one run into its field schema
/// and query list.
pub fn build_plan(cmd: &Option<SubCommand>, opts: &QueryOptions) -> (r: QueryPlan)
    ensures
        match cmd {
            Option::None => r.fields.deep_view() == default_fields_spec(opts.group_by@)
                && r.queries.deep_view() == seq![
                summary_query_spec(opts.order_by@, opts.limit as nat),
                detailed_query_spec(
                    opts.group_by@,
                    opts.having as nat,
                    opts.order_by@,
                    opts.limit as nat,
                ),
            ],
            Option::Some(SubCommand::Avg(f)) => r.fields.deep_view() == f.deep_view()
                && r.queries.deep_view() == seq![avg_query_spec(f.deep_view())],
            Option::Some(SubCommand::Sum(f)) => r.fields.deep_view() == f.deep_view()
                && r.queries.deep_view() == seq![sum_query_spec(f.deep_view())],
            Option::Some(SubCommand::Print(f)) => r.fields.deep_view() == f.deep_view()
                && r.queries.deep_view() == seq![print_query_spec(f.deep_view())],
            Option::Some(SubCommand::Top(f)) => r.fields.deep_view() == f.deep_view()
                && r.queries.deep_view() == f.deep_view().map_values(
                |x: Seq<char>| top_query_spec(x, opts.limit as nat),
            ),
            Option::Some(SubCommand::Query(f, q)) => r.fields.deep_view() == f.deep_view()
                && r.queries.deep_view() == seq![q@],
            Option::Some(SubCommand::Info) => r.fields.deep_view() == Seq::<Seq<char>>::empty()
                && r.queries.deep_view() == Seq::<Seq<char>>::empty(),
        },
{
    match cmd {
        Option::None => {
            let fields = default_fields(&opts.group_by);
            let mut queries: Vec<String> = Vec::new();
            queries.push(summary_query(&opts.order_by, opts.limit));
            queries.push(detailed_query(&opts.group_by, opts.having, &opts.order_by, opts.limit));
            proof {
                assert(queries.deep_view() =~~= seq![
                    summary_query_spec(opts.order_by@, opts.limit as nat),
                    detailed_query_spec(
                        opts.group_by@,
                        opts.having as nat,
                        opts.order_by@,
                        opts.limit as nat,
                    ),
                ]);
            }
            QueryPlan { fields, queries }
        },
        Option::Some(SubCommand::Avg(f)) => {
            let mut queries: Vec<String> = Vec::new();
            queries.push(avg_query(f));
            proof {
                assert(queries.deep_view() =~~= seq![avg_query_spec(f.deep_view())]);
            }
            QueryPlan { fields: f.clone(), queries }
        },
        Option::Some(SubCommand::Sum(f)) => {
            let mut queries: Vec<String> = Vec::new();
            queries.push(sum_query(f));
            proof {
                assert(queries.deep_view() =~~= seq![sum_query_spec(f.deep_view())]);
            }
            QueryPlan { fields: f.clone(), queries }
        },
        Option::Some(SubCommand::Print(f)) => {
            let mut queries: Vec<String> = Vec::new();
            queries.push(print_query(f));
            proof {
                assert(queries.deep_view() =~~= seq![print_query_spec(f.deep_view())]);
            }
            QueryPlan { fields: f.clone(), queries }
        },
        Option::Some(SubCommand::Top(f)) => {
            let mut queries: Vec<String> = Vec::new();
            let mut i: usize = 0;
            while i < f.len()
                invariant
                    i <= f.len(),
                    f.deep_view().len() == f@.len(),
                    queries.deep_view().len() == i,
                    forall|k: int|
                        0 <= k < i ==> queries.deep_view()[k] == top_query_spec(
                            f.deep_view()[k],
                            opts.limit as nat,
                        ),
                decreases f.len() - i,
            {
                let q = top_query(&f[i], opts.limit);
                let ghost before = queries.deep_view();
                let ghost qv = q@;
                queries.push(q);
                proof {
                    assert(f.deep_view()[i as int] == f@[i as int]@);
                    assert(queries.deep_view() =~~= before.push(qv));
                }
                i = i + 1;
            }
            proof {
                assert(queries.deep_view() =~~= f.deep_view().map_values(
                    |x: Seq<char>| top_query_spec(x, opts.limit as nat),
                ));
            }
            QueryPlan { fields: f.clone(), queries }
        },
        Option::Some(SubCommand::Query(f, q)) => {
            let mut queries: Vec<String> = Vec::new();
            queries.push(q.clone());
            proof {
                assert(queries.deep_view() =~~= seq![q@]);
            }
            QueryPlan { fields: f.clone(), queries }
        },
        Option::Some(SubCommand::Info) => {
            let fields: Vec<String> = Vec::new();
            let queries: Vec<String> = Vec::new();
            proof {
                assert(fields.deep_view() =~~= Seq::<Seq<char>>::empty());
                assert(queries.deep_view() =~~= Seq::<Seq<char>>::empty());
            }
            QueryPlan { fields, queries }
        },
    }
}

} // verus!
