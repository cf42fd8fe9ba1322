//! The processing engine: owns the embedded relational store, creates the
//! schema for the resolved field list, inserts extracted records, and runs
//! the configured queries.  The store itself is an external collaborator;
//! every statement handed to it is built by verified code.

use vstd::prelude::*;
use vstd::string::StringExecFns;
use crate::AppError;
use crate::extract::FieldValue;
use crate::extract::FieldValueView;
use crate::extract::extract_record;
use crate::extract::record_spec;
use crate::format::Matcher;
use crate::format::captures_of;
use crate::text::join_with;
use crate::text::join_strings;
use crate::text::dec_of;
use crate::text::u64_string;
use crate::render::QueryTable;
use crate::render::RenderValue;
use crate::render::render_report;
use crate::render::report_spec;

verus! {

#[verifier::external_type_specification]
#[verifier::external_body]
pub struct ExConnection(rusqlite::Connection);

#[verifier::external_type_specification]
#[verifier::external_body]
pub struct ExSqlError(rusqlite::Error);

#[verifier::external_type_specification]
#[verifier::external_body]
pub struct ExValueRef<'a>(rusqlite::types::ValueRef<'a>);

/// Relies on rusqlite::Connection::open_in_memory: opens a fresh, empty
/// in-memory database.
#[verifier::external_body]
fn open_memory_db() -> (r: Result<rusqlite::Connection, rusqlite::Error>) {
    rusqlite::Connection::open_in_memory()
}

/// Relies on rusqlite::Connection::execute: runs one parameterless SQL
/// statement against the store.
#[verifier::external_body]
fn db_execute(conn: &rusqlite::Connection, sql: &str) -> (r: Result<(), rusqlite::Error>) {
    conn.execute(sql, []).map(|_| ())
}

/// Relies on rusqlite::Connection::execute with named parameters: runs one
/// statement binding each `:name` placeholder to its value.
#[verifier::external_body]
fn db_execute_named(
    conn: &rusqlite::Connection,
    sql: &str,
    params: &Vec<(String, FieldValue)>,
) -> (r: Result<(), rusqlite::Error>) {
    let vals: Vec<(&str, rusqlite::types::Value)> = params.iter().map(
        |p: &(String, FieldValue)|
            (
                p.0.as_str(),
                match &p.1 {
                    FieldValue::Int(i) => rusqlite::types::Value::Integer(*i),
                    FieldValue::Text(s) => rusqlite::types::Value::Text(s.clone()),
                },
            ),
    ).collect();
    conn.execute(sql, &vals[..]).map(|_| ())
}

/// Relies on the std Display implementation of rusqlite::Error to describe a
/// store failure.
#[verifier::external_body]
fn db_error_message(e: &rusqlite::Error) -> String {
    format!("{}", e)
}

/// Relies on rusqlite::Statement::{column_names, query}, rusqlite::Rows::next
/// and rusqlite::Row::get_ref: runs one query and collects its column names
/// and rows; every row carries one value per column.
#[verifier::external_body]
fn db_query(conn: &rusqlite::Connection, sql: &str) -> (r: Result<QueryTable, rusqlite::Error>)
    ensures
        r matches Ok(t) ==> forall|k: int|
            0 <= k < t.rows@.len() ==> (#[trigger] t.rows@[k])@.len() == t.columns@.len(),
{
    let stmt = &mut conn.prepare(sql)?;
    let columns: Vec<String> = stmt.column_names().iter().map(|c| c.to_string()).collect();
    let ncols = columns.len();
    let mut out: Vec<Vec<RenderValue>> = Vec::new();
    let mut rows = stmt.query([])?;
    while let Some(row) = rows.next()? {
        let mut vals: Vec<RenderValue> = Vec::with_capacity(ncols);
        for i in 0..ncols {
            vals.push(cell_value(row.get_ref(i)?));
        }
        out.push(vals);
    }
    Ok(QueryTable { columns, rows: out })
}

/// Relies on the rusqlite::types::ValueRef variants: converts one result
/// cell to a plain tagged value.  A real is printed here, with two decimals:
/// that display rule is part of what this item is trusted for, since a float
/// value cannot cross into verified code.
#[verifier::external_body]
fn cell_value(v: rusqlite::types::ValueRef<'_>) -> RenderValue {
    match v {
        rusqlite::types::ValueRef::Null => RenderValue::Null,
        rusqlite::types::ValueRef::Integer(i) => RenderValue::Integer(i),
        rusqlite::types::ValueRef::Real(f) => RenderValue::Real(format!("{:.2}", f)),
        rusqlite::types::ValueRef::Text(t) => RenderValue::Text(t.to_vec()),
        rusqlite::types::ValueRef::Blob(b) => RenderValue::Blob(b.to_vec()),
    }
}

/// `CREATE TABLE log (f1, ..., fn)`
pub open spec fn create_table_stmt_spec(fields: Seq<Seq<char>>) -> Seq<char> {
    "CREATE TABLE log ("@ + join_with(fields, ", "@) + ")"@
}

/// `CREATE INDEX log_idxI on log (f)`
pub open spec fn index_stmt_spec(i: nat, field: Seq<char>) -> Seq<char> {
    "CREATE INDEX log_idx"@ + dec_of(i) + " on log ("@ + field + ")"@
}

/// The placeholder list `:f1, ..., :fn`.
pub open spec fn placeholders_spec(fields: Seq<Seq<char>>) -> Seq<char> {
    join_with(fields.map_values(|f: Seq<char>| ":"@ + f), ", "@)
}

/// `INSERT INTO LOG (f1, ..., fn) VALUES (:f1, ..., :fn)`
pub open spec fn insert_stmt_spec(fields: Seq<Seq<char>>) -> Seq<char> {
    "INSERT INTO LOG ("@ + join_with(fields, ", "@) + ") VALUES ("@ + placeholders_spec(fields)
        + ")"@
}

/// The main processing engine: the store handle, the resolved field schema,
/// and the queries of this run.
pub struct Processor {
    conn: rusqlite::Connection,
    /// The fields tracked by the schema, in order.
    pub fields: Vec<String>,
    columns: String,
    placeholders: String,
    /// The queries run at each report.
    pub queries: Vec<String>,
}

impl Processor {
    /// The field schema, in order.
    pub closed spec fn fields_view(self) -> Seq<String> {
        self.fields@
    }

    /// The configured queries, in declaration order.
    pub closed spec fn queries_view(self) -> Seq<String> {
        self.queries@
    }

    /// The cached column list and placeholder list are exactly those derived
    /// from the field schema.
    pub closed spec fn wf(self) -> bool {
        self.columns@ == join_with(self.fields.deep_view(), ", "@) && self.placeholders@
            == placeholders_spec(self.fields.deep_view())
    }

    /// Opens a fresh store for the given schema and queries.
    pub fn new(fields: Vec<String>, queries: Vec<String>) -> (r: Result<Processor, AppError>)
        ensures
            r matches Ok(p) ==> p.wf() && p.fields_view() == fields@ && p.queries_view() == queries@,
            r matches Err(e) ==> e is Store,
    {
        let columns = join_strings(&fields, ", ");
        let mut phs: Vec<String> = Vec::new();
        let mut i: usize = 0;
        while i < fields.len()
            invariant
                i <= fields.len(),
                fields.deep_view().len() == fields@.len(),
                phs.deep_view().len() == i,
                forall|k: int|
                    0 <= k < i ==> phs.deep_view()[k] == ":"@ + fields.deep_view()[k],
            decreases fields.len() - i,
        {
            let mut e: String = ":".to_owned();
            e.append(fields[i].as_str());
            let ghost before = phs.deep_view();
            let ghost ev = e@;
            phs.push(e);
            proof {
                assert(phs.deep_view() =~~= before.push(ev));
            }
            i = i + 1;
        }
        proof {
            assert(phs.deep_view() =~~= fields.deep_view().map_values(|f: Seq<char>| ":"@ + f));
        }
        let placeholders = join_strings(&phs, ", ");
        match open_memory_db() {
            Ok(conn) => Ok(Processor { conn, fields, columns, placeholders, queries }),
            Err(e) => Err(AppError::Store(db_error_message(&e))),
        }
    }

    /// Creates the log table over the field schema and one index per field.
    /// Any statement the store rejects surfaces as a store error.
    pub fn initialize(&self) -> (r: Result<(), AppError>)
        requires
            self.wf(),
        ensures
            r matches Err(e) ==> e is Store,
    {
        let mut create: String = "CREATE TABLE log (".to_owned();
        create.append(self.columns.as_str());
        create.append(")");
        proof {
            assert(create@ =~= create_table_stmt_spec(self.fields.deep_view()));
        }
        match db_execute(&self.conn, create.as_str()) {
            Ok(_) => {},
            Err(e) => {
                return Err(AppError::Store(db_error_message(&e)));
            },
        }
        let mut i: usize = 0;
        while i < self.fields.len()
            invariant
                i <= self.fields.len(),
            decreases self.fields.len() - i,
        {
            let mut stmt: String = "CREATE INDEX log_idx".to_owned();
            stmt.append(u64_string(i as u64).as_str());
            stmt.append(" on log (");
            stmt.append(self.fields[i].as_str());
            stmt.append(")");
            proof {
                assert(stmt@ =~= index_stmt_spec(i as nat, self.fields@[i as int]@));
            }
            match db_execute(&self.conn, stmt.as_str()) {
                Ok(_) => {},
                Err(e) => {
                    return Err(AppError::Store(db_error_message(&e)));
                },
            }
            i = i + 1;
        }
        Ok(())
    }

    /// Inserts every record into the log table, binding each placeholder to
    /// the record's value for that field.
    pub fn process(&self, records: &Vec<Vec<(String, FieldValue)>>) -> (r: Result<(), AppError>)
        requires
            self.wf(),
        ensures
            records@.len() == 0 ==> r is Ok,
            r matches Err(e) ==> e is Store,
    {
        let mut stmt: String = "INSERT INTO LOG (".to_owned();
        stmt.append(self.columns.as_str());
        stmt.append(") VALUES (");
        stmt.append(self.placeholders.as_str());
        stmt.append(")");
        proof {
            assert(stmt@ =~= insert_stmt_spec(self.fields.deep_view()));
        }
        let mut i: usize = 0;
        while i < records.len()
            invariant
                i <= records.len(),
            decreases records.len() - i,
        {
            match db_execute_named(&self.conn, stmt.as_str(), &records[i]) {
                Ok(_) => {},
                Err(e) => {
                    return Err(AppError::Store(db_error_message(&e)));
                },
            }
            i = i + 1;
        }
        Ok(())
    }

    /// Runs every configured query and renders the report: one result set
    /// per query, each rendered as a column-aligned table, concatenated in
    /// query declaration order.  With no queries the report is empty and
    /// always succeeds.  A failing query aborts the report with a store
    /// error; a result value that is not valid text where text is required
    /// aborts it with an encoding error.
    pub fn report(&self) -> (r: Result<String, AppError>)
        requires
            self.wf(),
        ensures
            self.queries_view().len() == 0 ==> (r matches Ok(s) && s@ == Seq::<char>::empty()),
            r matches Ok(s) ==> exists|ts: Seq<QueryTable>|
                ts.len() == self.queries_view().len() && s@ == #[trigger] report_spec(ts),
            r matches Err(e) ==> e is Store || e is Encoding,
    {
        let mut tables: Vec<QueryTable> = Vec::new();
        let mut i: usize = 0;
        while i < self.queries.len()
            invariant
                i <= self.queries.len(),
                tables@.len() == i,
            decreases self.queries.len() - i,
        {
            match db_query(&self.conn, self.queries[i].as_str()) {
                Ok(t) => {
                    tables.push(t);
                },
                Err(e) => {
                    return Err(AppError::Store(db_error_message(&e)));
                },
            }
            i = i + 1;
        }
        match render_report(&tables) {
            Ok(s) => {
                proof {
                    assert(tables@.len() == self.queries_view().len());
                    if self.queries_view().len() == 0 {
                        assert(report_spec(tables@) =~= Seq::<char>::empty());
                    }
                    assert(tables@.len() == self.queries_view().len() && s@ == report_spec(
                        tables@,
                    ));
                }
                Ok(s)
            },
            Err(e) => Err(e),
        }
    }
}

/// Builds a ready processor: opens a fresh store for the schema and queries
/// and creates the log table and its indexes.
pub fn generate_processor(fields: Vec<String>, queries: Vec<String>) -> (r: Result<
    Processor,
    AppError,
>)
    ensures
        r matches Ok(p) ==> p.wf() && p.fields_view() == fields@ && p.queries_view() == queries@,
        r matches Err(e) ==> e is Store,
{
    let p = match Processor::new(fields, queries) {
        Ok(p) => p,
        Err(e) => {
            return Err(e);
        },
    };
    match p.initialize() {
        Ok(_) => Ok(p),
        Err(e) => Err(e),
    }
}

/// The batch of records extracted from a sequence of lines: one record per
/// line the pattern matches, in line order; a line that does not match
/// contributes nothing.
pub open spec fn batch_records_spec(
    fields: Seq<Seq<char>>,
    names: Seq<Seq<char>>,
    pattern: Seq<char>,
    lines: Seq<Seq<char>>,
) -> Seq<Seq<(Seq<char>, FieldValueView)>>
    decreases lines.len(),
{
    if lines.len() == 0 {
        Seq::empty()
    } else {
        let rest = batch_records_spec(fields, names, pattern, lines.drop_first());
        match captures_of(pattern, names, lines[0]) {
            Some(caps) => seq![record_spec(fields, names, caps)] + rest,
            None => rest,
        }
    }
}

proof fn lemma_batch_records_snoc(
    fields: Seq<Seq<char>>,
    names: Seq<Seq<char>>,
    pattern: Seq<char>,
    lines: Seq<Seq<char>>,
    line: Seq<char>,
)
    ensures
        batch_records_spec(fields, names, pattern, lines.push(line)) == batch_records_spec(
            fields,
            names,
            pattern,
            lines,
        ) + (match captures_of(pattern, names, line) {
            Some(caps) => seq![record_spec(fields, names, caps)],
            None => Seq::empty(),
        }),
    decreases lines.len(),
{
    let tail = (match captures_of(pattern, names, line) {
        Some(caps) => seq![record_spec(fields, names, caps)],
        None => Seq::<Seq<(Seq<char>, FieldValueView)>>::empty(),
    });
    if lines.len() == 0 {
        assert(lines.push(line) =~= seq![line]);
        assert(lines.push(line).drop_first() =~= Seq::<Seq<char>>::empty());
        assert(batch_records_spec(fields, names, pattern, lines.push(line).drop_first())
            =~= Seq::<Seq<(Seq<char>, FieldValueView)>>::empty());
        assert(batch_records_spec(fields, names, pattern, lines)
            =~= Seq::<Seq<(Seq<char>, FieldValueView)>>::empty());
        assert(batch_records_spec(fields, names, pattern, lines.push(line)) =~= batch_records_spec(
            fields,
            names,
            pattern,
            lines,
        ) + tail);
    } else {
        assert(lines.push(line).drop_first() =~= lines.drop_first().push(line));
        lemma_batch_records_snoc(fields, names, pattern, lines.drop_first(), line);
        assert(lines.push(line)[0] == lines[0]);
        assert(batch_records_spec(fields, names, pattern, lines.push(line)) =~= batch_records_spec(
            fields,
            names,
            pattern,
            lines,
        ) + tail);
    }
}

/// Extracts the batch of records from every line the matcher accepts, in
/// line order; a line that does not match is dropped, not an error.
pub fn extract_batch(fields: &Vec<String>, m: &Matcher, lines: &Vec<String>) -> (r: Vec<
    Vec<(String, FieldValue)>,
>)
    ensures
        r.deep_view() == batch_records_spec(
            fields.deep_view(),
            m.names_view(),
            m.pattern_view(),
            lines.deep_view(),
        ),
{
    let ghost fv = fields.deep_view();
    let ghost nv = m.names_view();
    let ghost pv = m.pattern_view();
    let mut records: Vec<Vec<(String, FieldValue)>> = Vec::new();
    let mut i: usize = 0;
    proof {
        assert(lines.deep_view().take(0) =~= Seq::<Seq<char>>::empty());
        assert(records.deep_view() =~~= batch_records_spec(fv, nv, pv, lines.deep_view().take(0)));
    }
    while i < lines.len()
        invariant
            i <= lines.len(),
            fv == fields.deep_view(),
            nv == m.names_view(),
            pv == m.pattern_view(),
            lines.deep_view().len() == lines@.len(),
            records.deep_view() == batch_records_spec(fv, nv, pv, lines.deep_view().take(i as int)),
        decreases lines.len() - i,
    {
        proof {
            assert(lines.deep_view()[i as int] == lines@[i as int]@);
            assert(lines.deep_view().take(i as int).push(lines.deep_view()[i as int])
                =~= lines.deep_view().take(i + 1));
            lemma_batch_records_snoc(
                fv,
                nv,
                pv,
                lines.deep_view().take(i as int),
                lines.deep_view()[i as int],
            );
        }
        match m.captures(lines[i].as_str()) {
            Some(caps) => {
                let record = extract_record(fields, m.group_names(), &caps);
                let ghost before = records.deep_view();
                let ghost rv = record.deep_view();
                records.push(record);
                proof {
                    assert(records.deep_view() =~~= before.push(rv));
                    assert(records.deep_view() =~= batch_records_spec(
                        fv,
                        nv,
                        pv,
                        lines.deep_view().take(i + 1),
                    ));
                }
            },
            None => {
                proof {
                    assert(records.deep_view() =~= batch_records_spec(
                        fv,
                        nv,
                        pv,
                        lines.deep_view().take(i + 1),
                    ));
                }
            },
        }
        i = i + 1;
    }
    proof {
        assert(lines.deep_view().take(lines@.len() as int) =~= lines.deep_view());
    }
    records
}

/// Law: the static pipeline is deterministic up to the store.  The batch of
/// records extracted — and so everything handed to the embedded engine — is
/// a function of the field schema, the matcher, and the input lines alone:
/// two runs over an identical input and configuration insert identical
/// records.
pub proof fn lemma_static_extraction_idempotent(
    fields: Seq<Seq<char>>,
    names: Seq<Seq<char>>,
    pattern: Seq<char>,
    lines: Seq<Seq<char>>,
    first: Seq<Seq<(Seq<char>, FieldValueView)>>,
    second: Seq<Seq<(Seq<char>, FieldValueView)>>,
)
    requires
        first == batch_records_spec(fields, names, pattern, lines),
        second == batch_records_spec(fields, names, pattern, lines),
    ensures
        first == second,
{
}

/// Extracts a record from every line that the matcher accepts and inserts
/// the records; a line that does not match is dropped, not an error.
pub fn process_lines(p: &Processor, m: &Matcher, lines: &Vec<String>) -> (r: Result<(), AppError>)
    requires
        p.wf(),
    ensures
        lines@.len() == 0 ==> r is Ok,
        r matches Err(e) ==> e is Store,
{
    let records = extract_batch(&p.fields, m, lines);
    proof {
        if lines@.len() == 0 {
            assert(records.deep_view().len() == 0);
            assert(records@.len() == 0);
        }
    }
    p.process(&records)
}

} // verus!
