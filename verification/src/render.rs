//! The report renderer: formats one query result set as tab-separated,
//! column-aligned text with one header line, dispatching on each value's
//! tag.  Binary values are decoded as text; a decoding failure is an error,
//! never a silent substitution.

use vstd::prelude::*;
use vstd::string::StringExecFns;
use vstd::utf8::valid_utf8;
use vstd::utf8::decode_utf8;
use crate::AppError;
use crate::text::join_with;
use crate::text::join_strings;
use crate::text::dec_int_of;
use crate::text::i64_string;

verus! {

/// One tagged value of a query result row.
pub enum RenderValue {
    /// A SQL NULL.
    Null,
    /// A signed integer.
    Integer(i64),
    /// A real, already printed with two decimals.
    Real(String),
    /// A text value, as the bytes the store holds.
    Text(Vec<u8>),
    /// A blob of data.
    Blob(Vec<u8>),
}

/// The mathematical value of a `RenderValue`.
pub enum RenderValueView {
    Null,
    Integer(int),
    Real(Seq<char>),
    Text(Seq<u8>),
    Blob(Seq<u8>),
}

impl View for RenderValue {
    type V = RenderValueView;

    open spec fn view(&self) -> RenderValueView {
        match self {
            RenderValue::Null => RenderValueView::Null,
            RenderValue::Integer(i) => RenderValueView::Integer(*i as int),
            RenderValue::Real(s) => RenderValueView::Real(s@),
            RenderValue::Text(b) => RenderValueView::Text(b@),
            RenderValue::Blob(b) => RenderValueView::Blob(b@),
        }
    }
}

impl DeepView for RenderValue {
    type V = RenderValueView;

    open spec fn deep_view(&self) -> RenderValueView {
        self.view()
    }
}

/// One query result set: the column names and the rows, in result order.
pub struct QueryTable {
    /// The column names, in declaration order.
    pub columns: Vec<String>,
    /// The rows; each holds one value per column.
    pub rows: Vec<Vec<RenderValue>>,
}

impl QueryTable {
    /// The column names as character sequences.
    pub open spec fn cols_view(self) -> Seq<Seq<char>> {
        self.columns.deep_view()
    }

    /// The rows as sequences of tagged values.
    pub open spec fn rows_view(self) -> Seq<Seq<RenderValueView>> {
        self.rows.deep_view()
    }
}

/// Relies on String::from_utf8: succeeds exactly on valid UTF-8 and decodes
/// the bytes to their characters.
#[verifier::external_body]
fn bytes_to_string(b: &Vec<u8>) -> (r: Option<String>)
    ensures
        r is Some <==> valid_utf8(b@),
        r matches Some(s) ==> s@ == decode_utf8(b@),
{
    String::from_utf8(b.clone()).ok()
}

/// What a tab-alignment pass returns for the given text; the result depends
/// on the text alone.
pub uninterp spec fn tab_aligned(s: Seq<char>) -> Seq<char>;

/// Relies on tabwriter::TabWriter over an in-memory buffer: rewrites
/// tab-separated text so that the cells of each column line up.
#[verifier::external_body]
pub(crate) fn tab_align(s: &str) -> (r: Option<String>)
    ensures
        r matches Some(t) ==> t@ == tab_aligned(s@),
{
    let mut tw = tabwriter::TabWriter::new(Vec::new());
    std::io::Write::write_all(&mut tw, s.as_bytes()).ok()?;
    std::io::Write::flush(&mut tw).ok()?;
    String::from_utf8(tw.into_inner().ok()?).ok()
}

/// True when the cell can be rendered: text and binary values must hold
/// valid UTF-8.
pub open spec fn cell_ok(v: RenderValueView) -> bool {
    match v {
        RenderValueView::Text(b) => valid_utf8(b),
        RenderValueView::Blob(b) => valid_utf8(b),
        _ => true,
    }
}

/// The text of one rendered cell.
pub open spec fn cell_spec(v: RenderValueView) -> Seq<char> {
    match v {
        RenderValueView::Null => "null"@,
        RenderValueView::Integer(i) => dec_int_of(i),
        RenderValueView::Real(s) => s,
        RenderValueView::Text(b) => decode_utf8(b),
        RenderValueView::Blob(b) => decode_utf8(b),
    }
}

/// One rendered row body: each cell followed by a tab.
pub open spec fn cells_spec(row: Seq<RenderValueView>) -> Seq<char>
    decreases row.len(),
{
    if row.len() == 0 {
        Seq::empty()
    } else {
        cell_spec(row[0]) + "\t"@ + cells_spec(row.drop_first())
    }
}

pub open spec fn row_ok(row: Seq<RenderValueView>) -> bool {
    forall|k: int| 0 <= k < row.len() ==> cell_ok(#[trigger] row[k])
}

/// All rendered rows, each ended by a newline.
pub open spec fn rows_spec(rows: Seq<Seq<RenderValueView>>) -> Seq<char>
    decreases rows.len(),
{
    if rows.len() == 0 {
        Seq::empty()
    } else {
        cells_spec(rows[0]) + "\n"@ + rows_spec(rows.drop_first())
    }
}

pub open spec fn rows_ok(rows: Seq<Seq<RenderValueView>>) -> bool {
    forall|k: int| 0 <= k < rows.len() ==> row_ok(#[trigger] rows[k])
}

/// One rendered result set: the tab-separated header line, then the rows.
pub open spec fn table_spec(columns: Seq<Seq<char>>, rows: Seq<Seq<RenderValueView>>) -> Seq<
    char,
> {
    join_with(columns, "\t"@) + "\n"@ + rows_spec(rows)
}

fn render_cell(v: &RenderValue) -> (r: Result<String, AppError>)
    ensures
        r is Ok <==> cell_ok(v@),
        r matches Ok(s) ==> s@ == cell_spec(v@),
        r matches Err(e) ==> e is Encoding,
{
    match v {
        RenderValue::Null => Ok("null".to_owned()),
        RenderValue::Integer(i) => Ok(i64_string(*i)),
        RenderValue::Real(s) => Ok(s.clone()),
        RenderValue::Text(b) => match bytes_to_string(b) {
            Some(s) => Ok(s),
            None => Err(AppError::Encoding),
        },
        RenderValue::Blob(b) => match bytes_to_string(b) {
            Some(s) => Ok(s),
            None => Err(AppError::Encoding),
        },
    }
}

/// Appending one more cell extends the row body by that cell and a tab.
pub proof fn lemma_cells_spec_push(row: Seq<RenderValueView>, v: RenderValueView)
    ensures
        cells_spec(row.push(v)) == cells_spec(row) + cell_spec(v) + "\t"@,
    decreases row.len(),
{
    if row.len() == 0 {
        assert(row.push(v) =~= seq![v]);
        assert(row.push(v).drop_first() =~= Seq::<RenderValueView>::empty());
        assert(cells_spec(row.push(v).drop_first()) =~= Seq::<char>::empty());
        assert(cells_spec(row) =~= Seq::<char>::empty());
        assert(cells_spec(row.push(v)) =~= cells_spec(row) + cell_spec(v) + "\t"@);
    } else {
        assert(row.push(v).drop_first() =~= row.drop_first().push(v));
        lemma_cells_spec_push(row.drop_first(), v);
        assert(row.push(v)[0] == row[0]);
        assert(cells_spec(row.push(v)) =~= cells_spec(row) + cell_spec(v) + "\t"@);
    }
}

/// Appending one more row extends the rendered rows by that row's body and
/// a newline.
pub proof fn lemma_rows_spec_push(rows: Seq<Seq<RenderValueView>>, row: Seq<RenderValueView>)
    ensures
        rows_spec(rows.push(row)) == rows_spec(rows) + cells_spec(row) + "\n"@,
    decreases rows.len(),
{
    if rows.len() == 0 {
        assert(rows.push(row) =~= seq![row]);
        assert(rows.push(row).drop_first() =~= Seq::<Seq<RenderValueView>>::empty());
        assert(rows_spec(rows.push(row).drop_first()) =~= Seq::<char>::empty());
        assert(rows_spec(rows) =~= Seq::<char>::empty());
        assert(rows_spec(rows.push(row)) =~= rows_spec(rows) + cells_spec(row) + "\n"@);
    } else {
        assert(rows.push(row).drop_first() =~= rows.drop_first().push(row));
        lemma_rows_spec_push(rows.drop_first(), row);
        assert(rows.push(row)[0] == rows[0]);
        assert(rows_spec(rows.push(row)) =~= rows_spec(rows) + cells_spec(row) + "\n"@);
    }
}

/// Renders one result set as tab-separated text: exactly one header line,
/// then one line per row in result order.  Fails with an encoding error
/// exactly when some text or binary cell is not valid UTF-8.
pub fn render_table(t: &QueryTable) -> (r: Result<String, AppError>)
    ensures
        r is Ok <==> rows_ok(t.rows.deep_view()),
        r matches Ok(s) ==> s@ == table_spec(t.columns.deep_view(), t.rows.deep_view()),
        r matches Err(e) ==> e is Encoding,
{
    let mut out = join_strings(&t.columns, "\t");
    out.append("\n");
    let ghost header = out@;
    let mut i: usize = 0;
    while i < t.rows.len()
        invariant
            i <= t.rows.len(),
            t.rows.deep_view().len() == t.rows@.len(),
            forall|k: int| 0 <= k < i ==> row_ok(#[trigger] t.rows.deep_view()[k]),
            out@ == header + rows_spec(t.rows.deep_view().take(i as int)),
            header == join_with(t.columns.deep_view(), "\t"@) + "\n"@,
        decreases t.rows.len() - i,
    {
        let row = &t.rows[i];
        let ghost rowv = t.rows.deep_view()[i as int];
        proof {
            assert(rowv =~~= row.deep_view());
        }
        let mut rowtext = String::new();
        let mut j: usize = 0;
        while j < row.len()
            invariant
                j <= row.len(),
                rowv == row.deep_view(),
                row.deep_view().len() == row@.len(),
                t.rows.deep_view().len() == t.rows@.len(),
                i < t.rows@.len(),
                rowv == t.rows.deep_view()[i as int],
                forall|k: int| 0 <= k < j ==> cell_ok(#[trigger] row.deep_view()[k]),
                rowtext@ == cells_spec(row.deep_view().take(j as int)),
            decreases row.len() - j,
        {
            proof {
                assert(row.deep_view()[j as int] == row@[j as int]@);
            }
            match render_cell(&row[j]) {
                Ok(cell) => {
                    rowtext.append(cell.as_str());
                    rowtext.append("\t");
                    proof {
                        assert(row.deep_view().take(j as int).push(row.deep_view()[j as int])
                            =~= row.deep_view().take(j + 1));
                        lemma_cells_spec_push(
                            row.deep_view().take(j as int),
                            row.deep_view()[j as int],
                        );
                        assert(rowtext@ =~= cells_spec(row.deep_view().take(j + 1)));
                    }
                },
                Err(e) => {
                    proof {
                        assert(!cell_ok(row.deep_view()[j as int]));
                        assert(!row_ok(t.rows.deep_view()[i as int]));
                        assert(!rows_ok(t.rows.deep_view()));
                    }
                    return Err(e);
                },
            }
            j = j + 1;
        }
        out.append(rowtext.as_str());
        out.append("\n");
        proof {
            assert(row.deep_view().take(row@.len() as int) =~= row.deep_view());
            assert(t.rows.deep_view().take(i as int).push(rowv) =~= t.rows.deep_view().take(
                i + 1,
            ));
            lemma_rows_spec_push(t.rows.deep_view().take(i as int), rowv);
            assert(out@ =~= header + rows_spec(t.rows.deep_view().take(i + 1)));
        }
        i = i + 1;
    }
    proof {
        assert(t.rows.deep_view().take(t.rows@.len() as int) =~= t.rows.deep_view());
        assert(out@ =~= table_spec(t.columns.deep_view(), t.rows.deep_view()));
    }
    Ok(out)
}

/// The whole report for a sequence of result sets: each set rendered as a
/// table and passed through the alignment pass, concatenated in query
/// declaration order.
pub open spec fn report_spec(tables: Seq<QueryTable>) -> Seq<char>
    decreases tables.len(),
{
    if tables.len() == 0 {
        Seq::empty()
    } else {
        tab_aligned(table_spec(tables[0].cols_view(), tables[0].rows_view())) + report_spec(
            tables.drop_first(),
        )
    }
}

/// Appending one more result set extends the report by that set's aligned
/// rendering.
pub proof fn lemma_report_spec_push(tables: Seq<QueryTable>, t: QueryTable)
    ensures
        report_spec(tables.push(t)) == report_spec(tables) + tab_aligned(
            table_spec(t.cols_view(), t.rows_view()),
        ),
    decreases tables.len(),
{
    if tables.len() == 0 {
        assert(tables.push(t) =~= seq![t]);
        assert(tables.push(t).drop_first() =~= Seq::<QueryTable>::empty());
        assert(report_spec(tables.push(t).drop_first()) =~= Seq::<char>::empty());
        assert(report_spec(tables) =~= Seq::<char>::empty());
        assert(report_spec(tables.push(t)) =~= report_spec(tables) + tab_aligned(
            table_spec(t.cols_view(), t.rows_view()),
        ));
    } else {
        assert(tables.push(t).drop_first() =~= tables.drop_first().push(t));
        lemma_report_spec_push(tables.drop_first(), t);
        assert(tables.push(t)[0] == tables[0]);
        assert(report_spec(tables.push(t)) =~= report_spec(tables) + tab_aligned(
            table_spec(t.cols_view(), t.rows_view()),
        ));
    }
}

/// Renders and aligns every result set, in order, into one report text.
/// An empty sequence of result sets always renders (to empty text); a cell
/// that is not valid text fails with an encoding error.
pub fn render_report(tables: &Vec<QueryTable>) -> (r: Result<String, AppError>)
    ensures
        tables@.len() == 0 ==> r is Ok,
        r matches Ok(s) ==> s@ == report_spec(tables@) && (forall|k: int|
            0 <= k < tables@.len() ==> rows_ok(#[trigger] tables@[k].rows_view())),
        r matches Err(e) ==> e is Encoding,
{
    let mut out = String::new();
    let mut i: usize = 0;
    proof {
        assert(tables@.take(0) =~= Seq::<QueryTable>::empty());
        assert(out@ =~= report_spec(tables@.take(0)));
    }
    while i < tables.len()
        invariant
            i <= tables.len(),
            out@ == report_spec(tables@.take(i as int)),
            forall|k: int| 0 <= k < i ==> rows_ok(#[trigger] tables@[k].rows_view()),
        decreases tables.len() - i,
    {
        let rendered = match render_table(&tables[i]) {
            Ok(s) => s,
            Err(e) => {
                return Err(e);
            },
        };
        let aligned = match tab_align(rendered.as_str()) {
            Some(s) => s,
            None => {
                return Err(AppError::Encoding);
            },
        };
        out.append(aligned.as_str());
        proof {
            assert(tables@.take(i as int).push(tables@[i as int]) =~= tables@.take(i + 1));
            lemma_report_spec_push(tables@.take(i as int), tables@[i as int]);
            assert(out@ =~= report_spec(tables@.take(i + 1)));
        }
        i = i + 1;
    }
    proof {
        assert(tables@.take(tables@.len() as int) =~= tables@);
    }
    Ok(out)
}

} // verus!
