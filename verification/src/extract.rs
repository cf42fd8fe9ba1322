//! The record extractor: turns the captures of one matched line into a typed
//! field record, resolving the derived fields (status class, bytes sent,
//! request path) by fixed, deterministic rules.

use vstd::prelude::*;
use vstd::string::StrSliceExecFns;
use vstd::string::StringExecFns;

verus! {

/// One typed value bound to a field of a record.
pub enum FieldValue {
    /// A numeric field (status class or bytes sent).
    Int(i64),
    /// A textual field, taken verbatim from a capture.
    Text(String),
}

/// The mathematical value of a `FieldValue`.
pub enum FieldValueView {
    Int(int),
    Text(Seq<char>),
}

impl View for FieldValue {
    type V = FieldValueView;

    open spec fn view(&self) -> FieldValueView {
        match self {
            FieldValue::Int(i) => FieldValueView::Int(*i as int),
            FieldValue::Text(s) => FieldValueView::Text(s@),
        }
    }
}

impl DeepView for FieldValue {
    type V = FieldValueView;

    open spec fn deep_view(&self) -> FieldValueView {
        self.view()
    }
}

pub open spec fn is_digit(c: char) -> bool {
    '0' <= c && c <= '9'
}

pub open spec fn digit_of(c: char) -> nat {
    (c as nat - '0' as nat) as nat
}

/// True when `s` is one or more decimal digits.
pub open spec fn all_digits(s: Seq<char>) -> bool {
    s.len() > 0 && forall|k: int| 0 <= k < s.len() ==> is_digit(#[trigger] s[k])
}

/// The number denoted by a digit string, most significant digit first.
pub open spec fn digits_val(s: Seq<char>) -> nat
    decreases s.len(),
{
    if s.len() == 0 {
        0
    } else {
        digits_val(s.drop_last()) * 10 + digit_of(s.last())
    }
}

/// The unsigned number denoted by `s`: an optional leading `'+'`, then one or
/// more digits; anything else does not parse.
pub open spec fn parse_uint(s: Seq<char>) -> Option<nat> {
    let d = if s.len() >= 1 && s[0] == '+' {
        s.drop_first()
    } else {
        s
    };
    if all_digits(d) {
        Some(digits_val(d))
    } else {
        None
    }
}

/// The status class of a captured status text: the status code divided by
/// 100, a bucket in {0, 1, 2, 3, 4, 5}.  Text that does not parse as an
/// unsigned number, or a number beyond the status-code range, falls in
/// bucket 0.
pub open spec fn status_class_of(s: Seq<char>) -> nat {
    match parse_uint(s) {
        Some(v) => if v <= 599 {
            v / 100
        } else {
            0
        },
        None => 0,
    }
}

/// The bytes-sent value of a captured text: the number itself when the text
/// parses as a 32-bit unsigned number, 0 otherwise.
pub open spec fn bytes_sent_of(s: Seq<char>) -> nat {
    match parse_uint(s) {
        Some(v) => if v <= 4294967295 {
            v
        } else {
            0
        },
        None => 0,
    }
}

/// The request path: the dedicated URI capture verbatim when present, else
/// the full request-line capture verbatim, else empty.  Presence alone
/// decides: a present but empty URI capture is used as it stands, and the
/// request line is the fallback only when the URI capture is absent.
pub open spec fn request_path_of(uri: Option<Seq<char>>, request: Option<Seq<char>>) -> Seq<char> {
    match uri {
        Some(u) => u,
        None => match request {
            Some(q) => q,
            None => Seq::empty(),
        },
    }
}

/// The captured text of the first group called `name`, if any.
pub open spec fn capture_of(
    names: Seq<Seq<char>>,
    caps: Seq<Option<Seq<char>>>,
    name: Seq<char>,
) -> Option<Seq<char>>
    decreases names.len(),
{
    if names.len() == 0 || caps.len() == 0 {
        None
    } else if names[0] == name {
        caps[0]
    } else {
        capture_of(names.drop_first(), caps.drop_first(), name)
    }
}

pub open spec fn text_or_empty(o: Option<Seq<char>>) -> Seq<char> {
    match o {
        Some(s) => s,
        None => Seq::empty(),
    }
}

/// The value bound to requested field `f`, resolved from the captures of one
/// line: the fixed derivation rules for the three derived fields, and the raw
/// capture (or empty) for any other field.
pub open spec fn field_value_of(
    f: Seq<char>,
    names: Seq<Seq<char>>,
    caps: Seq<Option<Seq<char>>>,
) -> FieldValueView {
    if f == "status_type"@ {
        FieldValueView::Int(status_class_of(text_or_empty(capture_of(names, caps, "status"@))) as int)
    } else if f == "bytes_sent"@ {
        FieldValueView::Int(
            bytes_sent_of(text_or_empty(capture_of(names, caps, "body_bytes_sent"@))) as int,
        )
    } else if f == "request_path"@ {
        FieldValueView::Text(
            request_path_of(
                capture_of(names, caps, "request_uri"@),
                capture_of(names, caps, "request"@),
            ),
        )
    } else {
        FieldValueView::Text(text_or_empty(capture_of(names, caps, f)))
    }
}

/// The full record extracted from one matched line: each requested field's
/// insert placeholder (`:field`) paired with its resolved value, in the
/// requested field order.
pub open spec fn record_spec(
    fields: Seq<Seq<char>>,
    names: Seq<Seq<char>>,
    caps: Seq<Option<Seq<char>>>,
) -> Seq<(Seq<char>, FieldValueView)> {
    fields.map_values(|f: Seq<char>| (":"@ + f, field_value_of(f, names, caps)))
}

fn str_eq(a: &str, b: &str) -> (r: bool)
    ensures
        r == (a@ == b@),
{
    let x: String = a.to_owned();
    let y: String = b.to_owned();
    x == y
}

/// Parses `s` as an unsigned number no greater than `bound`; `None` when the
/// text does not parse or the value is out of bounds.
fn parse_bounded(s: &str, bound: u32) -> (r: Option<u32>)
    ensures
        match parse_uint(s@) {
            Some(v) => r == (
            if v <= bound as nat {
                Option::Some(v as u32)
            } else {
                Option::<u32>::None
            }),
            None => r is None,
        },
{
    let n = s.unicode_len();
    let start: usize = if n > 0 && s.get_char(0) == '+' {
        1
    } else {
        0
    };
    let ghost d = if s@.len() >= 1 && s@[0] == '+' {
        s@.drop_first()
    } else {
        s@
    };
    proof {
        assert(d =~= s@.skip(start as int));
    }
    if n == start {
        return None;
    }
    let mut i: usize = start;
    let mut acc: u32 = 0;
    let mut over: bool = false;
    while i < n
        invariant
            start <= i <= n,
            n == s@.len(),
            start < n,
            d == s@.skip(start as int),
            d == (if s@.len() >= 1 && s@[0] == '+' {
                s@.drop_first()
            } else {
                s@
            }),
            forall|k: int| start <= k < i ==> is_digit(#[trigger] s@[k]),
            !over ==> acc as nat == digits_val(s@.subrange(start as int, i as int)) && acc <= bound,
            over ==> digits_val(s@.subrange(start as int, i as int)) > bound,
            bound <= 4294967295,
        decreases n - i,
    {
        let c = s.get_char(i);
        if !('0' <= c && c <= '9') {
            proof {
                assert(d[i - start] == s@[i as int]);
                assert(!all_digits(d));
            }
            return None;
        }
        let dv: u32 = (c as u32) - 48;
        proof {
            assert(s@.subrange(start as int, i + 1).drop_last() =~= s@.subrange(
                start as int,
                i as int,
            ));
            assert(s@.subrange(start as int, i + 1).last() == s@[i as int]);
            assert(dv as nat == digit_of(s@[i as int]));
        }
        if over {
            proof {
                assert(digits_val(s@.subrange(start as int, i + 1)) > bound);
            }
        } else {
            if acc > bound / 10 || (acc == bound / 10 && dv > bound % 10) {
                over = true;
                proof {
                    assert(acc as nat * 10 + dv as nat > bound) by (nonlinear_arith)
                        requires
                            acc as nat == digits_val(s@.subrange(start as int, i as int)),
                            bound <= 4294967295,
                            dv < 10,
                            acc > bound / 10 || (acc == bound / 10 && dv > bound % 10),
                    ;
                }
            } else {
                proof {
                    assert(acc as nat * 10 + dv as nat <= bound) by (nonlinear_arith)
                        requires
                            bound <= 4294967295,
                            dv < 10,
                            acc <= bound / 10,
                            acc == bound / 10 ==> dv <= bound % 10,
                    ;
                }
                acc = acc * 10 + dv;
            }
        }
        i = i + 1;
    }
    proof {
        assert(s@.subrange(start as int, n as int) =~= d);
        assert(all_digits(d));
    }
    if over {
        None
    } else {
        Some(acc)
    }
}

/// The status class of a captured status text (`"404"` gives 4, text that
/// is not a status code gives 0); the result is a bucket in {0, ..., 5}.
pub fn status_class(s: &str) -> (r: u16)
    ensures
        r as nat == status_class_of(s@),
        r <= 5,
{
    match parse_bounded(s, 599) {
        Some(v) => (v / 100) as u16,
        None => 0,
    }
}

/// The bytes-sent number of a captured text (text that is not a 32-bit
/// number gives 0).
pub fn bytes_sent(s: &str) -> (r: u32)
    ensures
        r as nat == bytes_sent_of(s@),
{
    match parse_bounded(s, 4294967295) {
        Some(v) => v,
        None => 0,
    }
}

/// The request path resolved from the two relevant captures.
pub fn request_path(uri: &Option<String>, request: &Option<String>) -> (r: String)
    ensures
        r@ == request_path_of(uri.deep_view(), request.deep_view()),
{
    match uri {
        Some(u) => u.clone(),
        None => match request {
            Some(q) => q.clone(),
            None => String::new(),
        },
    }
}

/// Looks up the capture of the group called `name`.
pub fn find_capture(names: &Vec<String>, caps: &Vec<Option<String>>, name: &str) -> (r: Option<
    String,
>)
    ensures
        r.deep_view() == capture_of(names.deep_view(), caps.deep_view(), name@),
{
    let mut i: usize = 0;
    proof {
        assert(names.deep_view().skip(0) =~= names.deep_view());
        assert(caps.deep_view().skip(0) =~= caps.deep_view());
    }
    while i < names.len() && i < caps.len()
        invariant
            i <= names.len(),
            i <= caps.len(),
            names.deep_view().len() == names@.len(),
            caps.deep_view().len() == caps@.len(),
            capture_of(names.deep_view(), caps.deep_view(), name@) == capture_of(
                names.deep_view().skip(i as int),
                caps.deep_view().skip(i as int),
                name@,
            ),
        decreases names.len() - i,
    {
        proof {
            assert(names.deep_view().skip(i as int)[0] == names.deep_view()[i as int]);
            assert(caps.deep_view().skip(i as int)[0] == caps.deep_view()[i as int]);
            assert(names.deep_view().skip(i as int).drop_first() =~= names.deep_view().skip(i + 1));
            assert(caps.deep_view().skip(i as int).drop_first() =~= caps.deep_view().skip(i + 1));
        }
        if str_eq(names[i].as_str(), name) {
            return caps[i].clone();
        }
        i = i + 1;
    }
    None
}

/// Resolves every requested field from the captures of one matched line.
/// The record pairs each field's insert placeholder (`:field`) with its typed
/// value, in the requested field order.
pub fn extract_record(fields: &Vec<String>, names: &Vec<String>, caps: &Vec<Option<String>>) -> (r:
    Vec<(String, FieldValue)>)
    ensures
        r.deep_view() == record_spec(fields.deep_view(), names.deep_view(), caps.deep_view()),
{
    let mut r: Vec<(String, FieldValue)> = Vec::new();
    let mut i: usize = 0;
    while i < fields.len()
        invariant
            i <= fields.len(),
            fields.deep_view().len() == fields@.len(),
            r@.len() == i,
            forall|k: int|
                0 <= k < i ==> (#[trigger] r@[k]).0@ == ":"@ + fields.deep_view()[k] && r@[k].1@
                    == field_value_of(fields.deep_view()[k], names.deep_view(), caps.deep_view()),
        decreases fields.len() - i,
    {
        let field = &fields[i];
        let value: FieldValue = if str_eq(field.as_str(), "status_type") {
            let cap = find_capture(names, caps, "status");
            let text = match cap {
                Some(t) => t,
                None => String::new(),
            };
            FieldValue::Int(status_class(text.as_str()) as i64)
        } else if str_eq(field.as_str(), "bytes_sent") {
            let cap = find_capture(names, caps, "body_bytes_sent");
            let text = match cap {
                Some(t) => t,
                None => String::new(),
            };
            FieldValue::Int(bytes_sent(text.as_str()) as i64)
        } else if str_eq(field.as_str(), "request_path") {
            let uri = find_capture(names, caps, "request_uri");
            let request = find_capture(names, caps, "request");
            FieldValue::Text(request_path(&uri, &request))
        } else {
            let cap = find_capture(names, caps, field.as_str());
            match cap {
                Some(t) => FieldValue::Text(t),
                None => FieldValue::Text(String::new()),
            }
        };
        let mut placeholder: String = ":".to_owned();
        placeholder.append(field.as_str());
        proof {
            assert(fields.deep_view()[i as int] == fields@[i as int]@);
        }
        r.push((placeholder, value));
        i = i + 1;
    }
    proof {
        assert(r.deep_view() =~= record_spec(
            fields.deep_view(),
            names.deep_view(),
            caps.deep_view(),
        )) by {
            assert(forall|k: int|
                0 <= k < r@.len() ==> #[trigger] r.deep_view()[k] == (r@[k].0@, r@[k].1@));
        }
    }
    r
}

} // verus!
