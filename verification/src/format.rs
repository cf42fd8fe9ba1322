//! The format compiler: turns a log-format template containing `$name`
//! directives into a matcher pattern with one named capture group per
//! directive, in template order, and lists the directive names.

use vstd::prelude::*;
use vstd::string::StrSliceExecFns;
use vstd::string::StringExecFns;
use crate::AppError;
use crate::text::join_with;
use crate::text::join_strings;

verus! {

/// True when `c` may appear in a directive name (`$name`) of a template:
/// ASCII letters, digits, and underscore.
pub open spec fn is_name_char(c: char) -> bool {
    ('a' <= c && c <= 'z') || ('A' <= c && c <= 'Z') || ('0' <= c && c <= '9') || c == '_'
}

/// True when `c` is one of the pattern metacharacters that the compiler
/// escapes when it appears literally in a template.
pub open spec fn is_special(c: char) -> bool {
    c == '.' || c == '*' || c == '+' || c == '?' || c == '|' || c == '(' || c == ')' || c == '{'
        || c == '}' || c == '[' || c == ']'
}

fn name_char(c: char) -> (r: bool)
    ensures
        r == is_name_char(c),
{
    ('a' <= c && c <= 'z') || ('A' <= c && c <= 'Z') || ('0' <= c && c <= '9') || c == '_'
}

fn special_char(c: char) -> (r: bool)
    ensures
        r == is_special(c),
{
    c == '.' || c == '*' || c == '+' || c == '?' || c == '|' || c == '(' || c == ')' || c == '{'
        || c == '}' || c == '[' || c == ']'
}

/// Length of the longest prefix of `s` made of directive-name characters.
pub open spec fn name_len_at(s: Seq<char>) -> nat
    decreases s.len(),
{
    if s.len() > 0 && is_name_char(s[0]) {
        1 + name_len_at(s.drop_first())
    } else {
        0
    }
}

pub proof fn lemma_name_len_le(s: Seq<char>)
    ensures
        name_len_at(s) <= s.len(),
    decreases s.len(),
{
    if s.len() > 0 && is_name_char(s[0]) {
        lemma_name_len_le(s.drop_first());
    }
}

pub proof fn lemma_name_len_chars(s: Seq<char>)
    ensures
        forall|k: int| 0 <= k < name_len_at(s) ==> is_name_char(#[trigger] s[k]),
    decreases s.len(),
{
    if s.len() > 0 && is_name_char(s[0]) {
        lemma_name_len_le(s.drop_first());
        lemma_name_len_chars(s.drop_first());
        assert forall|k: int| 0 <= k < name_len_at(s) implies is_name_char(#[trigger] s[k]) by {
            if k > 0 {
                assert(s.drop_first()[k - 1] == s[k]);
            }
        }
    }
}

/// The maximal name run is exactly `m` when the first `m` characters are
/// name characters and the next one (if any) is not.
pub proof fn lemma_name_len_eq(s: Seq<char>, m: nat)
    requires
        m <= s.len(),
        forall|k: int| 0 <= k < m ==> is_name_char(#[trigger] s[k]),
        m == s.len() || !is_name_char(s[m as int]),
    ensures
        name_len_at(s) == m,
    decreases s.len(),
{
    if m == 0 {
    } else {
        assert(is_name_char(s[0]));
        assert forall|k: int| 0 <= k < m - 1 implies is_name_char(#[trigger] s.drop_first()[k]) by {
            assert(s.drop_first()[k] == s[k + 1]);
        }
        if m < s.len() {
            assert(s.drop_first()[m - 1] == s[m as int]);
        }
        lemma_name_len_eq(s.drop_first(), (m - 1) as nat);
    }
}

/// How one literal template character appears in the pattern: escaped with a
/// backslash when it is a metacharacter, verbatim otherwise.
pub open spec fn esc_of(c: char) -> Seq<char> {
    if is_special(c) {
        seq!['\\', c]
    } else {
        seq![c]
    }
}

/// The capture group emitted for one directive name.
pub open spec fn group_of(name: Seq<char>) -> Seq<char> {
    "(?P<"@ + name + ">.*)"@
}

/// True when position 0 of `t` starts a `$name` directive.
pub open spec fn starts_directive(t: Seq<char>) -> bool {
    t.len() >= 2 && t[0] == '$' && is_name_char(t[1])
}

/// The pattern compiled from template `t`: literals escaped, each `$name`
/// directive replaced by a capture group named `name`.
pub open spec fn pattern_of(t: Seq<char>) -> Seq<char>
    decreases t.len(),
    via pattern_of_decreases
{
    if t.len() == 0 {
        Seq::empty()
    } else if starts_directive(t) {
        group_of(t.subrange(1, 1 + name_len_at(t.skip(1)) as int)) + pattern_of(
            t.skip(1 + name_len_at(t.skip(1)) as int),
        )
    } else {
        esc_of(t[0]) + pattern_of(t.drop_first())
    }
}

#[via_fn]
proof fn pattern_of_decreases(t: Seq<char>) {
    if t.len() > 0 && starts_directive(t) {
        lemma_name_len_le(t.skip(1));
    }
}

/// The directive names of template `t`, in template order.
pub open spec fn directives_of(t: Seq<char>) -> Seq<Seq<char>>
    decreases t.len(),
    via directives_of_decreases
{
    if t.len() == 0 {
        Seq::empty()
    } else if starts_directive(t) {
        seq![t.subrange(1, 1 + name_len_at(t.skip(1)) as int)] + directives_of(
            t.skip(1 + name_len_at(t.skip(1)) as int),
        )
    } else {
        directives_of(t.drop_first())
    }
}

#[via_fn]
proof fn directives_of_decreases(t: Seq<char>) {
    if t.len() > 0 && starts_directive(t) {
        lemma_name_len_le(t.skip(1));
    }
}

/// Scans a template once, producing the compiled pattern text and the
/// directive names in order.
fn template_scan(t: &str) -> (r: (String, Vec<String>))
    ensures
        r.0@ == pattern_of(t@),
        r.1.deep_view() == directives_of(t@),
{
    let n = t.unicode_len();
    let mut out = String::new();
    let mut names: Vec<String> = Vec::new();
    let mut i: usize = 0;
    proof {
        assert(t@.skip(0) =~= t@);
        assert(pattern_of(t@) =~= out@ + pattern_of(t@.skip(0)));
        assert(directives_of(t@) =~~= names.deep_view() + directives_of(t@.skip(0)));
    }
    while i < n
        invariant
            i <= n,
            n == t@.len(),
            pattern_of(t@) == out@ + pattern_of(t@.skip(i as int)),
            directives_of(t@) == names.deep_view() + directives_of(t@.skip(i as int)),
        decreases n - i,
    {
        let ghost rest = t@.skip(i as int);
        proof {
            assert(rest[0] == t@[i as int]);
        }
        let c = t.get_char(i);
        if c == '$' && i + 1 < n && name_char(t.get_char(i + 1)) {
            proof {
                assert(rest[1] == t@[i + 1]);
                assert(starts_directive(rest));
            }
            let mut j: usize = i + 1;
            while j < n && name_char(t.get_char(j))
                invariant
                    i + 1 <= j <= n,
                    n == t@.len(),
                    forall|k: int| i + 1 <= k < j ==> is_name_char(#[trigger] t@[k]),
                decreases n - j,
            {
                j = j + 1;
            }
            let ghost m = (j - (i + 1)) as nat;
            proof {
                assert(rest.skip(1) =~= t@.skip(i + 1));
                assert forall|k: int| 0 <= k < m implies is_name_char(
                    #[trigger] t@.skip(i + 1)[k],
                ) by {
                    assert(t@.skip(i + 1)[k] == t@[k + i + 1]);
                }
                if j < n {
                    assert(t@.skip(i + 1)[m as int] == t@[j as int]);
                }
                lemma_name_len_eq(t@.skip(i + 1), m);
                assert(name_len_at(rest.skip(1)) == m);
            }
            let name = t.substring_char(i + 1, j);
            proof {
                reveal_strlit("(?P<");
                reveal_strlit(">.*)");
                assert(name@ =~= rest.subrange(1, 1 + m as int));
                assert(rest.skip(1 + m as int) =~= t@.skip(j as int));
                assert(pattern_of(rest) =~= group_of(name@) + pattern_of(t@.skip(j as int)));
                assert(directives_of(rest) =~= seq![name@] + directives_of(t@.skip(j as int)));
                assert((out@ + "(?P<"@ + name@ + ">.*)"@) =~= out@ + group_of(name@));
                assert(pattern_of(t@) =~= (out@ + "(?P<"@ + name@ + ">.*)"@) + pattern_of(
                    t@.skip(j as int),
                ));
            }
            out.append("(?P<");
            out.append(name);
            out.append(">.*)");
            let owned_name = name.to_owned();
            let ghost old_names = names.deep_view();
            names.push(owned_name);
            proof {
                assert(names.deep_view() =~~= old_names.push(name@));
                assert(old_names.push(name@) =~= old_names + seq![name@]);
                assert(directives_of(t@) =~~= (old_names + seq![name@]) + directives_of(
                    t@.skip(j as int),
                ));
            }
            i = j;
        } else {
            proof {
                assert(!starts_directive(rest)) by {
                    if rest.len() >= 2 {
                        assert(rest[1] == t@[i + 1]);
                    }
                }
                assert(rest.drop_first() =~= t@.skip(i + 1));
                assert(pattern_of(rest) =~= esc_of(t@[i as int]) + pattern_of(t@.skip(i + 1)));
                assert(directives_of(rest) =~= directives_of(t@.skip(i + 1)));
                reveal_strlit("\\");
            }
            let ghost out0 = out@;
            if special_char(c) {
                out.append("\\");
            }
            let lit = t.substring_char(i, i + 1);
            out.append(lit);
            proof {
                assert(lit@ =~= seq![t@[i as int]]);
                assert(out@ =~= out0 + esc_of(t@[i as int]));
                assert(pattern_of(t@) =~= (out0 + esc_of(t@[i as int])) + pattern_of(
                    t@.skip(i + 1),
                ));
            }
            i = i + 1;
        }
    }
    proof {
        assert(t@.skip(n as int) =~= Seq::<char>::empty());
        assert(pattern_of(t@) =~= out@);
        assert(directives_of(t@) =~~= names.deep_view());
    }
    (out, names)
}

/// Compiles a template into the pattern text of its matcher.
pub fn template_to_pattern(t: &str) -> (r: String)
    ensures
        r@ == pattern_of(t@),
{
    template_scan(t).0
}

/// Lists the directive names of a template, in template order.
pub fn template_directives(t: &str) -> (r: Vec<String>)
    ensures
        r.deep_view() == directives_of(t@),
{
    template_scan(t).1
}

/// The built-in "combined" access-log template.
pub open spec fn combined_template_spec() -> Seq<char> {
    r#"$remote_addr - $remote_user [$time_local] "$request" $status $body_bytes_sent "$http_referer" "$http_user_agent""#@
}

/// Returns the built-in combined access-log template.
pub fn combined_template() -> (r: &'static str)
    ensures
        r@ == combined_template_spec(),
{
    r#"$remote_addr - $remote_user [$time_local] "$request" $status $body_bytes_sent "$http_referer" "$http_user_agent""#
}

#[verifier::external_type_specification]
#[verifier::external_body]
pub struct ExRegex(regex::Regex);

#[verifier::external_type_specification]
#[verifier::external_body]
pub struct ExRegexError(regex::Error);

/// Whether the matching engine accepts a pattern text: acceptance is a
/// function of the text alone.
pub uninterp spec fn pattern_compiles(p: Seq<char>) -> bool;

/// Relies on regex::Regex::new: compiles the pattern text, or reports why it
/// is not a valid pattern; whether it succeeds depends on the text alone.
#[verifier::external_body]
fn regex_new(pattern: &str) -> (r: Result<regex::Regex, regex::Error>)
    ensures
        r is Ok <==> pattern_compiles(pattern@),
{
    regex::Regex::new(pattern)
}

/// Relies on the std Display implementation of regex::Error to describe a
/// failed compilation.
#[verifier::external_body]
fn regex_error_message(e: &regex::Error) -> String {
    format!("{}", e)
}

/// What matching a line against a pattern captures, group by group: the
/// match result of a (deterministic) matching engine is a function of the
/// pattern text, the requested group names, and the line alone.
pub uninterp spec fn captures_of(
    pattern: Seq<char>,
    names: Seq<Seq<char>>,
    line: Seq<char>,
) -> Option<Seq<Option<Seq<char>>>>;

/// Relies on regex::Regex::captures, regex::Captures::name and
/// regex::Match::as_str: matches `line` against the matcher's pattern and
/// hands out, for each group name, the captured text (None when the line
/// does not match at all; None in a slot whose group did not participate).
/// The regex a matcher holds is compiled from exactly its pattern text, so
/// the result is the pattern's match function applied to the line.
#[verifier::external_body]
fn matcher_captures(m: &Matcher, line: &str) -> (r: Option<Vec<Option<String>>>)
    ensures
        r.deep_view() == captures_of(m.pattern_view(), m.names_view(), line@),
        r matches Some(v) ==> v@.len() == m.names_view().len(),
{
    m.regex.captures(line).map(
        |c| m.names.iter().map(|n| c.name(n).map(|g| g.as_str().to_string())).collect(),
    )
}

/// A compiled line matcher: the pattern compiled from a template, with one
/// named capture group per directive, and the directive names in template
/// order.
pub struct Matcher {
    regex: regex::Regex,
    pattern: String,
    names: Vec<String>,
    template: Ghost<Seq<char>>,
}

impl Matcher {
    /// The template this matcher was compiled from.
    pub closed spec fn template_view(self) -> Seq<char> {
        self.template@
    }

    /// The pattern text handed to the matching engine.
    pub closed spec fn pattern_view(self) -> Seq<char> {
        self.pattern@
    }

    /// The capture-group names, in template order.
    pub closed spec fn names_view(self) -> Seq<Seq<char>> {
        self.names.deep_view()
    }

    /// A well-formed matcher carries exactly the pattern compiled from its
    /// template and that template's directive names.
    pub open spec fn wf(self) -> bool {
        self.pattern_view() == pattern_of(self.template_view()) && self.names_view()
            == directives_of(self.template_view())
    }

    /// Compiles `template` into a matcher.  Succeeds exactly when the
    /// engine accepts the compiled pattern, which it does for well-formed
    /// templates.
    pub fn compile(template: &str) -> (r: Result<Matcher, AppError>)
        ensures
            r is Ok <==> pattern_compiles(pattern_of(template@)),
            r matches Ok(m) ==> m.wf() && m.template_view() == template@,
            r is Err ==> r->Err_0 is Compile,
    {
        let (pattern, names) = template_scan(template);
        match regex_new(pattern.as_str()) {
            Ok(re) => Ok(
                Matcher { regex: re, pattern, names, template: Ghost(template@) },
            ),
            Err(e) => Err(AppError::Compile(regex_error_message(&e))),
        }
    }

    /// The capture-group names, in template order.
    pub fn group_names(&self) -> (r: &Vec<String>)
        ensures
            r.deep_view() == self.names_view(),
    {
        &self.names
    }

    /// Matches one line.  None when the line does not match the pattern;
    /// otherwise one optional captured string per directive, in template
    /// order.
    pub fn captures(&self, line: &str) -> (r: Option<Vec<Option<String>>>)
        ensures
            r.deep_view() == captures_of(self.pattern_view(), self.names_view(), line@),
            r matches Some(v) ==> v@.len() == self.names_view().len(),
    {
        matcher_captures(self, line)
    }
}

/// Compiles the matcher for a named log format.  Only the combined layout is
/// built in, so every name resolves to it.
pub fn format_to_pattern(_format: &str) -> (r: Result<Matcher, AppError>)
    ensures
        r is Ok <==> pattern_compiles(pattern_of(combined_template_spec())),
        r matches Ok(m) ==> m.wf() && m.template_view() == combined_template_spec(),
        r is Err ==> r->Err_0 is Compile,
{
    Matcher::compile(combined_template())
}

/// Lists the variables one can query under a log format: the directive names
/// of its template, comma separated.
pub fn available_variables(format: &str) -> (r: Result<String, AppError>)
    ensures
        r is Ok <==> pattern_compiles(pattern_of(combined_template_spec())),
        r matches Ok(s) ==> s@ == join_with(directives_of(combined_template_spec()), ", "@),
        r is Err ==> r->Err_0 is Compile,
{
    match format_to_pattern(format) {
        Ok(m) => Ok(join_strings(m.group_names(), ", ")),
        Err(e) => Err(e),
    }
}

/// Length of the longest prefix of `s` before a `'>'`.
pub open spec fn upto_gt(s: Seq<char>) -> nat
    decreases s.len(),
{
    if s.len() > 0 && s[0] != '>' {
        1 + upto_gt(s.drop_first())
    } else {
        0
    }
}

pub proof fn lemma_upto_gt_le(s: Seq<char>)
    ensures
        upto_gt(s) <= s.len(),
    decreases s.len(),
{
    if s.len() > 0 && s[0] != '>' {
        lemma_upto_gt_le(s.drop_first());
    }
}

/// True when position 0 of `p` opens a named capture group.
pub open spec fn starts_group(p: Seq<char>) -> bool {
    p.len() >= 4 && p[0] == '(' && p[1] == '?' && p[2] == 'P' && p[3] == '<'
}

/// The capture-group names that a matching engine reads off a pattern text:
/// at each group opening, the name up to the closing `'>'`, in order.
pub open spec fn group_names_of(p: Seq<char>) -> Seq<Seq<char>>
    decreases p.len(),
    via group_names_of_decreases
{
    if p.len() == 0 {
        Seq::empty()
    } else if starts_group(p) {
        seq![p.subrange(4, 4 + upto_gt(p.skip(4)) as int)] + group_names_of(
            p.skip(4 + upto_gt(p.skip(4)) as int),
        )
    } else {
        group_names_of(p.drop_first())
    }
}

#[via_fn]
proof fn group_names_of_decreases(p: Seq<char>) {
    if p.len() > 0 && starts_group(p) {
        lemma_upto_gt_le(p.skip(4));
    }
}

/// Scanning past the name prefix: a run of characters other than `'>'`
/// followed by a `'>'` measures exactly that run.
proof fn lemma_upto_gt_prefix(nm: Seq<char>, s2: Seq<char>)
    requires
        forall|k: int| 0 <= k < nm.len() ==> #[trigger] nm[k] != '>',
        s2.len() > 0,
        s2[0] == '>',
    ensures
        upto_gt(nm + s2) == nm.len(),
    decreases nm.len(),
{
    if nm.len() == 0 {
        assert(nm + s2 =~= s2);
    } else {
        assert((nm + s2)[0] == nm[0]);
        assert((nm + s2).drop_first() =~= nm.drop_first() + s2);
        lemma_upto_gt_prefix(nm.drop_first(), s2);
    }
}

/// The scan skips one character that does not open a group.
proof fn lemma_scan_step(s: Seq<char>)
    requires
        s.len() > 0,
        s[0] != '(',
    ensures
        group_names_of(s) == group_names_of(s.drop_first()),
{
    assert(!starts_group(s));
}

/// A compiled pattern never begins with `'?'`: a group chunk begins with
/// `'('` and an escaped or verbatim literal begins with `'\\'` or a
/// non-metacharacter.
proof fn lemma_pattern_first_not_q(t: Seq<char>)
    ensures
        pattern_of(t).len() > 0 ==> pattern_of(t)[0] != '?',
{
    if t.len() == 0 {
    } else if starts_directive(t) {
        reveal_strlit("(?P<");
        let nm = t.subrange(1, 1 + name_len_at(t.skip(1)) as int);
        assert(group_of(nm)[0] == '(');
        assert(pattern_of(t)[0] == group_of(nm)[0]);
    } else {
        assert(pattern_of(t)[0] == esc_of(t[0])[0]);
        if is_special(t[0]) {
            assert(esc_of(t[0])[0] == '\\');
        } else {
            assert(esc_of(t[0])[0] == t[0]);
            assert(t[0] != '?');
        }
    }
}

/// The names scanned off a compiled pattern are exactly the template's
/// directive names, in template order.
pub proof fn lemma_group_names(t: Seq<char>)
    ensures
        group_names_of(pattern_of(t)) == directives_of(t),
    decreases t.len(),
{
    reveal_strlit("(?P<");
    reveal_strlit(">.*)");
    reveal_strlit(".*)");
    reveal_strlit("*)");
    reveal_strlit(")");
    if t.len() == 0 {
        assert(group_names_of(pattern_of(t)) =~~= directives_of(t));
    } else if starts_directive(t) {
        lemma_name_len_le(t.skip(1));
        lemma_name_len_chars(t.skip(1));
        let n = name_len_at(t.skip(1));
        let nm = t.subrange(1, 1 + n as int);
        let p = pattern_of(t.skip(1 + n as int));
        let g = pattern_of(t);
        assert(g == group_of(nm) + p);
        assert(forall|k: int| 0 <= k < nm.len() ==> is_name_char(#[trigger] t.skip(1)[k]));
        assert(forall|k: int| 0 <= k < nm.len() ==> #[trigger] nm[k] == t.skip(1)[k]);
        assert(forall|k: int| 0 <= k < nm.len() ==> #[trigger] nm[k] != '>');
        assert(g.len() >= 4 + nm.len() + 4);
        assert(g[0] == '(' && g[1] == '?' && g[2] == 'P' && g[3] == '<');
        assert(starts_group(g));
        let tail = ">.*)"@ + p;
        assert(g.skip(4) =~= nm + tail);
        assert(tail[0] == '>');
        lemma_upto_gt_prefix(nm, tail);
        assert(upto_gt(g.skip(4)) == nm.len());
        assert(g.subrange(4, 4 + nm.len() as int) =~= nm);
        assert(g.skip(4 + nm.len() as int) =~= tail);
        assert(group_names_of(g) == seq![nm] + group_names_of(tail));
        assert(tail.drop_first() =~= ".*)"@ + p);
        lemma_scan_step(tail);
        let t2 = ".*)"@ + p;
        assert(t2[0] == '.');
        assert(t2.drop_first() =~= "*)"@ + p);
        lemma_scan_step(t2);
        let t3 = "*)"@ + p;
        assert(t3[0] == '*');
        assert(t3.drop_first() =~= ")"@ + p);
        lemma_scan_step(t3);
        let t4 = ")"@ + p;
        assert(t4[0] == ')');
        assert(t4.drop_first() =~= p);
        lemma_scan_step(t4);
        assert(group_names_of(tail) == group_names_of(p));
        lemma_group_names(t.skip(1 + n as int));
        assert(group_names_of(pattern_of(t)) =~~= directives_of(t));
    } else {
        let c = t[0];
        let p = pattern_of(t.skip(1));
        assert(t.drop_first() =~= t.skip(1));
        assert(pattern_of(t) == esc_of(c) + p);
        lemma_pattern_first_not_q(t.skip(1));
        if is_special(c) {
            let e2 = esc_of(c) + p;
            assert(e2[0] == '\\');
            lemma_scan_step(e2);
            assert(e2.drop_first() =~= seq![c] + p);
            let e1 = seq![c] + p;
            assert(e1[0] == c);
            if p.len() == 0 {
                assert(e1.len() == 1);
                assert(!starts_group(e1));
                assert(group_names_of(e1) == group_names_of(e1.drop_first()));
                assert(e1.drop_first() =~= p);
            } else {
                assert(e1[1] == p[0]);
                if c == '(' {
                    assert(p[0] != '?');
                    assert(!starts_group(e1));
                    assert(group_names_of(e1) == group_names_of(e1.drop_first()));
                } else {
                    lemma_scan_step(e1);
                }
                assert(e1.drop_first() =~= p);
            }
            assert(group_names_of(pattern_of(t)) == group_names_of(p));
        } else {
            let e1 = esc_of(c) + p;
            assert(e1[0] == c);
            assert(c != '(');
            lemma_scan_step(e1);
            assert(e1.drop_first() =~= p);
            assert(group_names_of(pattern_of(t)) == group_names_of(p));
        }
        lemma_group_names(t.skip(1));
        assert(group_names_of(pattern_of(t)) =~~= directives_of(t));
    }
}

/// True when no two elements of `xs` are equal.
pub open spec fn all_distinct(xs: Seq<Seq<char>>) -> bool {
    forall|a: int, b: int| 0 <= a < b < xs.len() ==> xs[a] != xs[b]
}

/// Law: for a template whose directive names are unique, the capture-group
/// names read off the compiled pattern equal the template's directive names,
/// in template order, with no duplicates.
pub proof fn lemma_capture_names_match_directives(t: Seq<char>)
    requires
        all_distinct(directives_of(t)),
    ensures
        group_names_of(pattern_of(t)) == directives_of(t),
        all_distinct(group_names_of(pattern_of(t))),
{
    lemma_group_names(t);
}

} // verus!
