//! Small text utilities shared by the format compiler, the query builder and
//! the report renderer: joining strings with a separator and printing decimal
//! numbers.

use vstd::prelude::*;
use vstd::string::StringExecFns;

verus! {

/// The elements of `xs`, concatenated with `sep` between neighbours.
pub open spec fn join_with(xs: Seq<Seq<char>>, sep: Seq<char>) -> Seq<char>
    decreases xs.len(),
{
    if xs.len() == 0 {
        Seq::empty()
    } else if xs.len() == 1 {
        xs[0]
    } else {
        xs[0] + sep + join_with(xs.drop_first(), sep)
    }
}

/// Appending one more element to a join extends it by the separator and the
/// element (or is just the element when the join was empty).
pub proof fn lemma_join_with_push(xs: Seq<Seq<char>>, sep: Seq<char>, x: Seq<char>)
    ensures
        join_with(xs.push(x), sep) == if xs.len() == 0 {
            x
        } else {
            (join_with(xs, sep) + sep + x)
        },
    decreases xs.len(),
{
    if xs.len() == 0 {
        assert(xs.push(x) =~= seq![x]);
        assert(join_with(xs.push(x), sep) =~= x);
    } else if xs.len() == 1 {
        assert(xs.push(x).drop_first() =~= seq![x]);
        assert(xs.push(x)[0] == xs[0]);
        assert(join_with(seq![x], sep) == x);
        assert(join_with(xs.push(x), sep) == xs[0] + sep + x);
        assert(join_with(xs, sep) + sep + x =~= xs[0] + sep + x);
        assert(join_with(xs.push(x), sep) =~= join_with(xs, sep) + sep + x);
    } else {
        assert(xs.push(x).drop_first() =~= xs.drop_first().push(x));
        lemma_join_with_push(xs.drop_first(), sep, x);
        assert(xs.push(x)[0] == xs[0]);
        assert(join_with(xs.push(x), sep) =~= join_with(xs, sep) + sep + x);
    }
}

/// Joins the strings of `xs` with the separator `sep`.
pub fn join_strings(xs: &Vec<String>, sep: &str) -> (r: String)
    ensures
        r@ == join_with(xs.deep_view(), sep@),
{
    let mut r = String::new();
    let mut i: usize = 0;
    while i < xs.len()
        invariant
            i <= xs.len(),
            xs.deep_view().len() == xs.len(),
            r@ == join_with(xs.deep_view().take(i as int), sep@),
        decreases xs.len() - i,
    {
        proof {
            assert(xs.deep_view().take(i as int).push(xs.deep_view()[i as int]) =~= xs.deep_view()
                .take(i + 1));
            lemma_join_with_push(xs.deep_view().take(i as int), sep@, xs.deep_view()[i as int]);
        }
        if i > 0 {
            r.append(sep);
        }
        r.append(xs[i].as_str());
        i = i + 1;
    }
    proof {
        assert(xs.deep_view().take(xs.len() as int) =~= xs.deep_view());
    }
    r
}

/// The decimal digit character for `d` (defined for `d < 10`; other inputs
/// fall through to `'9'`).
pub open spec fn dec_digit(d: nat) -> char {
    if d == 0 {
        '0'
    } else if d == 1 {
        '1'
    } else if d == 2 {
        '2'
    } else if d == 3 {
        '3'
    } else if d == 4 {
        '4'
    } else if d == 5 {
        '5'
    } else if d == 6 {
        '6'
    } else if d == 7 {
        '7'
    } else if d == 8 {
        '8'
    } else {
        '9'
    }
}

/// The usual decimal rendering of `n`, most significant digit first.
pub open spec fn dec_of(n: nat) -> Seq<char>
    decreases n,
{
    if n < 10 {
        seq![dec_digit(n)]
    } else {
        dec_of(n / 10).push(dec_digit(n % 10))
    }
}

/// The decimal rendering of a possibly negative number: a leading `'-'` for
/// negatives, then the magnitude.
pub open spec fn dec_int_of(n: int) -> Seq<char> {
    if n >= 0 {
        dec_of(n as nat)
    } else {
        seq!['-'] + dec_of((-n) as nat)
    }
}

fn digit_str(d: u64) -> (r: &'static str)
    requires
        d < 10,
    ensures
        r@ =~= seq![dec_digit(d as nat)],
{
    if d == 0 {
        proof { reveal_strlit("0"); }
        "0"
    } else if d == 1 {
        proof { reveal_strlit("1"); }
        "1"
    } else if d == 2 {
        proof { reveal_strlit("2"); }
        "2"
    } else if d == 3 {
        proof { reveal_strlit("3"); }
        "3"
    } else if d == 4 {
        proof { reveal_strlit("4"); }
        "4"
    } else if d == 5 {
        proof { reveal_strlit("5"); }
        "5"
    } else if d == 6 {
        proof { reveal_strlit("6"); }
        "6"
    } else if d == 7 {
        proof { reveal_strlit("7"); }
        "7"
    } else if d == 8 {
        proof { reveal_strlit("8"); }
        "8"
    } else {
        proof { reveal_strlit("9"); }
        "9"
    }
}

/// Renders `n` in decimal.
pub fn u64_string(n: u64) -> (r: String)
    ensures
        r@ == dec_of(n as nat),
    decreases n,
{
    if n < 10 {
        digit_str(n).to_owned()
    } else {
        let mut s = u64_string(n / 10);
        s.append(digit_str(n % 10));
        proof {
            assert(s@ =~= dec_of((n / 10) as nat).push(dec_digit((n % 10) as nat)));
        }
        s
    }
}

/// Renders `n` in decimal, with a leading minus sign when negative.
pub fn i64_string(n: i64) -> (r: String)
    ensures
        r@ == dec_int_of(n as int),
{
    if n >= 0 {
        u64_string(n as u64)
    } else {
        let m: u64 = if n == i64::MIN {
            9223372036854775808u64
        } else {
            (-n) as u64
        };
        let mut s = {
            proof { reveal_strlit("-"); }
            let t: String = "-".to_owned();
            t
        };
        s.append(u64_string(m).as_str());
        proof {
            assert(s@ =~= seq!['-'] + dec_of((-(n as int)) as nat));
        }
        s
    }
}

} // verus!
