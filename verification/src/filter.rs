//! Filter expressions with placeholders.
//!
//! A placeholder is written `{:name}`. Each parameter fills the
//! placeholders of its name with the text of its value: a text in quotes,
//! a date in quotes in the form the server compares dates in, a number, a
//! truth value or null as it is written in JSON, and anything else as its
//! JSON text in quotes. Quotes inside a quoted text are escaped.

use crate::json::as_array;
use crate::json::as_object;
use crate::json::as_str;
use crate::json::is_null;
use crate::json::json_as_array;
use crate::json::json_as_object;
use crate::json::json_as_str;
use crate::json::json_is_null;
use crate::json::json_text;
use crate::json::to_text;
use crate::text::chars_of;
use crate::text::string_of;
use crate::utils::query_view;
use serde_json::Value;
use vstd::prelude::*;

verus! {

/// The text with every occurrence of `from` replaced by `to`, found from
/// left to right without overlap. An empty `from` occurs nowhere.
pub open spec fn replaced(s: Seq<char>, from: Seq<char>, to: Seq<char>) -> Seq<char>
    decreases s.len(),
{
    if from.len() == 0 || s.len() < from.len() {
        s
    } else if from.is_prefix_of(s) {
        to + replaced(s.skip(from.len() as int), from, to)
    } else {
        seq![s[0]] + replaced(s.drop_first(), from, to)
    }
}

/// Whether `from` stands in `s` at the index `at`.
pub fn matches_at(s: &Vec<char>, at: usize, from: &Vec<char>) -> (r: bool)
    requires
        at <= s.len(),
    ensures
        r == from@.is_prefix_of(s@.skip(at as int)),
{
    if from.len() > s.len() - at {
        return false;
    }
    let ghost rest = s@.skip(at as int);
    let mut i: usize = 0;
    while i < from.len()
        invariant
            i <= from.len(),
            at + from.len() <= s.len(),
            rest == s@.skip(at as int),
            forall|j: int| 0 <= j < i ==> from@[j] == rest[j],
        decreases from.len() - i,
    {
        if from[i] != s[at + i] {
            assert(from@[i as int] != rest.subrange(0, from@.len() as int)[i as int]);
            return false;
        }
        i += 1;
    }
    assert(from@ =~= rest.subrange(0, from@.len() as int));
    true
}

/// Replaces every occurrence of `from` by `to`, from left to right.
pub fn replace_all(s: &Vec<char>, from: &Vec<char>, to: &Vec<char>) -> (r: Vec<char>)
    ensures
        r@ == replaced(s@, from@, to@),
{
    let mut out: Vec<char> = Vec::new();
    if from.len() == 0 {
        let mut k: usize = 0;
        while k < s.len()
            invariant
                k <= s.len(),
                out@ == s@.take(k as int),
            decreases s.len() - k,
        {
            out.push(s[k]);
            proof {
                assert(out@ =~= s@.take(k as int + 1));
            }
            k += 1;
        }
        proof {
            assert(s@.take(s.len() as int) =~= s@);
        }
        return out;
    }
    let mut i: usize = 0;
    proof {
        assert(s@.skip(0) =~= s@);
        assert(out@ + replaced(s@, from@, to@) =~= replaced(s@, from@, to@));
    }
    while i < s.len()
        invariant
            i <= s.len(),
            from.len() > 0,
            replaced(s@, from@, to@) == out@ + replaced(s@.skip(i as int), from@, to@),
        decreases s.len() - i,
    {
        let ghost rest = s@.skip(i as int);
        let ghost before = out@;
        if matches_at(s, i, from) {
            let mut k: usize = 0;
            while k < to.len()
                invariant
                    k <= to.len(),
                    out@ == before + to@.take(k as int),
                decreases to.len() - k,
            {
                out.push(to[k]);
                proof {
                    assert(out@ =~= before + to@.take(k as int + 1));
                }
                k += 1;
            }
            proof {
                assert(to@.take(to.len() as int) =~= to@);
                assert(s@.skip(i as int + from.len() as int) =~= rest.skip(from@.len() as int));
                assert(before + (to@ + replaced(rest.skip(from@.len() as int), from@, to@)) =~= (
                before + to@) + replaced(rest.skip(from@.len() as int), from@, to@));
            }
            i += from.len();
        } else {
            out.push(s[i]);
            proof {
                assert(rest[0] == s@[i as int]);
                assert(s@.skip(i as int + 1) =~= rest.drop_first());
                if rest.len() < from@.len() {
                    lemma_short_unchanged(rest.drop_first(), from@, to@);
                    assert(seq![rest[0]] + rest.drop_first() =~= rest);
                }
                assert(before + (seq![rest[0]] + replaced(rest.drop_first(), from@, to@)) =~= (
                before.push(rest[0])) + replaced(rest.drop_first(), from@, to@));
            }
            i += 1;
        }
    }
    proof {
        assert(s@.skip(s.len() as int) =~= Seq::<char>::empty());
        assert(out@ + Seq::<char>::empty() =~= out@);
    }
    out
}

/// A text shorter than what is looked for stays as it is.
pub proof fn lemma_short_unchanged(s: Seq<char>, from: Seq<char>, to: Seq<char>)
    requires
        s.len() < from.len(),
    ensures
        replaced(s, from, to) == s,
{
}

/// The form in which a date is written into a filter.
pub open spec fn date_pattern() -> Seq<char> {
    "%Y-%m-%d %H:%M:%S"@
}

/// What `chrono` makes of a text that is a date and time in the form of
/// RFC 3339, written out after a pattern; `None` for any other text.
pub uninterp spec fn datetime_text(text: Seq<char>, pattern: Seq<char>) -> Option<Seq<char>>;

/// Calls `DateTime::parse_from_rfc3339` and, where that reads a date and
/// time, `DateTime::format` with the pattern. The result is the date and
/// time written after the pattern, in the offset that the text names.
#[verifier::external_body]
fn format_datetime(text: &str, pattern: &str) -> (r: Option<String>)
    requires
        pattern@ == date_pattern(),
    ensures
        match r {
            Some(d) => datetime_text(text@, pattern@) == Some(d@),
            None => datetime_text(text@, pattern@) is None,
        },
{
    chrono::DateTime::parse_from_rfc3339(text).ok().map(|dt| dt.format(pattern).to_string())
}

/// The text with its single quotes escaped by a backslash.
pub open spec fn escaped(s: Seq<char>) -> Seq<char> {
    replaced(s, seq!['\''], seq!['\\', '\''])
}

/// The text between single quotes.
pub open spec fn quoted(s: Seq<char>) -> Seq<char> {
    seq!['\''] + s + seq!['\'']
}

/// The text that a string parameter puts into a filter: the date in quotes
/// where the string is a date and time, else the string in quotes with its
/// own quotes escaped.
pub open spec fn string_filter_text(s: Seq<char>, as_date: Option<Seq<char>>) -> Seq<char> {
    match as_date {
        Some(d) => quoted(d),
        None => quoted(escaped(s)),
    }
}

/// The text that a parameter puts into a filter.
pub open spec fn filter_text(value: Value) -> Seq<char> {
    match json_as_str(value) {
        Some(s) => string_filter_text(s, datetime_text(s, date_pattern())),
        None => if !json_is_null(value) && (json_as_array(value) is Some || json_as_object(value) is Some) {
            quoted(escaped(json_text(value)))
        } else {
            json_text(value)
        },
    }
}

/// The placeholder of a name.
pub open spec fn placeholder(name: Seq<char>) -> Seq<char> {
    seq!['{', ':'] + name + seq!['}']
}

/// The expression with the placeholders of each parameter filled, one
/// parameter after the other in the order given.
pub open spec fn filtered(expr: Seq<char>, params: Seq<(Seq<char>, Value)>) -> Seq<char>
    decreases params.len(),
{
    if params.len() == 0 {
        expr
    } else {
        replaced(
            filtered(expr, params.drop_last()),
            placeholder(params.last().0),
            filter_text(params.last().1),
        )
    }
}

fn quote(inner: &Vec<char>) -> (r: Vec<char>)
    ensures
        r@ == quoted(inner@),
{
    let mut out: Vec<char> = Vec::new();
    out.push('\'');
    let mut k: usize = 0;
    while k < inner.len()
        invariant
            k <= inner.len(),
            out@ == seq!['\''] + inner@.take(k as int),
        decreases inner.len() - k,
    {
        out.push(inner[k]);
        proof {
            assert(out@ =~= seq!['\''] + inner@.take(k as int + 1));
        }
        k += 1;
    }
    proof {
        assert(inner@.take(inner.len() as int) =~= inner@);
    }
    out.push('\'');
    out
}

fn escape(s: &Vec<char>) -> (r: Vec<char>)
    ensures
        r@ == escaped(s@),
{
    let mut from: Vec<char> = Vec::new();
    from.push('\'');
    let mut to: Vec<char> = Vec::new();
    to.push('\\');
    to.push('\'');
    proof {
        assert(from@ =~= seq!['\'']);
        assert(to@ =~= seq!['\\', '\'']);
    }
    replace_all(s, &from, &to)
}

/// The text that a string parameter puts into a filter, given what the
/// string is as a date.
pub fn string_to_filter_text(s: &str, as_date: Option<String>) -> (r: Vec<char>)
    ensures
        r@ == string_filter_text(
            s@,
            match as_date {
                Some(d) => Some(d@),
                None => None,
            },
        ),
{
    match as_date {
        Some(d) => quote(&chars_of(d.as_str())),
        None => quote(&escape(&chars_of(s))),
    }
}

/// The text that a parameter puts into a filter.
pub fn value_to_filter_text(value: &Value) -> (r: Vec<char>)
    ensures
        r@ == filter_text(*value),
{
    match as_str(value) {
        Some(s) => string_to_filter_text(s, format_datetime(s, "%Y-%m-%d %H:%M:%S")),
        None => {
            let text = to_text(value);
            if !is_null(value) && (as_array(value).is_some() || as_object(value).is_some()) {
                quote(&escape(&chars_of(text.as_str())))
            } else {
                chars_of(text.as_str())
            }
        },
    }
}

/// Fills the placeholders of a filter expression with the parameters, one
/// parameter after the other in the order given.
pub fn filter(expr: &str, params: &Vec<(String, Value)>) -> (r: String)
    ensures
        r@ == filtered(expr@, query_view(params@)),
{
    let mut result = chars_of(expr);
    let mut i: usize = 0;
    proof {
        assert(query_view(params@).take(0) =~= Seq::empty());
    }
    while i < params.len()
        invariant
            i <= params.len(),
            result@ == filtered(expr@, query_view(params@).take(i as int)),
        decreases params.len() - i,
    {
        proof {
            let next = query_view(params@).take(i as int + 1);
            assert(next.drop_last() =~= query_view(params@).take(i as int));
            assert(next.last() == (params@[i as int].0@, params@[i as int].1));
        }
        let name = chars_of(params[i].0.as_str());
        let mut hole: Vec<char> = Vec::new();
        hole.push('{');
        hole.push(':');
        let mut k: usize = 0;
        while k < name.len()
            invariant
                k <= name.len(),
                hole@ == seq!['{', ':'] + name@.take(k as int),
            decreases name.len() - k,
        {
            hole.push(name[k]);
            proof {
                assert(hole@ =~= seq!['{', ':'] + name@.take(k as int + 1));
            }
            k += 1;
        }
        proof {
            assert(name@.take(name.len() as int) =~= name@);
        }
        hole.push('}');
        proof {
            assert(hole@ =~= placeholder(params@[i as int].0@));
        }
        let text = value_to_filter_text(&params[i].1);
        result = replace_all(&result, &hole, &text);
        i += 1;
    }
    proof {
        assert(query_view(params@).take(params.len() as int) =~= query_view(params@));
    }
    string_of(&result)
}

} // verus!
