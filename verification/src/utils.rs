//! URL and query-string helpers.

use crate::json::as_array;
use crate::json::as_str;
use crate::json::is_null;
use crate::json::json_as_array;
use crate::json::json_as_str;
use crate::json::json_is_null;
use crate::json::json_text;
use crate::json::to_text;
use crate::text::chars_of;
use crate::text::string_of;
use base64::Engine;
use serde_json::Value;
use vstd::prelude::*;
use vstd::utf8::*;

verus! {

/// The bytes that percent-encoding leaves as they are: ASCII letters and
/// digits, and `-`, `.`, `_`, `~`.
pub open spec fn is_unreserved(b: u8) -> bool {
    (0x30 <= b && b <= 0x39) || (0x41 <= b && b <= 0x5A) || (0x61 <= b && b <= 0x7A) || b == 0x2D
        || b == 0x2E || b == 0x5F || b == 0x7E
}

/// The upper-case hexadecimal digit for a value below sixteen.
pub open spec fn hex_digit(d: int) -> char {
    if d < 10 {
        (0x30 + d) as char
    } else {
        (0x41 - 10 + d) as char
    }
}

/// The value of an upper-case hexadecimal digit.
pub open spec fn hex_value(c: char) -> int {
    if c as int >= 0x41 {
        c as int - 0x41 + 10
    } else {
        c as int - 0x30
    }
}

/// The percent-encoding of one byte.
pub open spec fn percent_encoded_byte(b: u8) -> Seq<char> {
    if is_unreserved(b) {
        seq![b as char]
    } else {
        seq!['%', hex_digit(b as int / 16), hex_digit(b as int % 16)]
    }
}

/// The percent-encoding of a sequence of bytes.
pub open spec fn percent_encoded(bytes: Seq<u8>) -> Seq<char>
    decreases bytes.len(),
{
    if bytes.len() == 0 {
        Seq::empty()
    } else {
        percent_encoded_byte(bytes[0]) + percent_encoded(bytes.drop_first())
    }
}

/// The bytes that a percent-encoded text stands for.
pub open spec fn percent_decoded(s: Seq<char>) -> Seq<u8>
    decreases s.len(),
{
    if s.len() == 0 {
        Seq::empty()
    } else if s[0] == '%' && s.len() >= 3 {
        seq![(hex_value(s[1]) * 16 + hex_value(s[2])) as u8] + percent_decoded(s.skip(3))
    } else {
        seq![s[0] as u8] + percent_decoded(s.drop_first())
    }
}

/// The percent-encoding of a text: that of its UTF-8 bytes.
pub open spec fn url_encoded(s: Seq<char>) -> Seq<char> {
    percent_encoded(encode_utf8(s))
}

/// Decoding undoes percent-encoding.
pub proof fn lemma_percent_round_trip(bytes: Seq<u8>)
    ensures
        percent_decoded(percent_encoded(bytes)) == bytes,
    decreases bytes.len(),
{
    if bytes.len() > 0 {
        let b = bytes[0];
        let rest = bytes.drop_first();
        let head = percent_encoded_byte(b);
        let s = percent_encoded(bytes);
        lemma_percent_round_trip(rest);
        if is_unreserved(b) {
            assert(s[0] == b as char);
            assert(s.drop_first() =~= percent_encoded(rest));
            assert((b as char) as u8 == b);
        } else {
            assert(s.len() >= 3);
            assert(s[0] == '%');
            assert(s[1] == hex_digit(b as int / 16));
            assert(s[2] == hex_digit(b as int % 16));
            assert(s.skip(3) =~= percent_encoded(rest));
            assert(hex_value(hex_digit(b as int / 16)) == b as int / 16);
            assert(hex_value(hex_digit(b as int % 16)) == b as int % 16);
        }
        assert(percent_decoded(s) =~= bytes);
    }
}

/// Two texts with the same percent-encoding are the same text.
pub proof fn lemma_url_encoded_injective(a: Seq<char>, b: Seq<char>)
    requires
        url_encoded(a) == url_encoded(b),
    ensures
        a == b,
{
    lemma_percent_round_trip(encode_utf8(a));
    lemma_percent_round_trip(encode_utf8(b));
    encode_utf8_decode_utf8(a);
    encode_utf8_decode_utf8(b);
}

/// Calls `urlencoding::encode`, which percent-encodes every byte of the
/// text's UTF-8 form except ASCII letters, digits and `-`, `.`, `_`, `~`,
/// with upper-case hexadecimal digits.
#[verifier::external_body]
pub fn url_encode(value: &str) -> (r: String)
    ensures
        r@ == url_encoded(value@),
{
    urlencoding::encode(value).into_owned()
}

/// Percent-encodes one segment of a URL path.
pub fn encode_path_segment(segment: &str) -> (r: String)
    ensures
        r@ == url_encoded(segment@),
{
    url_encode(segment)
}

/// The parts joined into one text, with the separator between neighbours.
pub open spec fn joined(parts: Seq<Seq<char>>, sep: Seq<char>) -> Seq<char>
    decreases parts.len(),
{
    if parts.len() == 0 {
        Seq::empty()
    } else if parts.len() == 1 {
        parts[0]
    } else {
        joined(parts.drop_last(), sep) + sep + parts.last()
    }
}

/// One `key=value` entry of a query string, both sides percent-encoded.
pub open spec fn query_entry(key: Seq<char>, value: Seq<char>) -> Seq<char> {
    url_encoded(key) + seq!['='] + url_encoded(value)
}

/// The entries of one parameter: one for each of its values, in order.
pub open spec fn key_entries(key: Seq<char>, values: Seq<Seq<char>>) -> Seq<Seq<char>> {
    Seq::new(values.len(), |j: int| query_entry(key, values[j]))
}

/// The entries of all parameters, in the order of the parameters.
pub open spec fn query_entries(params: Seq<(Seq<char>, Seq<Seq<char>>)>) -> Seq<Seq<char>>
    decreases params.len(),
{
    if params.len() == 0 {
        Seq::empty()
    } else {
        query_entries(params.drop_last()) + key_entries(params.last().0, params.last().1)
    }
}

/// The query string of the parameters: their entries joined by `&`.
pub open spec fn query_string(params: Seq<(Seq<char>, Seq<Seq<char>>)>) -> Seq<char> {
    joined(query_entries(params), seq!['&'])
}

/// Joins the parts with the separator between neighbours.
pub fn join(parts: &Vec<String>, sep: &str) -> (r: String)
    ensures
        r@ == joined(parts.deep_view(), sep@),
{
    let mut out = String::new();
    let mut i: usize = 0;
    while i < parts.len()
        invariant
            i <= parts.len(),
            out@ == joined(parts.deep_view().take(i as int), sep@),
        decreases parts.len() - i,
    {
        let ghost before = parts.deep_view().take(i as int);
        let ghost after = parts.deep_view().take(i as int + 1);
        proof {
            assert(after.drop_last() =~= before);
            assert(after.last() == parts@[i as int]@);
        }
        if i > 0 {
            out.append(sep);
        }
        out.append(parts[i].as_str());
        proof {
            if i == 0 {
                assert(out@ =~= after[0]);
            }
        }
        i += 1;
    }
    proof {
        assert(parts.deep_view().take(parts.len() as int) =~= parts.deep_view());
    }
    out
}

/// Builds the query string of the parameters: one `key=value` entry for each
/// value of each parameter, every key and value percent-encoded, the entries
/// joined by `&` in the order given.
pub fn build_query(params: &Vec<(String, Vec<String>)>) -> (r: String)
    ensures
        r@ == query_string(params.deep_view()),
{
    let mut parts: Vec<String> = Vec::new();
    let mut i: usize = 0;
    while i < params.len()
        invariant
            i <= params.len(),
            parts.deep_view() == query_entries(params.deep_view().take(i as int)),
        decreases params.len() - i,
    {
        let key = &params[i].0;
        let values = &params[i].1;
        let ghost done = query_entries(params.deep_view().take(i as int));
        let ghost all = key_entries(key@, values.deep_view());
        let mut j: usize = 0;
        while j < values.len()
            invariant
                j <= values.len(),
                all == key_entries(key@, values.deep_view()),
                parts.deep_view() == done + all.take(j as int),
            decreases values.len() - j,
        {
            let mut part = url_encode(key.as_str());
            let encoded = url_encode(values[j].as_str());
            proof {
                reveal_strlit("=");
                assert("="@ =~= seq!['=']);
            }
            part.append("=");
            part.append(encoded.as_str());
            proof {
                assert(part@ == all[j as int]);
                assert(parts.deep_view().push(part@) =~= done + all.take(j as int + 1));
            }
            let ghost before = parts.deep_view();
            parts.push(part);
            proof {
                assert(parts.deep_view() =~= before.push(part@));
            }
            j += 1;
        }
        proof {
            let next = params.deep_view().take(i as int + 1);
            assert(next.drop_last() =~= params.deep_view().take(i as int));
            assert(next.last() == (key@, values.deep_view()));
            assert(all.take(values.len() as int) =~= all);
        }
        i += 1;
    }
    proof {
        assert(params.deep_view().take(params.len() as int) =~= params.deep_view());
        reveal_strlit("&");
        assert("&"@ =~= seq!['&']);
    }
    join(&parts, "&")
}

/// The text that stands for a JSON value in a query string: the string
/// itself for a JSON string, the compact JSON text for any other value.
pub open spec fn scalar_text(v: Value) -> Seq<char> {
    match json_as_str(v) {
        Some(s) => s,
        None => json_text(v),
    }
}

/// The texts of the elements of an array that are not null, in order.
pub open spec fn element_texts(items: Seq<Value>) -> Seq<Seq<char>>
    decreases items.len(),
{
    if items.len() == 0 {
        Seq::empty()
    } else if json_is_null(items.last()) {
        element_texts(items.drop_last())
    } else {
        element_texts(items.drop_last()).push(scalar_text(items.last()))
    }
}

/// The values that a query parameter contributes: none for null, the texts
/// of the non-null elements for an array (none if there is no such element),
/// and the one text of any other value.
pub open spec fn normalized_values(v: Value) -> Option<Seq<Seq<char>>> {
    if json_is_null(v) {
        None
    } else {
        match json_as_array(v) {
            Some(items) => if element_texts(items).len() == 0 {
                None
            } else {
                Some(element_texts(items))
            },
            None => Some(seq![scalar_text(v)]),
        }
    }
}

/// The normalized form of a list of query parameters: each parameter that
/// contributes values, with those values, in the order given.
pub open spec fn normalized_query(params: Seq<(Seq<char>, Value)>) -> Seq<
    (Seq<char>, Seq<Seq<char>>),
>
    decreases params.len(),
{
    if params.len() == 0 {
        Seq::empty()
    } else {
        let rest = normalized_query(params.drop_last());
        match normalized_values(params.last().1) {
            Some(values) => rest.push((params.last().0, values)),
            None => rest,
        }
    }
}

/// The parameters as pairs of a key's characters and a JSON value.
pub open spec fn query_view(params: Seq<(String, Value)>) -> Seq<(Seq<char>, Value)> {
    Seq::new(params.len(), |i: int| (params[i].0@, params[i].1))
}

/// The query-string text of one JSON value.
pub fn scalar_to_text(v: &Value) -> (r: String)
    ensures
        r@ == scalar_text(*v),
{
    match as_str(v) {
        Some(s) => s.to_owned(),
        None => to_text(v),
    }
}

/// Turns JSON query parameters into lists of texts: a null parameter is
/// left out, an array gives the texts of its non-null elements (and is left
/// out when it has none), any other value gives its one text.
pub fn normalize_query(params: &Vec<(String, Value)>) -> (r: Vec<(String, Vec<String>)>)
    ensures
        r.deep_view() == normalized_query(query_view(params@)),
{
    let mut normalized: Vec<(String, Vec<String>)> = Vec::new();
    let mut i: usize = 0;
    while i < params.len()
        invariant
            i <= params.len(),
            normalized.deep_view() == normalized_query(query_view(params@).take(i as int)),
        decreases params.len() - i,
    {
        let key = &params[i].0;
        let value = &params[i].1;
        let ghost before = normalized.deep_view();
        proof {
            let next = query_view(params@).take(i as int + 1);
            assert(next.drop_last() =~= query_view(params@).take(i as int));
            assert(next.last() == (key@, *value));
        }
        if is_null(value) {
        } else {
            match as_array(value) {
                Some(items) => {
                    let mut list: Vec<String> = Vec::new();
                    let mut j: usize = 0;
                    while j < items.len()
                        invariant
                            j <= items.len(),
                            list.deep_view() == element_texts(items@.take(j as int)),
                        decreases items.len() - j,
                    {
                        proof {
                            let next = items@.take(j as int + 1);
                            assert(next.drop_last() =~= items@.take(j as int));
                            assert(next.last() == items@[j as int]);
                        }
                        if !is_null(&items[j]) {
                            let text = scalar_to_text(&items[j]);
                            let ghost listed = list.deep_view();
                            list.push(text);
                            proof {
                                assert(list.deep_view() =~= listed.push(text@));
                            }
                        }
                        j += 1;
                    }
                    proof {
                        assert(items@.take(items.len() as int) =~= items@);
                    }
                    if list.len() > 0 {
                        let ghost values = list.deep_view();
                        normalized.push((key.clone(), list));
                        proof {
                            assert(normalized.deep_view() =~= before.push((key@, values)));
                        }
                    }
                },
                None => {
                    let text = scalar_to_text(value);
                    let mut list: Vec<String> = Vec::new();
                    list.push(text);
                    proof {
                        assert(list.deep_view() =~= seq![scalar_text(*value)]);
                    }
                    let ghost values = list.deep_view();
                    normalized.push((key.clone(), list));
                    proof {
                        assert(normalized.deep_view() =~= before.push((key@, values)));
                    }
                },
            }
        }
        i += 1;
    }
    proof {
        assert(query_view(params@).take(params.len() as int) =~= query_view(params@));
    }
    normalized
}

/// The path with a leading `/`, supplied when the path has none.
pub open spec fn rooted(path: Seq<char>) -> Seq<char> {
    if path.len() > 0 && path[0] == '/' {
        path
    } else {
        seq!['/'] + path
    }
}

/// The relative URL of a path and query parameters: the rooted path, then
/// `?` and the query string where that string is not empty.
pub open spec fn relative_url(path: Seq<char>, query: Seq<(Seq<char>, Value)>) -> Seq<char> {
    let qs = query_string(normalized_query(query));
    if qs.len() == 0 {
        rooted(path)
    } else {
        rooted(path) + seq!['?'] + qs
    }
}

/// Builds the relative URL of a path and its query parameters.
pub fn build_relative_url(path: &str, query: &Vec<(String, Value)>) -> (r: String)
    ensures
        r@ == relative_url(path@, query_view(query@)),
{
    let path_chars = chars_of(path);
    let mut rel: String = if path_chars.len() > 0 && path_chars[0] == '/' {
        path.to_owned()
    } else {
        let mut rooted: Vec<char> = Vec::new();
        rooted.push('/');
        let mut k: usize = 0;
        while k < path_chars.len()
            invariant
                k <= path_chars.len(),
                rooted@ == seq!['/'] + path_chars@.take(k as int),
            decreases path_chars.len() - k,
        {
            rooted.push(path_chars[k]);
            proof {
                assert(path_chars@.take(k as int).push(path_chars@[k as int])
                    =~= path_chars@.take(k as int + 1));
                assert(rooted@ =~= seq!['/'] + path_chars@.take(k as int + 1));
            }
            k += 1;
        }
        proof {
            assert(path_chars@.take(path_chars.len() as int) =~= path_chars@);
        }
        string_of(&rooted)
    };
    let normalized = normalize_query(query);
    let qs = build_query(&normalized);
    let qs_chars = chars_of(qs.as_str());
    if qs_chars.len() > 0 {
        proof {
            reveal_strlit("?");
            assert("?"@ =~= seq!['?']);
        }
        rel.append("?");
        rel.append(qs.as_str());
    }
    rel
}

/// What the standard base64 engine decodes from the bytes of a text, `None`
/// where it rejects them.
pub uninterp spec fn base64_decoded(input: Seq<u8>) -> Option<Seq<u8>>;

/// Calls `Engine::decode` on `base64::engine::general_purpose::STANDARD`.
/// The result is the decoded bytes, or `None` where the engine reports an error.
#[verifier::external_body]
fn base64_decode(input: &Vec<u8>) -> (r: Option<Vec<u8>>)
    ensures
        match r {
            Some(bytes) => base64_decoded(input@) == Some(bytes@),
            None => base64_decoded(input@) is None,
        },
{
    base64::engine::general_purpose::STANDARD.decode(input).ok()
}

/// A byte of the URL-safe base64 alphabet as the standard alphabet has it:
/// `-` becomes `+`, `_` becomes `/`, every other byte stays.
pub open spec fn to_standard_alphabet(b: u8) -> u8 {
    if b == 0x2D {
        0x2B
    } else if b == 0x5F {
        0x2F
    } else {
        b
    }
}

/// The number of `=` that bring a length up to a multiple of four.
pub open spec fn padding_len(n: int) -> int {
    (4 - n % 4) % 4
}

/// URL-safe base64 bytes made ready for the standard engine: each byte in
/// the standard alphabet, then the padding.
pub open spec fn base64_prepared(bytes: Seq<u8>) -> Seq<u8> {
    Seq::new(bytes.len(), |i: int| to_standard_alphabet(bytes[i])) + Seq::new(
        padding_len(bytes.len() as int) as nat,
        |i: int| 0x3Du8,
    )
}

/// Decodes URL-safe base64, padded or not: the text is put into the
/// standard alphabet, padded to a multiple of four bytes and handed to the
/// standard engine.
pub fn base64_url_decode(input: &str) -> (r: Option<Vec<u8>>)
    ensures
        match r {
            Some(bytes) => base64_decoded(base64_prepared(encode_utf8(input@))) == Some(bytes@),
            None => base64_decoded(base64_prepared(encode_utf8(input@))) is None,
        },
{
    let bytes = input.as_bytes();
    let mut data: Vec<u8> = Vec::new();
    let mut i: usize = 0;
    while i < bytes.len()
        invariant
            i <= bytes.len(),
            bytes@ == encode_utf8(input@),
            data@ == Seq::new(i as nat, |k: int| to_standard_alphabet(bytes@[k])),
        decreases bytes.len() - i,
    {
        let b: u8 = bytes[i];
        let mapped: u8 = if b == 0x2D {
            0x2B
        } else if b == 0x5F {
            0x2F
        } else {
            b
        };
        data.push(mapped);
        proof {
            assert(data@ =~= Seq::new((i + 1) as nat, |k: int| to_standard_alphabet(bytes@[k])));
        }
        i += 1;
    }
    let pad: usize = (4 - bytes.len() % 4) % 4;
    let ghost mapped_all = data@;
    let mut j: usize = 0;
    while j < pad
        invariant
            j <= pad,
            data@ == mapped_all + Seq::new(j as nat, |k: int| 0x3Du8),
        decreases pad - j,
    {
        data.push(0x3D);
        proof {
            assert(data@ =~= mapped_all + Seq::new((j + 1) as nat, |k: int| 0x3Du8));
        }
        j += 1;
    }
    base64_decode(&data)
}

/// Hands a JSON value on as it is.
pub fn to_serializable(value: &Value) -> (r: Value)
    ensures
        r == *value,
{
    value.clone()
}

} // verus!
