//! Subscription keys: the canonical text of a topic with its options.
//!
//! A key is the topic, followed, where a query or headers are given, by an
//! `options` parameter that holds the percent-encoded JSON object of those
//! options. The object is built as a map, so the key depends on which
//! options are given and not on the order in which they are listed.

use crate::json::json_object;
use crate::json::json_string;
use crate::json::json_text;
use crate::json::new_object;
use crate::json::no_entries;
use crate::json::object_entries;
use crate::json::object_insert;
use crate::json::object_value;
use crate::json::string_value;
use crate::json::to_text;
use crate::registry::key_of_topic;
use crate::text::chars_of;
use crate::text::contains_char;
use crate::utils::lemma_url_encoded_injective;
use crate::utils::query_view;
use crate::utils::url_encode;
use crate::utils::url_encoded;
use serde_json::Value;
use vstd::prelude::*;

verus! {

/// The map that a list of pairs stands for: a later pair replaces an
/// earlier one with the same key.
pub open spec fn pairs_map<V>(pairs: Seq<(Seq<char>, V)>) -> Map<Seq<char>, V>
    decreases pairs.len(),
{
    if pairs.len() == 0 {
        Map::empty()
    } else {
        pairs_map(pairs.drop_last()).insert(pairs.last().0, pairs.last().1)
    }
}

/// Whether a map has a key at all.
pub open spec fn has_entries<V>(m: Map<Seq<char>, V>) -> bool {
    exists|k: Seq<char>| m.contains_key(k)
}

/// Header values as JSON strings.
pub open spec fn header_values(headers: Map<Seq<char>, Seq<char>>) -> Map<Seq<char>, Value> {
    Map::new(|k: Seq<char>| headers.contains_key(k), |k: Seq<char>| json_string(headers[k]))
}

/// The entries of the options object: `query` where a query is given,
/// `headers` where headers are given.
pub open spec fn subscription_options(
    query: Map<Seq<char>, Value>,
    headers: Map<Seq<char>, Seq<char>>,
) -> Map<Seq<char>, Value> {
    let with_query = if has_entries(query) {
        no_entries().insert("query"@, json_object(query))
    } else {
        no_entries()
    };
    if has_entries(headers) {
        with_query.insert("headers"@, json_object(header_values(headers)))
    } else {
        with_query
    }
}

/// The JSON text of the options, where any are given.
pub open spec fn options_text(
    query: Map<Seq<char>, Value>,
    headers: Map<Seq<char>, Seq<char>>,
) -> Option<Seq<char>> {
    if has_entries(query) || has_entries(headers) {
        Some(json_text(json_object(subscription_options(query, headers))))
    } else {
        None
    }
}

/// The key of a topic with an optional options text: the topic alone, or
/// the topic, a separator (`&` where the topic already holds a `?`, else
/// `?`), `options=` and the percent-encoded text.
pub open spec fn key_with_options(topic: Seq<char>, options: Option<Seq<char>>) -> Seq<char> {
    match options {
        None => topic,
        Some(text) => topic + seq![
            if topic.contains('?') {
                '&'
            } else {
                '?'
            },
        ] + "options="@ + url_encoded(text),
    }
}

/// The subscription key of a topic with a query and headers.
pub open spec fn subscription_key(
    topic: Seq<char>,
    query: Map<Seq<char>, Value>,
    headers: Map<Seq<char>, Seq<char>>,
) -> Seq<char> {
    key_with_options(topic, options_text(query, headers))
}

/// A list of pairs has entries exactly when it is not empty, and its map
/// holds the key of each of its pairs.
pub proof fn lemma_pairs_map_keys<V>(pairs: Seq<(Seq<char>, V)>)
    ensures
        has_entries(pairs_map(pairs)) <==> pairs.len() > 0,
        forall|i: int| 0 <= i < pairs.len() ==> pairs_map(pairs).contains_key(#[trigger] pairs[i].0),
        forall|k: Seq<char>|
            pairs_map(pairs).contains_key(k) ==> exists|i: int|
                0 <= i < pairs.len() && #[trigger] pairs[i].0 == k,
    decreases pairs.len(),
{
    if pairs.len() > 0 {
        let rest = pairs.drop_last();
        lemma_pairs_map_keys(rest);
        assert(pairs_map(pairs).contains_key(pairs.last().0));
        assert forall|i: int| 0 <= i < pairs.len() implies pairs_map(pairs).contains_key(
            #[trigger] pairs[i].0,
        ) by {
            if i < rest.len() {
                assert(rest[i] == pairs[i]);
            }
        }
        assert forall|k: Seq<char>| pairs_map(pairs).contains_key(k) implies exists|i: int|
            0 <= i < pairs.len() && #[trigger] pairs[i].0 == k by {
            if k == pairs.last().0 {
                assert(pairs[pairs.len() - 1].0 == k);
            } else {
                let i = choose|i: int| 0 <= i < rest.len() && #[trigger] rest[i].0 == k;
                assert(pairs[i].0 == k);
            }
        }
    }
}

/// In a list without a repeated key, each pair is found in the map.
pub proof fn lemma_pairs_map_values<V>(pairs: Seq<(Seq<char>, V)>)
    requires
        forall|i: int, j: int|
            0 <= i < j < pairs.len() ==> (#[trigger] pairs[i]).0 != (#[trigger] pairs[j]).0,
    ensures
        forall|i: int|
            0 <= i < pairs.len() ==> pairs_map(pairs).contains_key((#[trigger] pairs[i]).0)
                && pairs_map(pairs)[pairs[i].0] == pairs[i].1,
    decreases pairs.len(),
{
    if pairs.len() > 0 {
        let rest = pairs.drop_last();
        assert forall|i: int, j: int| 0 <= i < j < rest.len() implies (#[trigger] rest[i]).0 != (
        #[trigger] rest[j]).0 by {
            assert(rest[i] == pairs[i] && rest[j] == pairs[j]);
        }
        lemma_pairs_map_values(rest);
        assert forall|i: int| 0 <= i < pairs.len() implies pairs_map(pairs).contains_key(
            (#[trigger] pairs[i]).0,
        ) && pairs_map(pairs)[pairs[i].0] == pairs[i].1 by {
            if i < rest.len() {
                assert(rest[i] == pairs[i]);
                assert(pairs[i].0 != pairs[pairs.len() - 1].0);
            }
        }
    }
}

/// Two lists without a repeated key that hold the same pairs, in whatever
/// order, stand for the same map.
pub proof fn lemma_pairs_map_order<V>(a: Seq<(Seq<char>, V)>, b: Seq<(Seq<char>, V)>)
    requires
        forall|i: int, j: int| 0 <= i < j < a.len() ==> (#[trigger] a[i]).0 != (#[trigger] a[j]).0,
        forall|i: int, j: int| 0 <= i < j < b.len() ==> (#[trigger] b[i]).0 != (#[trigger] b[j]).0,
        forall|p: (Seq<char>, V)| a.contains(p) <==> b.contains(p),
    ensures
        pairs_map(a) == pairs_map(b),
{
    lemma_pairs_map_keys(a);
    lemma_pairs_map_keys(b);
    lemma_pairs_map_values(a);
    lemma_pairs_map_values(b);
    assert forall|k: Seq<char>| pairs_map(a).contains_key(k) implies pairs_map(b).contains_key(k)
        && pairs_map(a)[k] == pairs_map(b)[k] by {
        let i = choose|i: int| 0 <= i < a.len() && #[trigger] a[i].0 == k;
        assert(a.contains(a[i]));
        assert(b.contains(a[i]));
        let j = choose|j: int| 0 <= j < b.len() && b[j] == a[i];
        assert(pairs_map(b).contains_key(b[j].0));
    }
    assert forall|k: Seq<char>| pairs_map(b).contains_key(k) implies pairs_map(a).contains_key(
        k,
    ) by {
        let i = choose|i: int| 0 <= i < b.len() && #[trigger] b[i].0 == k;
        assert(b.contains(b[i]));
        assert(a.contains(b[i]));
        let j = choose|j: int| 0 <= j < a.len() && a[j] == b[i];
        assert(pairs_map(a).contains_key(a[j].0));
    }
    assert(pairs_map(a) =~= pairs_map(b));
}

/// The key of a topic belongs to that topic, whatever the topic and the
/// options are: what is removed by topic reaches every key made of it.
pub proof fn lemma_key_belongs_to_topic(topic: Seq<char>, options: Option<Seq<char>>)
    ensures
        key_of_topic(key_with_options(topic, options), topic),
{
    match options {
        None => {},
        Some(text) => {
            let key = key_with_options(topic, options);
            if topic.contains('?') {
                let head = topic + seq!['&'] + "options="@;
                assert(key =~= head + url_encoded(text));
                assert(head =~= key.subrange(0, head.len() as int));
            } else {
                let head = topic + seq!['?'];
                assert(key =~= head + ("options="@ + url_encoded(text)));
                assert(head =~= key.subrange(0, head.len() as int));
            }
        },
    }
}

/// The key of a topic is the same for options that are listed in a
/// different order: two query lists and two header lists that hold the same
/// pairs, none with a repeated key, give one key.
pub proof fn lemma_key_stable(
    topic: Seq<char>,
    query_a: Seq<(Seq<char>, Value)>,
    headers_a: Seq<(Seq<char>, Seq<char>)>,
    query_b: Seq<(Seq<char>, Value)>,
    headers_b: Seq<(Seq<char>, Seq<char>)>,
)
    requires
        forall|i: int, j: int|
            0 <= i < j < query_a.len() ==> (#[trigger] query_a[i]).0 != (#[trigger] query_a[j]).0,
        forall|i: int, j: int|
            0 <= i < j < query_b.len() ==> (#[trigger] query_b[i]).0 != (#[trigger] query_b[j]).0,
        forall|i: int, j: int|
            0 <= i < j < headers_a.len() ==> (#[trigger] headers_a[i]).0 != (
            #[trigger] headers_a[j]).0,
        forall|i: int, j: int|
            0 <= i < j < headers_b.len() ==> (#[trigger] headers_b[i]).0 != (
            #[trigger] headers_b[j]).0,
        forall|p: (Seq<char>, Value)| query_a.contains(p) <==> query_b.contains(p),
        forall|p: (Seq<char>, Seq<char>)| headers_a.contains(p) <==> headers_b.contains(p),
    ensures
        subscription_key(topic, pairs_map(query_a), pairs_map(headers_a)) == subscription_key(
            topic,
            pairs_map(query_b),
            pairs_map(headers_b),
        ),
{
    lemma_pairs_map_order(query_a, query_b);
    lemma_pairs_map_order(headers_a, headers_b);
}

/// Two keys of one topic are equal exactly when the options have the same
/// JSON text, or are absent in both.
pub proof fn lemma_key_injective(
    topic: Seq<char>,
    options_a: Option<Seq<char>>,
    options_b: Option<Seq<char>>,
)
    ensures
        key_with_options(topic, options_a) == key_with_options(topic, options_b) <==> options_a
            == options_b,
{
    let ka = key_with_options(topic, options_a);
    let kb = key_with_options(topic, options_b);
    let sep = seq![
        if topic.contains('?') {
            '&'
        } else {
            '?'
        },
    ];
    let head = topic + sep + "options="@;
    match (options_a, options_b) {
        (Some(a), Some(b)) => {
            if ka == kb {
                assert(ka == head + url_encoded(a));
                assert(kb == head + url_encoded(b));
                assert(url_encoded(a) =~= ka.skip(head.len() as int));
                assert(url_encoded(b) =~= kb.skip(head.len() as int));
                lemma_url_encoded_injective(a, b);
            }
        },
        (Some(a), None) => {
            assert(ka.len() > topic.len());
        },
        (None, Some(b)) => {
            assert(kb.len() > topic.len());
        },
        (None, None) => {},
    }
}

/// Options with different JSON texts give different keys for one topic.
pub proof fn lemma_keys_differ(
    topic: Seq<char>,
    query_a: Map<Seq<char>, Value>,
    headers_a: Map<Seq<char>, Seq<char>>,
    query_b: Map<Seq<char>, Value>,
    headers_b: Map<Seq<char>, Seq<char>>,
)
    requires
        options_text(query_a, headers_a) != options_text(query_b, headers_b),
    ensures
        subscription_key(topic, query_a, headers_a) != subscription_key(topic, query_b, headers_b),
{
    lemma_key_injective(
        topic,
        options_text(query_a, headers_a),
        options_text(query_b, headers_b),
    );
}

/// The key of a topic with a serialized options object, if there is one.
pub fn key_from_options(topic: &str, options: Option<&str>) -> (key: String)
    ensures
        key@ == key_with_options(
            topic@,
            match options {
                Some(text) => Some(text@),
                None => None,
            },
        ),
{
    let mut key = topic.to_owned();
    match options {
        None => {},
        Some(text) => {
            let topic_chars = chars_of(topic);
            proof {
                reveal_strlit("&");
                reveal_strlit("?");
                assert("&"@ =~= seq!['&']);
                assert("?"@ =~= seq!['?']);
            }
            if contains_char(&topic_chars, '?') {
                key.append("&");
            } else {
                key.append("?");
            }
            key.append("options=");
            let encoded = url_encode(text);
            key.append(encoded.as_str());
        },
    }
    key
}

/// The JSON object of a list of query parameters.
fn query_object(query: &Vec<(String, Value)>) -> (m: serde_json::Map<String, Value>)
    ensures
        object_entries(m) == pairs_map(query_view(query@)),
{
    let mut m = new_object();
    let mut i: usize = 0;
    while i < query.len()
        invariant
            i <= query.len(),
            object_entries(m) == pairs_map(query_view(query@).take(i as int)),
        decreases query.len() - i,
    {
        proof {
            let next = query_view(query@).take(i as int + 1);
            assert(next.drop_last() =~= query_view(query@).take(i as int));
            assert(next.last() == (query@[i as int].0@, query@[i as int].1));
        }
        object_insert(&mut m, query[i].0.clone(), query[i].1.clone());
        i += 1;
    }
    proof {
        assert(query_view(query@).take(query.len() as int) =~= query_view(query@));
    }
    m
}

/// The JSON object of a list of headers, each value a JSON string.
pub(crate) fn headers_object(headers: &Vec<(String, String)>) -> (m: serde_json::Map<String, Value>)
    ensures
        object_entries(m) == header_values(pairs_map(headers.deep_view())),
{
    let mut m = new_object();
    let mut i: usize = 0;
    proof {
        assert(header_values(pairs_map(headers.deep_view().take(0))) =~= no_entries());
    }
    while i < headers.len()
        invariant
            i <= headers.len(),
            object_entries(m) == header_values(pairs_map(headers.deep_view().take(i as int))),
        decreases headers.len() - i,
    {
        proof {
            let before = headers.deep_view().take(i as int);
            let next = headers.deep_view().take(i as int + 1);
            assert(next.drop_last() =~= before);
            assert(next.last() == (headers@[i as int].0@, headers@[i as int].1@));
            assert(header_values(pairs_map(next)) =~= header_values(pairs_map(before)).insert(
                headers@[i as int].0@,
                json_string(headers@[i as int].1@),
            ));
        }
        object_insert(&mut m, headers[i].0.clone(), string_value(headers[i].1.clone()));
        i += 1;
    }
    proof {
        assert(headers.deep_view().take(headers.len() as int) =~= headers.deep_view());
    }
    m
}

/// Builds the subscription key of a topic with its options. A later pair
/// of a list replaces an earlier one with the same key; apart from that the
/// order of the pairs does not matter.
pub fn build_subscription_key(
    topic: &str,
    query: &Vec<(String, Value)>,
    headers: &Vec<(String, String)>,
) -> (key: String)
    ensures
        key@ == subscription_key(
            topic@,
            pairs_map(query_view(query@)),
            pairs_map(headers.deep_view()),
        ),
{
    proof {
        lemma_pairs_map_keys(query_view(query@));
        lemma_pairs_map_keys(headers.deep_view());
    }
    if query.len() == 0 && headers.len() == 0 {
        return key_from_options(topic, None);
    }
    let mut options = new_object();
    if query.len() > 0 {
        object_insert(&mut options, "query".to_owned(), object_value(query_object(query)));
    }
    if headers.len() > 0 {
        object_insert(&mut options, "headers".to_owned(), object_value(headers_object(headers)));
    }
    let serialized = to_text(&object_value(options));
    key_from_options(topic, Some(serialized.as_str()))
}

} // verus!
