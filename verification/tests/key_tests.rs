use bosbase::key::build_subscription_key;
use bosbase::key::key_from_options;
use serde_json::Value;

fn json(text: &str) -> Value {
    serde_json::from_str(text).unwrap()
}

fn pair(k: &str, v: &str) -> (String, String) {
    (k.to_string(), v.to_string())
}

#[test]
fn key_without_options_is_the_topic() {
    assert_eq!(build_subscription_key("posts/*", &vec![], &vec![]), "posts/*");
    assert_eq!(build_subscription_key("a?b", &vec![], &vec![]), "a?b");
}

#[test]
fn key_with_query_exact() {
    let query = vec![("a".to_string(), json("1"))];
    assert_eq!(
        build_subscription_key("demo", &query, &vec![]),
        "demo?options=%7B%22query%22%3A%7B%22a%22%3A1%7D%7D"
    );
}

#[test]
fn key_with_headers_exact() {
    let headers = vec![pair("X-Token", "abc")];
    assert_eq!(
        build_subscription_key("demo", &vec![], &headers),
        "demo?options=%7B%22headers%22%3A%7B%22X-Token%22%3A%22abc%22%7D%7D"
    );
}

#[test]
fn key_with_both_lists_headers_first() {
    let query = vec![("f".to_string(), json("\"x\""))];
    let headers = vec![pair("h", "v")];
    let key = build_subscription_key("t", &query, &headers);
    let expected = format!(
        "t?options={}",
        "%7B%22headers%22%3A%7B%22h%22%3A%22v%22%7D%2C%22query%22%3A%7B%22f%22%3A%22x%22%7D%7D"
    );
    assert_eq!(key, expected);
}

#[test]
fn key_of_topic_with_question_mark_uses_ampersand() {
    let query = vec![("a".to_string(), json("1"))];
    assert_eq!(
        build_subscription_key("demo?x=1", &query, &vec![]),
        "demo?x=1&options=%7B%22query%22%3A%7B%22a%22%3A1%7D%7D"
    );
}

#[test]
fn key_differs_for_different_options() {
    let q1 = vec![("a".to_string(), json("1"))];
    let q2 = vec![("a".to_string(), json("2"))];
    let q3 = vec![("a".to_string(), json("\"1\""))];
    let h1 = vec![pair("a", "1")];
    let keys = vec![
        build_subscription_key("t", &vec![], &vec![]),
        build_subscription_key("t", &q1, &vec![]),
        build_subscription_key("t", &q2, &vec![]),
        build_subscription_key("t", &q3, &vec![]),
        build_subscription_key("t", &vec![], &h1),
        build_subscription_key("t", &q1, &h1),
    ];
    for i in 0..keys.len() {
        for j in 0..keys.len() {
            if i != j {
                assert_ne!(keys[i], keys[j]);
            }
        }
    }
}

#[test]
fn key_is_stable_across_calls_and_orders() {
    let q1 = vec![("a".to_string(), json("1")), ("b".to_string(), json("[true]")), ("c".to_string(), Value::Null)];
    let q2 = vec![("c".to_string(), Value::Null), ("a".to_string(), json("1")), ("b".to_string(), json("[true]"))];
    let h1 = vec![pair("x", "1"), pair("y", "2")];
    let h2 = vec![pair("y", "2"), pair("x", "1")];
    let k1 = build_subscription_key("topic", &q1, &h1);
    assert_eq!(k1, build_subscription_key("topic", &q1, &h1));
    assert_eq!(k1, build_subscription_key("topic", &q2, &h2));
    assert_eq!(k1, build_subscription_key("topic", &q2, &h1));
}

#[test]
fn key_later_pair_replaces_earlier() {
    let q1 = vec![("a".to_string(), json("1")), ("a".to_string(), json("2"))];
    let q2 = vec![("a".to_string(), json("2"))];
    assert_eq!(build_subscription_key("t", &q1, &vec![]), build_subscription_key("t", &q2, &vec![]));
}

#[test]
fn key_from_serialized_options() {
    assert_eq!(key_from_options("t", None), "t");
    assert_eq!(key_from_options("t", Some("{}")), "t?options=%7B%7D");
    assert_eq!(key_from_options("t?", Some("x")), "t?&options=x");
    assert_eq!(key_from_options("", Some("")), "?options=");
}
