use bosbase::client::build_url;
use bosbase::utils::base64_url_decode;
use bosbase::utils::build_query;
use bosbase::utils::build_relative_url;
use bosbase::utils::encode_path_segment;
use bosbase::utils::join;
use bosbase::utils::normalize_query;
use bosbase::utils::scalar_to_text;
use bosbase::utils::to_serializable;
use bosbase::utils::url_encode;
use serde_json::Value;

fn json(text: &str) -> Value {
    serde_json::from_str(text).unwrap()
}

#[test]
fn url_encode_leaves_unreserved_bytes() {
    assert_eq!(url_encode("AZaz09-._~"), "AZaz09-._~");
    assert_eq!(url_encode(""), "");
}

#[test]
fn url_encode_escapes_everything_else() {
    assert_eq!(url_encode("hello world!"), "hello%20world%21");
    assert_eq!(url_encode("a/b?c=d&e"), "a%2Fb%3Fc%3Dd%26e");
    assert_eq!(url_encode("%"), "%25");
    assert_eq!(url_encode("é"), "%C3%A9");
    assert_eq!(url_encode("✓"), "%E2%9C%93");
    assert_eq!(url_encode("{\"a\":1}"), "%7B%22a%22%3A1%7D");
}

#[test]
fn url_encode_byte_by_byte_for_every_char() {
    let mut n: u32 = 0;
    while n <= 0x10FFFF {
        if let Some(c) = char::from_u32(n) {
            let mut buf = [0u8; 4];
            let mut expected = String::new();
            for b in c.encode_utf8(&mut buf).bytes() {
                let keep = b.is_ascii_alphanumeric() || b == b'-' || b == b'.' || b == b'_' || b == b'~';
                if keep {
                    expected.push(b as char);
                } else {
                    expected.push_str(&format!("%{:02X}", b));
                }
            }
            let mut s = String::new();
            s.push(c);
            assert_eq!(url_encode(&s), expected);
        }
        n += 257;
    }
    for b in 0u8..128 {
        let s = (b as char).to_string();
        let keep = b.is_ascii_alphanumeric() || b == b'-' || b == b'.' || b == b'_' || b == b'~';
        let expected = if keep { s.clone() } else { format!("%{:02X}", b) };
        assert_eq!(url_encode(&s), expected);
    }
}

#[test]
fn encode_path_segment_is_url_encode() {
    assert_eq!(encode_path_segment("a b/c"), "a%20b%2Fc");
    assert_eq!(encode_path_segment("plain"), "plain");
}

#[test]
fn join_puts_the_separator_between() {
    assert_eq!(join(&vec![], "&"), "");
    assert_eq!(join(&vec!["a".to_string()], "&"), "a");
    assert_eq!(join(&vec!["a".to_string(), "b".to_string(), "".to_string()], ", "), "a, b, ");
}

#[test]
fn build_query_in_order() {
    let params = vec![
        ("a b".to_string(), vec!["1".to_string(), "x&y".to_string()]),
        ("empty".to_string(), vec![]),
        ("c".to_string(), vec!["d".to_string()]),
    ];
    assert_eq!(build_query(&params), "a%20b=1&a%20b=x%26y&c=d");
    assert_eq!(build_query(&vec![]), "");
}

#[test]
fn normalize_query_by_kind_of_value() {
    let params = vec![
        ("s".to_string(), json("\"text\"")),
        ("n".to_string(), json("12")),
        ("null".to_string(), Value::Null),
        ("b".to_string(), json("true")),
        ("arr".to_string(), json("[\"x\", null, 3, {\"k\":false}]")),
        ("nulls".to_string(), json("[null, null]")),
        ("none".to_string(), json("[]")),
        ("obj".to_string(), json("{\"k\":[1,2]}")),
    ];
    let normalized = normalize_query(&params);
    assert_eq!(
        normalized,
        vec![
            ("s".to_string(), vec!["text".to_string()]),
            ("n".to_string(), vec!["12".to_string()]),
            ("b".to_string(), vec!["true".to_string()]),
            ("arr".to_string(), vec!["x".to_string(), "3".to_string(), "{\"k\":false}".to_string()]),
            ("obj".to_string(), vec!["{\"k\":[1,2]}".to_string()]),
        ]
    );
}

#[test]
fn scalar_text_of_string_and_other() {
    assert_eq!(scalar_to_text(&json("\"a\\\"b\"")), "a\"b");
    assert_eq!(scalar_to_text(&json("1.5")), "1.5");
    assert_eq!(scalar_to_text(&Value::Null), "null");
}

#[test]
fn relative_url_roots_the_path() {
    assert_eq!(build_relative_url("api/x", &vec![]), "/api/x");
    assert_eq!(build_relative_url("/api/x", &vec![]), "/api/x");
    assert_eq!(build_relative_url("", &vec![]), "/");
}

#[test]
fn relative_url_appends_query() {
    let query = vec![("page".to_string(), json("2")), ("q".to_string(), json("\"a b\""))];
    assert_eq!(build_relative_url("/api/x", &query), "/api/x?page=2&q=a%20b");
    let only_null = vec![("skip".to_string(), Value::Null)];
    assert_eq!(build_relative_url("/api/x", &only_null), "/api/x");
}

#[test]
fn full_url_has_one_slash_between() {
    assert_eq!(build_url("http://h", "/api/x", &vec![]), "http://h/api/x");
    assert_eq!(build_url("http://h/", "api/x", &vec![]), "http://h/api/x");
    assert_eq!(build_url("http://h/", "//api/x", &vec![]), "http://h/api/x");
    assert_eq!(build_url("", "x", &vec![]), "/x");
    let query = vec![("a".to_string(), json("[1,2]"))];
    assert_eq!(build_url("/", "/p", &query), "/p?a=1&a=2");
}

#[test]
fn base64_url_decode_pads_and_maps() {
    assert_eq!(base64_url_decode("aGVsbG8"), Some(b"hello".to_vec()));
    assert_eq!(base64_url_decode("aGVsbG8="), Some(b"hello".to_vec()));
    assert_eq!(base64_url_decode("aGk"), Some(b"hi".to_vec()));
    assert_eq!(base64_url_decode(""), Some(vec![]));
    assert_eq!(base64_url_decode("-_-_"), Some(vec![0xfb, 0xff, 0xbf]));
    assert_eq!(base64_url_decode("+/+/"), Some(vec![0xfb, 0xff, 0xbf]));
}

#[test]
fn base64_url_decode_rejects_bad_input() {
    assert_eq!(base64_url_decode("a"), None);
    assert_eq!(base64_url_decode("****"), None);
    assert_eq!(base64_url_decode("é"), None);
}

#[test]
fn to_serializable_copies() {
    let v = json("{\"a\":[1,\"x\",null]}");
    assert_eq!(to_serializable(&v), v);
}
