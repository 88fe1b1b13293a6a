use bosbase::auth_store::expires_after;
use bosbase::auth_store::expiry_of_claims;
use bosbase::auth_store::is_jwt_valid;
use bosbase::auth_store::payload_segment;
use bosbase::auth_store::split_chars;
use bosbase::auth_store::token_expiry;
use bosbase::auth_store::AuthStore;
use bosbase::text::chars_of;
use bosbase::text::string_of;
use serde_json::Value;

fn json(text: &str) -> Value {
    serde_json::from_str(text).unwrap()
}

fn pieces(text: &str, sep: char) -> Vec<String> {
    split_chars(&chars_of(text), sep).iter().map(string_of).collect()
}

// header {"alg":"none"}, payload {"exp":2000000000,"id":"u1"}
const TOKEN: &str = "eyJhbGciOiJub25lIn0.eyJleHAiOjIwMDAwMDAwMDAsImlkIjoidTEifQ.sig";

#[test]
fn split_like_std() {
    for text in ["", ".", "a", "a.b", "a.b.c", "..", ".a.", "a..b", "héllo.wörld."] {
        let expected: Vec<String> = text.split('.').map(|s| s.to_string()).collect();
        assert_eq!(pieces(text, '.'), expected);
    }
    assert_eq!(pieces("a.b", ','), vec!["a.b".to_string()]);
}

#[test]
fn payload_segment_needs_three_parts() {
    assert_eq!(payload_segment("a.b.c"), Some("b".to_string()));
    assert_eq!(payload_segment("a..c"), Some("".to_string()));
    assert_eq!(payload_segment("a.b"), None);
    assert_eq!(payload_segment("a.b.c.d"), None);
    assert_eq!(payload_segment(""), None);
}

#[test]
fn expiry_is_read_from_claims() {
    assert_eq!(token_expiry(TOKEN), Some(2_000_000_000));
    assert_eq!(token_expiry("a.b.c"), None);
    assert_eq!(token_expiry("x.e30.y"), None);
    assert_eq!(token_expiry("x.eyJleHAiOiIxMiJ9.y"), None);
    assert_eq!(token_expiry("only.two"), None);
    assert_eq!(expiry_of_claims(Some(json("{\"exp\":-5}"))), Some(-5));
    assert_eq!(expiry_of_claims(Some(json("{\"exp\":1.5}"))), None);
    assert_eq!(expiry_of_claims(Some(json("{\"exp\":18446744073709551615}"))), None);
    assert_eq!(expiry_of_claims(Some(json("[1]"))), None);
    assert_eq!(expiry_of_claims(None), None);
}

#[test]
fn validity_compares_with_now() {
    assert!(expires_after(Some(10), 9));
    assert!(!expires_after(Some(10), 10));
    assert!(!expires_after(Some(10), 11));
    assert!(!expires_after(None, i64::MIN));
    assert!(is_jwt_valid(TOKEN, 1_999_999_999));
    assert!(!is_jwt_valid(TOKEN, 2_000_000_000));
    assert!(!is_jwt_valid("not a token", 0));
    assert!(!is_jwt_valid("", 0));
}

#[test]
fn store_keeps_token_and_record() {
    let mut store: AuthStore<&'static str> = AuthStore::new();
    assert_eq!(store.token(), "");
    assert_eq!(store.record(), Value::Null);
    assert!(!store.is_valid(0));
    store.save(TOKEN.to_string(), json("{\"id\":\"u1\"}"));
    assert_eq!(store.token(), TOKEN);
    assert_eq!(store.record(), json("{\"id\":\"u1\"}"));
    assert!(store.is_valid(0));
    assert!(!store.is_valid(2_000_000_001));
    assert_eq!(store.valid_token(0), Some(TOKEN.to_string()));
    assert_eq!(store.valid_token(2_000_000_000), None);
    store.clear();
    assert_eq!(store.token(), "");
    assert_eq!(store.record(), Value::Null);
    assert!(!store.is_valid(0));
}

#[test]
fn store_listeners_in_order() {
    let mut store: AuthStore<&'static str> = AuthStore::new();
    assert_eq!(store.add_listener("a"), 1);
    assert_eq!(store.add_listener("b"), 2);
    assert_eq!(store.add_listener("c"), 3);
    assert_eq!(store.listeners(), vec![&"a", &"b", &"c"]);
    store.remove_listener(2);
    store.remove_listener(9);
    assert_eq!(store.listeners(), vec![&"a", &"c"]);
    assert_eq!(store.add_listener("d"), 4);
    store.save("t".to_string(), Value::Null);
    assert_eq!(store.listeners(), vec![&"a", &"c", &"d"]);
    store.remove_listener(1);
    store.remove_listener(3);
    store.remove_listener(4);
    assert!(store.listeners().is_empty());
}
