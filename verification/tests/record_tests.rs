use bosbase::record::count_of;
use bosbase::record::decode_token_payload;
use bosbase::record::handle_auth_response;
use bosbase::record::is_auth_record;
use bosbase::record::marks_verified;
use bosbase::record::same_token_record;
use bosbase::request::answer;
use bosbase::request::answer_from;
use bosbase::request::body_kind;
use bosbase::request::build_headers;
use bosbase::request::data_from;
use bosbase::request::response_value;
use bosbase::request::BodyKind;
use bosbase::request::FileAttachment;
use bosbase::request::SendOptions;
use bosbase::request::contains_header;
use bosbase::request::is_failure_status;
use bosbase::request::set_header;
use bosbase::request::status_error;
use bosbase::request::transport_error;
use serde_json::Value;

fn json(text: &str) -> Value {
    serde_json::from_str(text).unwrap()
}

fn h(pairs: &[(&str, &str)]) -> Vec<(String, String)> {
    pairs.iter().map(|(k, v)| (k.to_string(), v.to_string())).collect()
}

#[test]
fn stored_record_is_known_by_id_and_collection() {
    let current = json("{\"id\":\"u1\",\"collectionId\":\"c1\",\"collectionName\":\"users\"}");
    assert!(is_auth_record(&current, "users", "u1"));
    assert!(is_auth_record(&current, "c1", "u1"));
    assert!(!is_auth_record(&current, "posts", "u1"));
    assert!(!is_auth_record(&current, "users", "u2"));
    assert!(!is_auth_record(&Value::Null, "", ""));
    assert!(is_auth_record(&json("{}"), "", ""));
    assert!(!is_auth_record(&json("{\"id\":5,\"collectionId\":\"c1\"}"), "c1", "5"));
}

#[test]
fn token_about_stored_record() {
    let current = json("{\"id\":\"u1\",\"collectionId\":\"c1\"}");
    assert!(same_token_record(&current, &json("{\"id\":\"u1\",\"collectionId\":\"c1\",\"exp\":1}")));
    assert!(!same_token_record(&current, &json("{\"id\":\"u2\",\"collectionId\":\"c1\"}")));
    assert!(!same_token_record(&current, &json("{\"id\":\"u1\",\"collectionId\":\"c2\"}")));
    assert!(!same_token_record(&current, &Value::Null));
    assert!(!same_token_record(&Value::Null, &current));
    assert!(same_token_record(&json("{}"), &json("[]")));
}

#[test]
fn verification_is_noted_once() {
    let payload = json("{\"id\":\"u1\",\"collectionId\":\"c1\"}");
    assert!(marks_verified(&json("{\"id\":\"u1\",\"collectionId\":\"c1\"}"), &payload));
    assert!(marks_verified(&json("{\"id\":\"u1\",\"collectionId\":\"c1\",\"verified\":false}"), &payload));
    assert!(marks_verified(&json("{\"id\":\"u1\",\"collectionId\":\"c1\",\"verified\":\"yes\"}"), &payload));
    assert!(!marks_verified(&json("{\"id\":\"u1\",\"collectionId\":\"c1\",\"verified\":true}"), &payload));
    assert!(!marks_verified(&json("{\"id\":\"u2\",\"collectionId\":\"c1\"}"), &payload));
    assert!(!marks_verified(&Value::Null, &payload));
}

#[test]
fn sign_in_answer_needs_token_and_record() {
    let both = json("{\"token\":\"t\",\"record\":{\"id\":\"u1\"}}");
    assert_eq!(handle_auth_response(&both), Some(("t".to_string(), json("{\"id\":\"u1\"}"))));
    assert_eq!(handle_auth_response(&json("{\"token\":\"t\"}")), None);
    assert_eq!(handle_auth_response(&json("{\"record\":{}}")), None);
    assert_eq!(handle_auth_response(&json("{\"token\":5,\"record\":{}}")), None);
    assert_eq!(handle_auth_response(&json("{\"token\":\"\",\"record\":null}")), Some((String::new(), Value::Null)));
}

#[test]
fn count_defaults_to_zero() {
    assert_eq!(count_of(&json("{\"count\":12}")), 12);
    assert_eq!(count_of(&json("{\"count\":-1}")), -1);
    assert_eq!(count_of(&json("{\"count\":\"12\"}")), 0);
    assert_eq!(count_of(&json("{\"count\":1.5}")), 0);
    assert_eq!(count_of(&json("{}")), 0);
}

#[test]
fn token_payload_is_the_second_segment() {
    assert_eq!(decode_token_payload("h.eyJpZCI6InUxIn0.s"), json("{\"id\":\"u1\"}"));
    assert_eq!(decode_token_payload("h.eyJpZCI6InUxIn0"), json("{\"id\":\"u1\"}"));
    assert_eq!(decode_token_payload("h.eyJpZCI6InUxIn0.s.more"), json("{\"id\":\"u1\"}"));
    assert_eq!(decode_token_payload("eyJpZCI6InUxIn0"), Value::Null);
    assert_eq!(decode_token_payload("h.***.s"), Value::Null);
    assert_eq!(decode_token_payload("h.bm90IGpzb24.s"), Value::Null);
    assert_eq!(decode_token_payload(""), Value::Null);
}

#[test]
fn headers_of_a_request() {
    assert_eq!(
        build_headers("en-US", "agent", &vec![], None),
        h(&[("Accept-Language", "en-US"), ("User-Agent", "agent")])
    );
    assert_eq!(
        build_headers("en-US", "agent", &h(&[("X", "1"), ("User-Agent", "mine"), ("X", "2")]), Some("tok".to_string())),
        h(&[("Accept-Language", "en-US"), ("User-Agent", "mine"), ("X", "2"), ("Authorization", "tok")])
    );
    assert_eq!(
        build_headers("l", "a", &h(&[("Authorization", "own")]), Some("tok".to_string())),
        h(&[("Accept-Language", "l"), ("User-Agent", "a"), ("Authorization", "own")])
    );
    assert_eq!(
        build_headers("l", "a", &h(&[("authorization", "own")]), Some("tok".to_string())),
        h(&[("Accept-Language", "l"), ("User-Agent", "a"), ("authorization", "own"), ("Authorization", "tok")])
    );
    assert_eq!(set_header(h(&[("a", "1"), ("b", "2"), ("a", "3")]), "a", "9".to_string()), h(&[("b", "2"), ("a", "9")]));
    assert!(contains_header(&h(&[("a", "1")]), "a"));
    assert!(!contains_header(&h(&[("a", "1")]), "A"));
}

#[test]
fn failure_statuses_and_errors() {
    for status in [400u16, 404, 499, 500, 599] {
        assert!(is_failure_status(status));
    }
    for status in [0u16, 200, 302, 399, 600, u16::MAX] {
        assert!(!is_failure_status(status));
    }
    let t = transport_error("u".to_string(), "refused".to_string(), true);
    assert_eq!((t.url.as_str(), t.status, t.is_abort), ("u", 0, true));
    assert_eq!(t.response, json("{\"message\":\"refused\"}"));
    assert_eq!(t.original_error, Some("refused".to_string()));
    let s = status_error("u".to_string(), 500, json("[1]"));
    assert_eq!((s.url.as_str(), s.status, s.is_abort), ("u", 500, false));
    assert_eq!(s.response, json("[1]"));
    assert!(s.original_error.is_none());
}

#[test]
fn answer_bytes_become_json_or_text() {
    assert_eq!(response_value(&b"{\"a\":1}".to_vec()), json("{\"a\":1}"));
    assert_eq!(response_value(&b" 12 ".to_vec()), json("12"));
    assert_eq!(response_value(&b"not json".to_vec()), Value::String("not json".to_string()));
    assert_eq!(response_value(&Vec::new()), Value::String(String::new()));
    assert_eq!(response_value(&vec![0x68, 0xff, 0x69]), Value::String("h\u{FFFD}i".to_string()));
    assert_eq!(response_value(&"h\u{e9}".as_bytes().to_vec()), Value::String("h\u{e9}".to_string()));
    assert_eq!(data_from(Some(Value::Null), "x".to_string()), Value::Null);
    assert_eq!(data_from(None, "x".to_string()), Value::String("x".to_string()));
}

#[test]
fn answer_is_an_error_from_400_to_599() {
    for status in [400u16, 404, 500, 599] {
        let err = answer("u".to_string(), status, &b"{\"m\":1}".to_vec()).unwrap_err();
        assert_eq!((err.url.as_str(), err.status, err.is_abort), ("u", status, false));
        assert_eq!(err.response, json("{\"m\":1}"));
        assert!(err.original_error.is_none());
    }
    let plain = answer("u".to_string(), 503, &b"down".to_vec()).unwrap_err();
    assert_eq!(plain.response, Value::String("down".to_string()));
    for status in [0u16, 200, 204, 301, 399, 600] {
        assert_eq!(answer("u".to_string(), status, &b"[1]".to_vec()).unwrap(), json("[1]"));
    }
    assert_eq!(answer_from("u".to_string(), 200, Value::Null).unwrap(), Value::Null);
    assert_eq!(answer_from("u".to_string(), 418, Value::Null).unwrap_err().status, 418);
}

#[test]
fn json_body_only_without_files_and_not_null() {
    let mut options = SendOptions::default();
    assert_eq!(body_kind(&options), BodyKind::Empty);
    options.body = json("{}");
    assert_eq!(body_kind(&options), BodyKind::Json);
    options.body = json("false");
    assert_eq!(body_kind(&options), BodyKind::Json);
    options.files = vec![FileAttachment::new("f".to_string(), "n".to_string(), vec![])];
    assert_eq!(body_kind(&options), BodyKind::Multipart);
    options.body = Value::Null;
    assert_eq!(body_kind(&options), BodyKind::Multipart);
}
