use bosbase::errors::ClientResponseError;
use bosbase::request::FileAttachment;
use bosbase::request::SendOptions;
use serde_json::Value;

#[test]
fn file_attachment_defaults_content_type() {
    let f = FileAttachment::new("avatar".to_string(), "a.png".to_string(), vec![1, 2, 3]);
    assert_eq!(f.field, "avatar");
    assert_eq!(f.filename, "a.png");
    assert_eq!(f.content_type, "application/octet-stream");
    assert_eq!(f.data, vec![1, 2, 3]);
}

#[test]
fn send_options_default_is_plain_get() {
    let o = SendOptions::default();
    assert_eq!(o.method, "GET");
    assert!(o.headers.is_empty());
    assert!(o.query.is_empty());
    assert_eq!(o.body, Value::Null);
    assert!(o.files.is_empty());
    assert!(o.timeout.is_none());
}

#[test]
fn error_keeps_its_parts() {
    let e = ClientResponseError::new(
        "http://h/x".to_string(),
        404,
        Value::from("gone"),
        true,
        Some("cause".to_string()),
    );
    assert_eq!(e.url, "http://h/x");
    assert_eq!(e.status, 404);
    assert_eq!(e.response, Value::from("gone"));
    assert!(e.is_abort);
    assert_eq!(e.original_error, Some("cause".to_string()));
    let copy = e.clone();
    assert_eq!(copy.status, 404);
}
