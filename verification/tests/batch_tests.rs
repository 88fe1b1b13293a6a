use bosbase::batch::to_decimal;
use bosbase::batch::BatchService;
use bosbase::record::maybe_update_auth_record;
use bosbase::record::with_verified;
use bosbase::request::FileAttachment;
use serde_json::Value;

fn json(text: &str) -> Value {
    serde_json::from_str(text).unwrap()
}

fn file(field: &str, data: &[u8]) -> FileAttachment {
    FileAttachment::new(field.to_string(), format!("{}.bin", field), data.to_vec())
}

#[test]
fn decimal_like_std() {
    for n in [0usize, 1, 9, 10, 11, 99, 100, 101, 12345, 1_000_000, usize::MAX] {
        assert_eq!(to_decimal(n), n.to_string());
    }
}

#[test]
fn batch_collects_requests_and_files() {
    let mut batch = BatchService::new();
    assert_eq!(batch.len(), 0);
    let posts = batch.collection("my posts".to_string());
    assert_eq!(posts.collection_url(), "/api/collections/my%20posts/records");
    posts.create(&mut batch, json("{\"a\":1}"), vec![("x".to_string(), json("1"))], vec![file("f", b"ab")], Some("e".to_string()), None);
    posts.upsert(&mut batch, Value::Null, vec![], vec![], None, Some("id".to_string()));
    posts.update(&mut batch, "r 1", json("{\"b\":2}"), vec![], vec![file("g", b"c"), file("h", b"")], None, None);
    posts.remove(&mut batch, "r2", Value::Null, vec![("q".to_string(), json("\"v\""))]);
    batch.queue_request(
        "GET".to_string(),
        "/api/x".to_string(),
        vec![("H".to_string(), "1".to_string())],
        json("[1]"),
        vec![],
    );
    assert_eq!(batch.len(), 5);
    let headers = vec![("A".to_string(), "b".to_string())];
    let query = vec![("k".to_string(), json("true"))];
    let request = batch.send(json("{\"extra\":true,\"requests\":\"old\"}"), query.clone(), headers.clone()).unwrap();
    assert_eq!(batch.len(), 0);
    assert_eq!(request.path, "/api/batch");
    assert_eq!(request.options.method, "POST");
    assert_eq!(request.options.query, query);
    assert_eq!(request.options.headers, headers);
    assert!(request.options.timeout.is_none());
    assert_eq!(
        request.options.body,
        json(
            "{\"extra\":true,\"requests\":[\
             {\"method\":\"POST\",\"url\":\"/api/collections/my%20posts/records?x=1&expand=e\",\"headers\":{},\"body\":{\"a\":1}},\
             {\"method\":\"PUT\",\"url\":\"/api/collections/my%20posts/records?fields=id\",\"headers\":{},\"body\":{}},\
             {\"method\":\"PATCH\",\"url\":\"/api/collections/my%20posts/records/r%201\",\"headers\":{},\"body\":{\"b\":2}},\
             {\"method\":\"DELETE\",\"url\":\"/api/collections/my%20posts/records/r2?q=v\",\"headers\":{},\"body\":{}},\
             {\"method\":\"GET\",\"url\":\"/api/x\",\"headers\":{\"H\":\"1\"},\"body\":[1]}\
             ]}"
        )
    );
    let names: Vec<(String, String, Vec<u8>)> = request
        .options
        .files
        .iter()
        .map(|f| (f.field.clone(), f.filename.clone(), f.data.clone()))
        .collect();
    assert_eq!(
        names,
        vec![
            ("requests.0.f".to_string(), "f.bin".to_string(), b"ab".to_vec()),
            ("requests.2.g".to_string(), "g.bin".to_string(), b"c".to_vec()),
            ("requests.2.h".to_string(), "h.bin".to_string(), vec![]),
        ]
    );
    assert!(request.options.files.iter().all(|f| f.content_type == "application/octet-stream"));
}

#[test]
fn batch_body_null_or_object() {
    let mut batch = BatchService::new();
    let empty = batch.send(Value::Null, vec![], vec![]).unwrap();
    assert_eq!(empty.options.body, json("{\"requests\":[]}"));
    assert!(empty.options.files.is_empty());
    batch.queue_request("GET".to_string(), "/a".to_string(), vec![], Value::Null, vec![]);
    for body in ["\"text\"", "[1]", "5", "true"] {
        assert!(batch.send(json(body), vec![], vec![]).is_none());
        assert_eq!(batch.len(), 1);
    }
    let sent = batch.send(json("{}"), vec![], vec![]).unwrap();
    assert_eq!(
        sent.options.body,
        json("{\"requests\":[{\"method\":\"GET\",\"url\":\"/a\",\"headers\":{},\"body\":{}}]}")
    );
    assert_eq!(batch.len(), 0);
}

#[test]
fn stored_record_takes_the_changes() {
    let current = json("{\"id\":\"u1\",\"collectionId\":\"c1\",\"name\":\"old\",\"keep\":1,\"expand\":{\"a\":1,\"b\":2}}");
    let item = json("{\"id\":\"u1\",\"name\":\"new\",\"extra\":true,\"expand\":{\"b\":3,\"c\":4}}");
    assert_eq!(
        maybe_update_auth_record(&current, &item, "c1"),
        Some(json("{\"id\":\"u1\",\"collectionId\":\"c1\",\"name\":\"new\",\"keep\":1,\"extra\":true,\"expand\":{\"a\":1,\"b\":3,\"c\":4}}"))
    );
    assert_eq!(maybe_update_auth_record(&current, &item, "other"), None);
    assert_eq!(maybe_update_auth_record(&current, &json("{\"id\":\"u2\"}"), "c1"), None);
    assert_eq!(maybe_update_auth_record(&Value::Null, &item, "c1"), None);
    let plain = json("{\"id\":\"u1\",\"collectionName\":\"users\"}");
    assert_eq!(
        maybe_update_auth_record(&plain, &json("{\"id\":\"u1\",\"expand\":{\"x\":1}}"), "users"),
        Some(json("{\"id\":\"u1\",\"collectionName\":\"users\",\"expand\":{\"x\":1}}"))
    );
    let odd = json("{\"id\":\"u1\",\"collectionName\":\"users\",\"expand\":5}");
    assert_eq!(
        maybe_update_auth_record(&odd, &json("{\"id\":\"u1\",\"expand\":{\"x\":1}}"), "users"),
        Some(json("{\"id\":\"u1\",\"collectionName\":\"users\",\"expand\":5}"))
    );
    assert_eq!(
        maybe_update_auth_record(&current, &json("{\"id\":\"u1\",\"expand\":7}"), "c1"),
        Some(json("{\"id\":\"u1\",\"collectionId\":\"c1\",\"name\":\"old\",\"keep\":1,\"expand\":{\"a\":1,\"b\":2}}"))
    );
}

#[test]
fn verified_mark() {
    assert_eq!(with_verified(&json("{\"id\":\"u1\",\"verified\":false}")), Some(json("{\"id\":\"u1\",\"verified\":true}")));
    assert_eq!(with_verified(&json("{}")), Some(json("{\"verified\":true}")));
    assert_eq!(with_verified(&json("[1]")), None);
    assert_eq!(with_verified(&Value::Null), None);
}
