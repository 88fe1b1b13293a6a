use bosbase::crud::code_value;
use bosbase::crud::first_list_item;
use bosbase::crud::items_of;
use bosbase::crud::page_is_last;
use bosbase::crud::set_param;
use bosbase::crud::set_text_param;
use bosbase::crud::BaseCrudService;
use bosbase::crud::FullList;
use bosbase::request::FileAttachment;
use serde_json::Value;

fn json(text: &str) -> Value {
    serde_json::from_str(text).unwrap()
}

fn q(pairs: &[(&str, &str)]) -> Vec<(String, Value)> {
    pairs.iter().map(|(k, v)| (k.to_string(), json(v))).collect()
}

fn some(text: &str) -> Option<String> {
    Some(text.to_string())
}

fn service() -> BaseCrudService {
    BaseCrudService::new("/api/collections/posts/records".to_string())
}

#[test]
fn set_param_replaces_and_appends() {
    let query = q(&[("a", "1"), ("b", "2"), ("a", "3")]);
    assert_eq!(set_param(query.clone(), "a", json("9")), q(&[("b", "2"), ("a", "9")]));
    assert_eq!(set_param(query.clone(), "c", json("9")), q(&[("a", "1"), ("b", "2"), ("a", "3"), ("c", "9")]));
    assert_eq!(set_param(vec![], "c", Value::Null), q(&[("c", "null")]));
    assert_eq!(set_text_param(query.clone(), "b", None), query);
    assert_eq!(set_text_param(query.clone(), "b", some("x")), q(&[("a", "1"), ("a", "3"), ("b", "\"x\"")]));
}

#[test]
fn list_request_exact() {
    let s = service();
    assert_eq!(s.base_crud_path(), "/api/collections/posts/records");
    let headers = vec![("h".to_string(), "v".to_string())];
    let r = s.get_list(2, 30, false, q(&[("page", "7"), ("x", "true")]), headers.clone(), some("a=1"), None, some("e"), None);
    assert_eq!(r.path, "/api/collections/posts/records");
    assert_eq!(r.options.method, "GET");
    assert_eq!(
        r.options.query,
        q(&[("x", "true"), ("page", "2"), ("perPage", "30"), ("skipTotal", "false"), ("filter", "\"a=1\""), ("expand", "\"e\"")])
    );
    assert_eq!(r.options.headers, headers);
    assert_eq!(r.options.body, Value::Null);
    assert!(r.options.files.is_empty());
    assert!(r.options.timeout.is_none());
}

#[test]
fn one_request_and_missing_id() {
    let s = service();
    let r = s.get_one("http://h", "a b/c", q(&[("fields", "\"old\"")]), vec![], None, some("id")).unwrap();
    assert_eq!(r.path, "/api/collections/posts/records/a%20b%2Fc");
    assert_eq!(r.options.method, "GET");
    assert_eq!(r.options.query, q(&[("fields", "\"id\"")]));
    let err = s.get_one("http://h", "", q(&[("x", "1")]), vec![], some("e"), None).unwrap_err();
    assert_eq!(err.status, 404);
    assert_eq!(err.url, "http://h/api/collections/posts/records/?x=1");
    assert_eq!(err.response, json("{\"code\":404,\"message\":\"Missing required record id.\",\"data\":{}}"));
    assert!(!err.is_abort);
    assert!(err.original_error.is_none());
}

#[test]
fn first_item_request_and_answer() {
    let s = service();
    let r = s.get_first_list_item("name='x'".to_string(), vec![], vec![], None, None);
    assert_eq!(r.options.query, q(&[("page", "1"), ("perPage", "1"), ("skipTotal", "true"), ("filter", "\"name='x'\"")]));
    assert_eq!(first_list_item(&json("{\"items\":[{\"id\":1},{\"id\":2}]}")).unwrap(), json("{\"id\":1}"));
    for answer in ["{\"items\":[]}", "{}", "{\"items\":5}", "[1]", "null"] {
        let err = first_list_item(&json(answer)).unwrap_err();
        assert_eq!(err.status, 404);
        assert_eq!(err.url, "");
        assert_eq!(
            err.response,
            json("{\"code\":404,\"message\":\"The requested resource wasn't found.\",\"data\":{}}")
        );
    }
}

#[test]
fn full_list_pages() {
    let s = service();
    for batch in [0, -1, i32::MIN] {
        let err = s.get_full_list(batch, 1, vec![], vec![], None, None, None, None).unwrap_err();
        assert_eq!(err.status, 400);
        assert_eq!(err.response, json("{\"message\":\"batch must be > 0\"}"));
    }
    let r = s.get_full_list(2, 3, vec![], vec![], None, some("-created"), None, None).unwrap();
    assert_eq!(r.options.query, q(&[("page", "3"), ("perPage", "2"), ("skipTotal", "true"), ("sort", "\"-created\"")]));
    assert_eq!(items_of(&json("{\"items\":[1,2]}")), vec![json("1"), json("2")]);
    assert!(items_of(&json("{\"items\":{}}")).is_empty());
    assert!(!page_is_last(&json("{\"items\":[1,2],\"perPage\":2}"), 2));
    assert!(page_is_last(&json("{\"items\":[1],\"perPage\":2}"), 2));
    assert!(page_is_last(&json("{\"items\":[],\"perPage\":0}"), 2));
    assert!(!page_is_last(&json("{\"items\":[1,2]}"), 2));
    assert!(page_is_last(&json("{\"items\":[1,2]}"), 3));
    assert!(!page_is_last(&json("{\"items\":[1],\"perPage\":-4}"), 5));
    assert!(!page_is_last(&json("{\"items\":[1],\"perPage\":\"x\"}"), 1));
    assert!(page_is_last(&json("{\"perPage\":2}"), 2));
}

#[test]
fn create_update_remove_requests() {
    let s = service();
    let file = FileAttachment::new("f".to_string(), "n".to_string(), vec![1]);
    let c = s.create(json("{\"a\":1}"), vec![], vec![file.clone()], vec![], some("e"), some("f"));
    assert_eq!((c.path.as_str(), c.options.method.as_str()), ("/api/collections/posts/records", "POST"));
    assert_eq!(c.options.body, json("{\"a\":1}"));
    assert_eq!(c.options.files.len(), 1);
    assert_eq!(c.options.query, q(&[("expand", "\"e\""), ("fields", "\"f\"")]));
    let u = s.update("id1", json("{}"), q(&[("x", "1")]), vec![], vec![], None, None);
    assert_eq!((u.path.as_str(), u.options.method.as_str()), ("/api/collections/posts/records/id1", "PATCH"));
    assert_eq!(u.options.query, q(&[("x", "1")]));
    let d = s.remove("id 1", Value::Null, vec![], vec![("h".to_string(), "v".to_string())]);
    assert_eq!((d.path.as_str(), d.options.method.as_str()), ("/api/collections/posts/records/id%201", "DELETE"));
    assert_eq!(d.options.headers.len(), 1);
    assert!(d.options.files.is_empty());
    assert_eq!(code_value(7, "m"), json("{\"code\":7,\"message\":\"m\",\"data\":{}}"));
}

#[test]
fn full_listing_gathers_pages_in_order() {
    let s = service();
    for batch in [0, -3] {
        let err = FullList::start(batch).unwrap_err();
        assert_eq!(err.status, 400);
        assert_eq!(err.response, json("{\"message\":\"batch must be > 0\"}"));
    }
    let answers = [
        "{\"items\":[1,2],\"perPage\":2}",
        "{\"items\":[3,4]}",
        "{\"items\":[5],\"perPage\":2}",
        "{\"items\":[6,7],\"perPage\":2}",
    ];
    let mut list = FullList::start(2).unwrap();
    let mut pages = Vec::new();
    let mut next = 0;
    while let Some(request) = s.next_page(&list, vec![], vec![], None, None, None, None) {
        assert_eq!(
            request.options.query,
            q(&[("page", &list.page().to_string()), ("perPage", "2"), ("skipTotal", "true")])
        );
        pages.push(list.page());
        assert!(list.absorb(&json(answers[next])));
        next += 1;
    }
    assert_eq!(pages, vec![1, 2, 3]);
    assert!(list.is_done());
    assert!(!list.absorb(&json(answers[3])));
    assert_eq!(list.finish().unwrap(), vec![json("1"), json("2"), json("3"), json("4"), json("5")]);
    let mut empty = FullList::start(5).unwrap();
    assert!(!empty.is_done());
    let unfinished = empty.clone().finish();
    assert!(unfinished.is_err());
    assert!(empty.absorb(&json("{}")));
    assert!(empty.is_done());
    assert_eq!(empty.page(), 1);
    assert!(empty.finish().unwrap().is_empty());
}
