use bosbase::file::collection_of;
use bosbase::file::get_url;
use bosbase::filter::filter;
use bosbase::filter::matches_at;
use bosbase::filter::replace_all;
use bosbase::filter::string_to_filter_text;
use bosbase::filter::value_to_filter_text;
use bosbase::text::chars_of;
use bosbase::text::string_of;
use serde_json::Value;

fn json(text: &str) -> Value {
    serde_json::from_str(text).unwrap()
}

fn replace(s: &str, from: &str, to: &str) -> String {
    string_of(&replace_all(&chars_of(s), &chars_of(from), &chars_of(to)))
}

fn text(v: &str) -> String {
    string_of(&value_to_filter_text(&json(v)))
}

#[test]
fn replace_all_like_std() {
    let cases = [
        ("", "a", "b"),
        ("aaa", "a", "bb"),
        ("aaa", "aa", "b"),
        ("abcabc", "bc", ""),
        ("abc", "abcd", "x"),
        ("it's 'x'", "'", "\\'"),
        ("a{:x}b{:x}", "{:x}", "{:x}{:x}"),
        ("héllo wörld", "ö", "oe"),
        ("aXbXc", "X", "X"),
    ];
    for (s, from, to) in cases {
        assert_eq!(replace(s, from, to), s.replace(from, to));
    }
    assert_eq!(replace("abc", "", "x"), "abc");
}

#[test]
fn matches_at_positions() {
    let s = chars_of("abcabc");
    let p = chars_of("bc");
    assert!(!matches_at(&s, 0, &p));
    assert!(matches_at(&s, 1, &p));
    assert!(matches_at(&s, 4, &p));
    assert!(!matches_at(&s, 5, &p));
    assert!(!matches_at(&s, 6, &p));
    assert!(matches_at(&s, 6, &chars_of("")));
}

#[test]
fn filter_text_by_kind() {
    assert_eq!(text("\"plain\""), "'plain'");
    assert_eq!(text("\"it's\""), "'it\\'s'");
    assert_eq!(text("null"), "null");
    assert_eq!(text("true"), "true");
    assert_eq!(text("false"), "false");
    assert_eq!(text("12"), "12");
    assert_eq!(text("-1.5"), "-1.5");
    assert_eq!(text("[1,\"a'b\"]"), "'[1,\"a\\'b\"]'");
    assert_eq!(text("{\"k\":\"v\"}"), "'{\"k\":\"v\"}'");
}

#[test]
fn filter_text_of_dates() {
    assert_eq!(text("\"2024-02-03T04:05:06Z\""), "'2024-02-03 04:05:06'");
    assert_eq!(text("\"2024-02-03T04:05:06.789+02:00\""), "'2024-02-03 04:05:06'");
    assert_eq!(text("\"2024-02-03\""), "'2024-02-03'");
    assert_eq!(text("\"2024-13-03T04:05:06Z\""), "'2024-13-03T04:05:06Z'");
    assert_eq!(string_of(&string_to_filter_text("x'y", None)), "'x\\'y'");
    assert_eq!(string_of(&string_to_filter_text("x'y", Some("d'e".to_string()))), "'d'e'");
}

#[test]
fn filter_fills_placeholders_in_order() {
    let params = vec![
        ("name".to_string(), json("\"O'Neil\"")),
        ("age".to_string(), json("30")),
        ("none".to_string(), Value::Null),
        ("unused".to_string(), json("1")),
    ];
    assert_eq!(
        filter("name = {:name} && age > {:age} && x = {:none} && y = {:name} {:missing}", &params),
        "name = 'O\\'Neil' && age > 30 && x = null && y = 'O\\'Neil' {:missing}"
    );
    assert_eq!(filter("a = {:a}", &vec![]), "a = {:a}");
    let chained = vec![("a".to_string(), json("\"{:b}\"")), ("b".to_string(), json("2"))];
    assert_eq!(filter("{:a}", &chained), "'2'");
    let reversed = vec![("b".to_string(), json("2")), ("a".to_string(), json("\"{:b}\""))];
    assert_eq!(filter("{:a}", &reversed), "'{:b}'");
}

#[test]
fn file_url_exact() {
    let record = json("{\"id\":\"r 1\",\"collectionName\":\"posts\",\"collectionId\":\"c1\"}");
    assert_eq!(
        get_url("http://h", &record, "a b.png", None, None, None, vec![]),
        "http://h/api/files/posts/r%201/a%20b.png"
    );
    assert_eq!(
        get_url(
            "http://h/",
            &record,
            "f",
            Some("100x100".to_string()),
            Some("t&k".to_string()),
            Some(true),
            vec![("thumb".to_string(), json("\"old\"")), ("x".to_string(), json("1"))]
        ),
        "http://h/api/files/posts/r%201/f?x=1&thumb=100x100&token=t%26k&download=true"
    );
    assert_eq!(get_url("http://h", &json("{}"), "f", None, None, Some(false), vec![]), "http://h/api/files///f?download=false");
}

#[test]
fn collection_of_record() {
    assert_eq!(collection_of(&json("{\"collectionName\":\"a\",\"@collectionName\":\"b\",\"collectionId\":\"c\"}")), "a");
    assert_eq!(collection_of(&json("{\"collectionName\":\"\",\"@collectionName\":\"b\",\"collectionId\":\"c\"}")), "b");
    assert_eq!(collection_of(&json("{\"@collectionName\":\"\",\"collectionId\":\"c\"}")), "c");
    assert_eq!(collection_of(&json("{\"collectionName\":5,\"collectionId\":\"c\"}")), "c");
    assert_eq!(collection_of(&json("{\"collectionId\":7}")), "");
    assert_eq!(collection_of(&json("[]")), "");
}
