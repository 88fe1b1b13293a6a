use bosbase::registry::ListenerHandle;
use bosbase::registry::SubscriptionRegistry;

fn handle(id: u64, tag: &'static str) -> ListenerHandle<&'static str> {
    ListenerHandle { id, callback: tag }
}

fn tags(reg: &SubscriptionRegistry<&'static str>, key: &str) -> Vec<&'static str> {
    reg.listeners_for(key).iter().map(|h| h.callback).collect()
}

fn sorted_keys(reg: &SubscriptionRegistry<&'static str>) -> Vec<String> {
    let mut keys = reg.keys();
    keys.sort();
    keys
}

#[test]
fn new_registry_is_empty() {
    let reg: SubscriptionRegistry<&'static str> = SubscriptionRegistry::new();
    assert!(reg.is_empty());
    assert!(reg.keys().is_empty());
    assert!(!reg.contains_key("a"));
    assert_eq!(reg.listener_count("a"), 0);
    assert!(reg.listeners_for("a").is_empty());
}

#[test]
fn add_keeps_order_of_registration() {
    let mut reg = SubscriptionRegistry::new();
    reg.add("a", handle(1, "one"));
    reg.add("b", handle(2, "two"));
    reg.add("a", handle(3, "three"));
    assert!(!reg.is_empty());
    assert_eq!(sorted_keys(&reg), vec!["a".to_string(), "b".to_string()]);
    assert_eq!(tags(&reg, "a"), vec!["one", "three"]);
    assert_eq!(tags(&reg, "b"), vec!["two"]);
    assert_eq!(reg.listener_count("a"), 2);
    let ids: Vec<u64> = reg.listeners_for("a").iter().map(|h| h.id).collect();
    assert_eq!(ids, vec![1, 3]);
}

#[test]
fn two_listeners_one_entry_then_removed_one_by_one() {
    let mut reg = SubscriptionRegistry::new();
    reg.add("t?options=x", handle(1, "c1"));
    reg.add("t?options=x", handle(2, "c2"));
    assert_eq!(reg.keys().len(), 1);
    assert_eq!(reg.listener_count("t?options=x"), 2);
    assert!(!reg.remove("t?options=x", 1));
    assert_eq!(tags(&reg, "t?options=x"), vec!["c2"]);
    assert!(reg.contains_key("t?options=x"));
    assert!(reg.remove("t?options=x", 2));
    assert!(!reg.contains_key("t?options=x"));
    assert!(reg.is_empty());
}

#[test]
fn remove_is_idempotent_and_exact() {
    let mut reg = SubscriptionRegistry::new();
    reg.add("a", handle(1, "one"));
    reg.add("a", handle(2, "two"));
    reg.add("b", handle(3, "three"));
    assert!(!reg.remove("a", 9));
    assert!(!reg.remove("missing", 1));
    assert!(!reg.remove("b", 1));
    assert_eq!(tags(&reg, "a"), vec!["one", "two"]);
    assert!(!reg.remove("a", 2));
    assert!(!reg.remove("a", 2));
    assert_eq!(tags(&reg, "a"), vec!["one"]);
    assert_eq!(tags(&reg, "b"), vec!["three"]);
}

#[test]
fn remove_key_drops_all_listeners() {
    let mut reg = SubscriptionRegistry::new();
    reg.add("a", handle(1, "one"));
    reg.add("a", handle(2, "two"));
    reg.add("b", handle(3, "three"));
    assert!(reg.remove_key("a"));
    assert!(!reg.remove_key("a"));
    assert_eq!(sorted_keys(&reg), vec!["b".to_string()]);
}

#[test]
fn remove_by_topic_prefix_matches_beginnings() {
    let mut reg = SubscriptionRegistry::new();
    reg.add("posts", handle(1, "a"));
    reg.add("posts/1", handle(2, "b"));
    reg.add("posts?options=x", handle(3, "c"));
    reg.add("users", handle(4, "d"));
    reg.add("pos", handle(5, "e"));
    assert!(reg.remove_by_topic_prefix("posts"));
    assert_eq!(sorted_keys(&reg), vec!["pos".to_string(), "users".to_string()]);
    assert!(!reg.remove_by_topic_prefix("posts"));
    assert!(reg.remove_by_topic_prefix(""));
    assert!(reg.is_empty());
}

#[test]
fn remove_topic_matches_topic_and_its_options() {
    let mut reg = SubscriptionRegistry::new();
    reg.add("posts", handle(1, "a"));
    reg.add("posts/1", handle(2, "b"));
    reg.add("posts?options=x", handle(3, "c"));
    reg.add("postsx", handle(4, "d"));
    assert!(reg.remove_topic("posts"));
    assert_eq!(sorted_keys(&reg), vec!["posts/1".to_string(), "postsx".to_string()]);
    assert!(!reg.remove_topic("posts"));
}

#[test]
fn topic_with_question_mark_owns_its_ampersand_keys() {
    let mut reg = SubscriptionRegistry::new();
    reg.add("a?b", handle(1, "plain"));
    reg.add("a?b&options=x", handle(2, "opts"));
    reg.add("a?b&other=x", handle(3, "other"));
    reg.add("a&options=x", handle(4, "literal"));
    reg.add("a", handle(5, "short"));
    assert!(reg.remove_from_topic("a?b", 2));
    assert_eq!(sorted_keys(&reg), vec!["a".to_string(), "a&options=x".to_string(), "a?b".to_string(), "a?b&other=x".to_string()]);
    assert!(reg.remove_topic("a?b"));
    assert_eq!(sorted_keys(&reg), vec!["a".to_string(), "a&options=x".to_string(), "a?b&other=x".to_string()]);
    assert!(reg.remove_topic("a"));
    assert_eq!(sorted_keys(&reg), vec!["a&options=x".to_string()]);
}

#[test]
fn remove_from_topic_takes_one_listener_from_each_key() {
    let mut reg = SubscriptionRegistry::new();
    reg.add("t", handle(1, "a"));
    reg.add("t", handle(2, "b"));
    reg.add("t?options=x", handle(3, "c"));
    reg.add("u", handle(3, "d"));
    assert!(!reg.remove_from_topic("t", 1));
    assert_eq!(tags(&reg, "t"), vec!["b"]);
    assert!(reg.remove_from_topic("t", 3));
    assert_eq!(sorted_keys(&reg), vec!["t".to_string(), "u".to_string()]);
    assert_eq!(tags(&reg, "u"), vec!["d"]);
}

#[test]
fn remove_all_clears() {
    let mut reg = SubscriptionRegistry::new();
    reg.add("a", handle(1, "one"));
    reg.add("b", handle(2, "two"));
    reg.remove_all();
    assert!(reg.is_empty());
    reg.add("a", handle(3, "three"));
    assert_eq!(tags(&reg, "a"), vec!["three"]);
}

#[test]
fn listeners_are_found_by_exact_key_only() {
    let mut reg = SubscriptionRegistry::new();
    reg.add("t?options=x", handle(1, "a"));
    assert!(reg.listeners_for("t").is_empty());
    assert!(reg.listeners_for("t?options=").is_empty());
    assert_eq!(tags(&reg, "t?options=x"), vec!["a"]);
}
