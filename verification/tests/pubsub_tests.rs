use bosbase::pubsub::build_ws_url;
use bosbase::pubsub::decode_message;
use bosbase::pubsub::envelope;
use bosbase::pubsub::message_from_parts;
use bosbase::pubsub::to_socket_scheme;
use bosbase::pubsub::PubSubService;
use bosbase::pubsub::Removal;
use bosbase::pubsub::SocketAction;
use bosbase::pubsub::SocketEvent;
use serde_json::Value;

type Callback = Box<dyn Fn(&str) -> Result<String, String>>;

fn json(text: &str) -> Value {
    serde_json::from_str(text).unwrap()
}

fn tag(name: &'static str) -> Callback {
    Box::new(move |topic: &str| Ok(format!("{}:{}", name, topic)))
}

fn drain(engine: &mut PubSubService<Callback>) -> Vec<String> {
    match engine.socket_loop(SocketEvent::Tick) {
        SocketAction::Transmit(texts) => texts,
        other => panic!("unexpected {:?}", other),
    }
}

fn open(engine: &mut PubSubService<Callback>) {
    assert!(matches!(engine.socket_loop(SocketEvent::Started), SocketAction::Connect));
    match engine.socket_loop(SocketEvent::Opened) {
        SocketAction::Greet(text) => assert_eq!(text, "{\"type\":\"hello\"}"),
        other => panic!("unexpected {:?}", other),
    }
}

#[test]
fn envelopes_exact() {
    assert_eq!(envelope("hello", None, None), "{\"type\":\"hello\"}");
    assert_eq!(envelope("subscribe", Some("chat"), None), "{\"topic\":\"chat\",\"type\":\"subscribe\"}");
    assert_eq!(envelope("unsubscribe", None, None), "{\"type\":\"unsubscribe\"}");
    assert_eq!(
        envelope("publish", Some("a\"b"), Some(json("{\"x\":[1,null]}"))),
        "{\"data\":{\"x\":[1,null]},\"topic\":\"a\\\"b\",\"type\":\"publish\"}"
    );
}

#[test]
fn new_socket_engine_is_idle() {
    let engine: PubSubService<Callback> = PubSubService::new();
    assert!(!engine.is_ready());
    assert!(!engine.is_running());
    assert!(!engine.should_stop());
    assert!(engine.is_idle());
    assert_eq!(engine.queued(), 0);
}

#[test]
fn publish_rejects_empty_topic() {
    let mut engine: PubSubService<Callback> = PubSubService::new();
    let err = engine.publish("", Value::Null).unwrap_err();
    assert_eq!(err.status, 400);
    assert_eq!(err.response, json("{\"message\":\"topic must be set\"}"));
    assert!(!engine.is_running());
    assert_eq!(engine.queued(), 0);
}

#[test]
fn subscribe_rejects_empty_topic_on_socket() {
    let mut engine: PubSubService<Callback> = PubSubService::new();
    let err = engine.subscribe("", tag("a")).unwrap_err();
    assert_eq!(err.status, 400);
    assert!(!err.is_abort);
    assert!(engine.is_idle());
    assert!(!engine.is_running());
}

#[test]
fn publish_queues_envelope_and_starts_task() {
    let mut engine: PubSubService<Callback> = PubSubService::new();
    let out = engine.publish("chat", json("{\"n\":1}")).unwrap();
    assert!(out.start);
    assert_eq!(out.message.id, "");
    assert_eq!(out.message.created, "");
    assert_eq!(out.message.topic, "chat");
    assert_eq!(out.message.data, json("{\"n\":1}"));
    assert!(engine.is_running());
    let second = engine.publish("chat", Value::Null).unwrap();
    assert!(!second.start);
    assert_eq!(
        drain(&mut engine),
        vec![
            "{\"data\":{\"n\":1},\"topic\":\"chat\",\"type\":\"publish\"}".to_string(),
            "{\"data\":null,\"topic\":\"chat\",\"type\":\"publish\"}".to_string(),
        ]
    );
    assert_eq!(engine.queued(), 0);
    assert!(drain(&mut engine).is_empty());
}

#[test]
fn full_queue_drops_the_newest() {
    let mut engine: PubSubService<Callback> = PubSubService::with_queue_limit(2);
    assert!(engine.publish("a", Value::from(1)).unwrap().queued);
    assert!(engine.publish("a", Value::from(2)).unwrap().queued);
    assert!(!engine.publish("a", Value::from(3)).unwrap().queued);
    assert_eq!(engine.queued(), 2);
    assert_eq!(
        drain(&mut engine),
        vec![
            "{\"data\":1,\"topic\":\"a\",\"type\":\"publish\"}".to_string(),
            "{\"data\":2,\"topic\":\"a\",\"type\":\"publish\"}".to_string(),
        ]
    );
    engine.publish("a", Value::from(4)).unwrap();
    assert_eq!(engine.queued(), 1);
    let mut none: PubSubService<Callback> = PubSubService::with_queue_limit(0);
    none.subscribe("t", tag("x")).unwrap();
    assert_eq!(none.queued(), 0);
    let mut roomy: PubSubService<Callback> = PubSubService::new();
    for i in 0..1030 {
        roomy.publish("a", Value::from(i)).unwrap();
    }
    assert_eq!(roomy.queued(), 1024);
}

#[test]
fn first_listener_of_topic_subscribes_on_server() {
    let mut engine: PubSubService<Callback> = PubSubService::new();
    let a = engine.subscribe("chat", tag("a")).unwrap();
    let b = engine.subscribe("chat", tag("b")).unwrap();
    let c = engine.subscribe("news", tag("c")).unwrap();
    assert_eq!((a.listener_id, b.listener_id, c.listener_id), (1, 2, 3));
    assert!(a.start && !b.start && !c.start);
    assert_eq!(engine.listener_count("chat"), 2);
    assert_eq!(
        drain(&mut engine),
        vec![
            "{\"topic\":\"chat\",\"type\":\"subscribe\"}".to_string(),
            "{\"topic\":\"news\",\"type\":\"subscribe\"}".to_string(),
        ]
    );
}

#[test]
fn last_listener_removed_notifies_once() {
    let mut engine: PubSubService<Callback> = PubSubService::new();
    let a = engine.subscribe("chat", tag("c1")).unwrap();
    let b = engine.subscribe("chat", tag("c2")).unwrap();
    engine.subscribe("keep", tag("k")).unwrap();
    open(&mut engine);
    drain(&mut engine);
    let first = engine.unsubscribe_listener("chat", a.listener_id);
    assert_eq!(first, Removal { notified: false, disconnected: false, join: false });
    assert_eq!(engine.listener_count("chat"), 1);
    assert_eq!(engine.queued(), 0);
    let again = engine.unsubscribe_listener("chat", a.listener_id);
    assert_eq!(again, Removal { notified: false, disconnected: false, join: false });
    assert_eq!(engine.listener_count("chat"), 1);
    let second = engine.unsubscribe_listener("chat", b.listener_id);
    assert_eq!(second, Removal { notified: true, disconnected: false, join: false });
    assert_eq!(drain(&mut engine), vec!["{\"topic\":\"chat\",\"type\":\"unsubscribe\"}".to_string()]);
    let third = engine.unsubscribe_listener("chat", b.listener_id);
    assert_eq!(third, Removal { notified: false, disconnected: false, join: false });
    assert_eq!(engine.queued(), 0);
}

#[test]
fn removal_exactly_this_listener() {
    let mut engine: PubSubService<Callback> = PubSubService::new();
    let a = engine.subscribe("chat", tag("c1")).unwrap();
    engine.subscribe("chat", tag("c2")).unwrap();
    engine.unsubscribe_listener("chat", a.listener_id);
    let left: Vec<String> = engine.listeners_for("chat").iter().map(|h| (h.callback)("x").unwrap()).collect();
    assert_eq!(left, vec!["c2:x".to_string()]);
}

#[test]
fn notification_skipped_while_not_ready() {
    let mut engine: PubSubService<Callback> = PubSubService::new();
    let a = engine.subscribe("chat", tag("c1")).unwrap();
    drain(&mut engine);
    let removal = engine.unsubscribe_listener("chat", a.listener_id);
    assert_eq!(removal, Removal { notified: false, disconnected: true, join: true });
    assert_eq!(engine.queued(), 0);
    assert!(engine.should_stop());
    assert!(!engine.is_running());
}

#[test]
fn unsubscribe_topic_and_all_on_socket() {
    let mut engine: PubSubService<Callback> = PubSubService::new();
    engine.subscribe("a", tag("x")).unwrap();
    engine.subscribe("b", tag("y")).unwrap();
    open(&mut engine);
    drain(&mut engine);
    let one = engine.unsubscribe(Some("a".to_string()));
    assert_eq!(one, Removal { notified: true, disconnected: false, join: false });
    let all = engine.unsubscribe(None);
    assert_eq!(all, Removal { notified: true, disconnected: true, join: true });
    assert!(engine.is_idle());
    assert!(!engine.is_ready());
    assert!(engine.should_stop());
    assert_eq!(
        drain(&mut engine),
        vec!["{\"topic\":\"a\",\"type\":\"unsubscribe\"}".to_string(), "{\"type\":\"unsubscribe\"}".to_string()]
    );
    let again = engine.subscribe("c", tag("z")).unwrap();
    assert!(again.start);
    assert!(!engine.should_stop());
    assert_eq!(drain(&mut engine), vec!["{\"topic\":\"c\",\"type\":\"subscribe\"}".to_string()]);
}

#[test]
fn socket_loop_rounds() {
    let mut engine: PubSubService<Callback> = PubSubService::new();
    engine.subscribe("a", tag("x")).unwrap();
    open(&mut engine);
    assert!(engine.is_ready());
    assert!(!drain(&mut engine).is_empty());
    assert!(matches!(engine.socket_loop(SocketEvent::Polled), SocketAction::Pause(10)));
    match engine.socket_loop(SocketEvent::Closed) {
        SocketAction::Wait(ms) => assert_eq!(ms, 300),
        other => panic!("unexpected {:?}", other),
    }
    assert!(!engine.is_ready());
    assert!(engine.is_running());
    assert!(matches!(engine.socket_loop(SocketEvent::Waited), SocketAction::Connect));
    match engine.socket_loop(SocketEvent::Failed) {
        SocketAction::Wait(ms) => assert_eq!(ms, 300),
        other => panic!("unexpected {:?}", other),
    }
    assert!(matches!(engine.socket_loop(SocketEvent::Waited), SocketAction::Connect));
    open(&mut engine);
    assert!(engine.disconnect());
    assert!(!engine.disconnect());
    assert!(matches!(engine.socket_loop(SocketEvent::Polled), SocketAction::Close));
    assert!(matches!(engine.socket_loop(SocketEvent::Closed), SocketAction::Stop));
    assert!(matches!(engine.socket_loop(SocketEvent::Started), SocketAction::Stop));
}

#[test]
fn socket_task_ends_when_nothing_is_registered() {
    let mut engine: PubSubService<Callback> = PubSubService::new();
    engine.publish("t", Value::Null).unwrap();
    assert!(matches!(engine.socket_loop(SocketEvent::Started), SocketAction::Connect));
    assert!(matches!(engine.socket_loop(SocketEvent::Failed), SocketAction::Stop));
    assert!(!engine.is_running());
    assert!(engine.ensure_socket());
    assert_eq!(engine.queued(), 0);
}

#[test]
fn inbound_message_decoding() {
    let msg = decode_message("{\"id\":\"m1\",\"topic\":\"chat\",\"created\":\"2024\",\"data\":{\"x\":1}}");
    assert_eq!((msg.id.as_str(), msg.topic.as_str(), msg.created.as_str()), ("m1", "chat", "2024"));
    assert_eq!(msg.data, json("{\"x\":1}"));
    let bare = decode_message("{\"topic\":5,\"id\":null}");
    assert_eq!((bare.id.as_str(), bare.topic.as_str(), bare.created.as_str()), ("", "", ""));
    assert_eq!(bare.data, Value::Null);
    let broken = decode_message("not json");
    assert_eq!(broken.topic, "");
    assert_eq!(broken.data, Value::Null);
    let array = decode_message("[1,2]");
    assert_eq!(array.topic, "");
    let parts = message_from_parts(None, Some("t".to_string()), None, None);
    assert_eq!((parts.id.as_str(), parts.topic.as_str(), parts.created.as_str()), ("", "t", ""));
    assert_eq!(parts.data, Value::Null);
}

#[test]
fn inbound_message_goes_to_listeners_of_its_topic() {
    let mut engine: PubSubService<Callback> = PubSubService::new();
    engine.subscribe("chat", Box::new(|_: &str| Err("broken".to_string()))).unwrap();
    engine.subscribe("chat", tag("second")).unwrap();
    engine.subscribe("news", tag("other")).unwrap();
    let (msg, listeners) = engine.handle_message("{\"topic\":\"chat\",\"data\":1}");
    let outcomes: Vec<Result<String, String>> = listeners.iter().map(|h| (h.callback)(&msg.topic)).collect();
    assert_eq!(outcomes, vec![Err("broken".to_string()), Ok("second:chat".to_string())]);
    let (_, none) = engine.handle_message("{\"topic\":\"chat?x\"}");
    assert!(none.is_empty());
    let (_, malformed) = engine.handle_message("{{");
    assert!(malformed.is_empty());
}

#[test]
fn socket_scheme_replaces_http_scheme() {
    assert_eq!(to_socket_scheme("https://h/x"), "wss://h/x");
    assert_eq!(to_socket_scheme("http://h/x"), "ws://h/x");
    assert_eq!(to_socket_scheme("h/x"), "ws://h/x");
    assert_eq!(to_socket_scheme("https://"), "wss://");
    assert_eq!(to_socket_scheme("https:/x"), "ws://https:/x");
    assert_eq!(to_socket_scheme("http://a/http://b"), "ws://a/http://b");
}

#[test]
fn socket_url_exact() {
    assert_eq!(build_ws_url("https://example.com", None), "wss://example.com/api/pubsub");
    assert_eq!(build_ws_url("http://example.com/", Some("a b.c")), "ws://example.com/api/pubsub?token=a%20b.c");
    assert_eq!(build_ws_url("/", Some("t")), "ws:///api/pubsub?token=t");
}
