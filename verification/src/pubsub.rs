//! The socket subscription engine.
//!
//! One engine serves any number of topics over a single socket. Outbound
//! messages are JSON envelopes; they wait in a queue that the background
//! task drains. The engine decides, the caller performs: open the socket,
//! write what was drained, read a frame, wait, invoke listeners.

use crate::client::build_url;
use crate::client::with_trailing_slash;
use crate::errors::ClientResponseError;
use crate::errors::is_topic_error;
use crate::errors::topic_error;
use crate::json::as_str;
use crate::json::json_is_null;
use crate::json::json_member;
use crate::json::json_object;
use crate::json::json_parsed;
use crate::json::json_string;
use crate::json::json_text;
use crate::json::member;
use crate::json::new_object;
use crate::json::no_entries;
use crate::json::null_value;
use crate::json::object_insert;
use crate::json::object_value;
use crate::json::parse;
use crate::json::string_member;
use crate::json::string_member_of;
use crate::json::string_value;
use crate::json::text_or_empty;
use crate::json::to_text;
use crate::realtime::payload_from;
use crate::realtime::payload_or_empty;
use crate::registry::ids_distinct;
use crate::registry::ids_within;
use crate::registry::keys_have_listeners;
use crate::registry::lemma_add_keeps_ids;
use crate::registry::lemma_cut_keeps_ids;
use crate::registry::lemma_removals_cut;
use crate::registry::ListenerHandle;
use crate::registry::listeners_of;
use crate::registry::next_id;
use crate::registry::registry_add;
use crate::registry::registry_is_empty;
use crate::registry::registry_remove;
use crate::registry::SubscriptionRegistry;
use crate::text::chars_of;
use crate::text::lemma_leading_count_unique;
use crate::text::starts_with;
use crate::text::string_of;
use crate::text::sub_chars;
use crate::text::trim_leading;
use crate::utils::key_entries;
use crate::utils::normalized_query;
use crate::utils::normalized_values;
use crate::utils::query_entries;
use crate::utils::query_entry;
use crate::utils::query_string;
use crate::utils::query_view;
use crate::utils::relative_url;
use crate::utils::scalar_text;
use serde_json::Value;
use vstd::prelude::*;

verus! {

/// A message delivered on a topic.
#[derive(Debug, Clone)]
pub struct PubSubMessage {
    pub id: String,
    pub topic: String,
    pub created: String,
    pub data: Value,
}

/// What the background task is told.
#[derive(Debug, Clone, Copy)]
pub enum SocketEvent {
    /// The task has started.
    Started,
    /// The socket was opened.
    Opened,
    /// The socket could not be opened.
    Failed,
    /// A round of the exchange begins.
    Tick,
    /// The round's outbound messages are written and one read was tried.
    Polled,
    /// The socket is closed: by a read error, by the peer, or on request.
    Closed,
    /// The delay before the next attempt is over.
    Waited,
}

/// What the background task does next.
#[derive(Debug, Clone)]
pub enum SocketAction {
    /// Open the socket.
    Connect,
    /// Write the greeting and begin the exchange.
    Greet(String),
    /// Write these messages, in order, then try one read.
    Transmit(Vec<String>),
    /// Pause for the given number of milliseconds, then go on with the next
    /// round.
    Pause(u64),
    /// Close the socket.
    Close,
    /// Wait for the given number of milliseconds.
    Wait(u64),
    /// End the task.
    Stop,
}

/// What a successful `subscribe` hands back: the listener's identifier and
/// whether the background task must be started.
#[derive(Debug, Clone)]
pub struct SocketSubscription {
    pub listener_id: u64,
    pub start: bool,
}

/// What a successful `publish` hands back: the message, whether its
/// envelope found room in the queue (it is dropped where it did not), and
/// whether the background task must be started.
#[derive(Debug, Clone)]
pub struct Published {
    pub message: PubSubMessage,
    pub queued: bool,
    pub start: bool,
}

/// What a removal led to: whether the server is notified, whether the
/// engine disconnected, and whether a running task is to be joined.
#[derive(Debug, Clone, Copy, PartialEq, Eq)]
pub struct Removal {
    pub notified: bool,
    pub disconnected: bool,
    pub join: bool,
}

/// The engine as plain values.
pub struct PubSubModel<C> {
    pub subscriptions: Map<Seq<char>, Seq<ListenerHandle<C>>>,
    pub ready: bool,
    pub stop: bool,
    pub running: bool,
    pub outbox: Seq<Seq<char>>,
    pub limit: nat,
    pub counter: u64,
}

/// What holds of the model of every engine: each topic has a listener, the
/// identifiers of the listeners are distinct and were handed out by the
/// counter, a task that runs has not been told to stop, and the queue is
/// within its limit.
pub open spec fn socket_valid<C>(m: PubSubModel<C>) -> bool {
    &&& keys_have_listeners(m.subscriptions)
    &&& ids_within(m.subscriptions, m.counter)
    &&& ids_distinct(m.subscriptions)
    &&& m.running ==> !m.stop
    &&& m.outbox.len() <= m.limit
}

/// The pause between two rounds of the exchange, in milliseconds.
pub const POLL_INTERVAL_MS: u64 = 10;

/// How many messages the queue of a new engine holds at most.
pub const DEFAULT_QUEUE_LIMIT: usize = 1024;

/// The delay between two attempts to open the socket, in milliseconds.
pub const RECONNECT_DELAY_MS: u64 = 300;

/// The entries of an envelope: its type, and its topic and data where given.
pub open spec fn envelope_entries(kind: Seq<char>, topic: Option<Seq<char>>, data: Option<Value>)
    -> Map<Seq<char>, Value> {
    let with_type = no_entries().insert("type"@, json_string(kind));
    let with_topic = match topic {
        Some(t) => with_type.insert("topic"@, json_string(t)),
        None => with_type,
    };
    match data {
        Some(d) => with_topic.insert("data"@, d),
        None => with_topic,
    }
}

/// The JSON text of an envelope.
pub open spec fn envelope_text(kind: Seq<char>, topic: Option<Seq<char>>, data: Option<Value>)
    -> Seq<char> {
    json_text(json_object(envelope_entries(kind, topic, data)))
}

/// The greeting sent on a new socket.
pub open spec fn hello_text() -> Seq<char> {
    envelope_text("hello"@, None, None)
}

/// The envelope that subscribes to a topic.
pub open spec fn subscribe_text(topic: Seq<char>) -> Seq<char> {
    envelope_text("subscribe"@, Some(topic), None)
}

/// The envelope that unsubscribes from a topic, or from all where none is given.
pub open spec fn unsubscribe_text(topic: Option<Seq<char>>) -> Seq<char> {
    envelope_text("unsubscribe"@, topic, None)
}

/// The envelope that publishes data on a topic.
pub open spec fn publish_text(topic: Seq<char>, data: Value) -> Seq<char> {
    envelope_text("publish"@, Some(topic), Some(data))
}

/// Builds the JSON text of an envelope.
pub fn envelope(kind: &str, topic: Option<&str>, data: Option<Value>) -> (r: String)
    ensures
        r@ == envelope_text(
            kind@,
            match topic {
                Some(t) => Some(t@),
                None => None,
            },
            data,
        ),
{
    let mut entries = new_object();
    object_insert(&mut entries, "type".to_owned(), string_value(kind.to_owned()));
    match topic {
        Some(t) => {
            object_insert(&mut entries, "topic".to_owned(), string_value(t.to_owned()));
        },
        None => {},
    }
    match data {
        Some(d) => {
            object_insert(&mut entries, "data".to_owned(), d);
        },
        None => {},
    }
    to_text(&object_value(entries))
}

/// A new engine: nothing registered, no socket, no task, nothing queued.
pub open spec fn socket_new<C>(limit: nat) -> PubSubModel<C> {
    PubSubModel {
        subscriptions: Map::empty(),
        ready: false,
        stop: false,
        running: false,
        outbox: Seq::empty(),
        limit,
        counter: 0,
    }
}

/// The model once the socket is asked for: where there is neither a socket
/// nor a task, a task is started with an empty queue and the stop flag
/// cleared.
pub open spec fn socket_ensure<C>(m: PubSubModel<C>) -> PubSubModel<C> {
    if m.ready || m.running {
        m
    } else {
        PubSubModel { stop: false, running: true, outbox: Seq::empty(), ..m }
    }
}

/// The model after a message is handed to the queue: it stands last in
/// the queue where the queue has room, and is dropped where the queue is
/// full.
pub open spec fn socket_queue<C>(m: PubSubModel<C>, text: Seq<char>) -> PubSubModel<C> {
    if m.outbox.len() < m.limit {
        PubSubModel { outbox: m.outbox.push(text), ..m }
    } else {
        m
    }
}

/// The model after a disconnect: stopped, no socket, no task.
pub open spec fn socket_disconnect<C>(m: PubSubModel<C>) -> PubSubModel<C> {
    PubSubModel { ready: false, stop: true, running: false, ..m }
}

/// The model, disconnected where its registry is empty.
pub open spec fn socket_settle<C>(m: PubSubModel<C>) -> PubSubModel<C> {
    if registry_is_empty(m.subscriptions) {
        socket_disconnect(m)
    } else {
        m
    }
}

/// The model after data is published on a topic.
pub open spec fn socket_publish<C>(m: PubSubModel<C>, topic: Seq<char>, data: Value) -> PubSubModel<
    C,
> {
    socket_queue(socket_ensure(m), publish_text(topic, data))
}

/// The model after a listener is registered for a topic: the first
/// listener of a topic has the subscription queued for the server.
pub open spec fn socket_subscribe<C>(m: PubSubModel<C>, topic: Seq<char>, callback: C)
    -> PubSubModel<C> {
    let registered = socket_ensure(
        PubSubModel {
            subscriptions: registry_add(
                m.subscriptions,
                topic,
                ListenerHandle { id: next_id(m.counter), callback },
            ),
            counter: next_id(m.counter),
            ..m
        },
    );
    if m.subscriptions.contains_key(topic) {
        registered
    } else {
        socket_queue(registered, subscribe_text(topic))
    }
}

/// Whether removing a listener takes the topic out of the registry.
pub open spec fn removes_topic<C>(m: PubSubModel<C>, topic: Seq<char>, id: u64) -> bool {
    m.subscriptions.contains_key(topic) && !registry_remove(
        m.subscriptions,
        topic,
        id,
    ).contains_key(topic)
}

/// The model after one listener is removed from a topic. Where the topic
/// goes with it, the server is notified if the socket is ready, and the
/// engine disconnects if nothing is registered any more.
pub open spec fn socket_remove_listener<C>(m: PubSubModel<C>, topic: Seq<char>, id: u64)
    -> PubSubModel<C> {
    let removed = PubSubModel { subscriptions: registry_remove(m.subscriptions, topic, id), ..m };
    let notified = if removes_topic(m, topic, id) && m.ready {
        socket_queue(removed, unsubscribe_text(Some(topic)))
    } else {
        removed
    };
    socket_settle(notified)
}

/// The model after `unsubscribe`: without the topic, or without any topic
/// where none is given; the server is notified if the socket is ready.
pub open spec fn socket_unsubscribe<C>(m: PubSubModel<C>, topic: Option<Seq<char>>) -> PubSubModel<
    C,
> {
    let removed = PubSubModel {
        subscriptions: match topic {
            Some(t) => m.subscriptions.remove(t),
            None => Map::empty(),
        },
        ..m
    };
    let notified = if m.ready {
        socket_queue(removed, unsubscribe_text(topic))
    } else {
        removed
    };
    socket_settle(notified)
}

/// The model after the background task reports an event.
pub open spec fn socket_supervise<C>(m: PubSubModel<C>, event: SocketEvent) -> PubSubModel<C> {
    match event {
        SocketEvent::Started | SocketEvent::Waited => if m.stop {
            PubSubModel { ready: false, running: false, ..m }
        } else {
            m
        },
        SocketEvent::Opened => PubSubModel { ready: true, ..m },
        SocketEvent::Tick => PubSubModel { outbox: Seq::empty(), ..m },
        SocketEvent::Polled => m,
        SocketEvent::Failed | SocketEvent::Closed => if m.stop || registry_is_empty(
            m.subscriptions,
        ) {
            PubSubModel { ready: false, running: false, ..m }
        } else {
            PubSubModel { ready: false, ..m }
        },
    }
}

/// Whether an action is the one due after an event.
pub open spec fn is_socket_action<C>(m: PubSubModel<C>, event: SocketEvent, action: SocketAction)
    -> bool {
    match event {
        SocketEvent::Started | SocketEvent::Waited => if m.stop {
            action is Stop
        } else {
            action is Connect
        },
        SocketEvent::Opened => action is Greet && action->Greet_0@ == hello_text(),
        SocketEvent::Tick => action is Transmit && action->Transmit_0.deep_view() == m.outbox,
        SocketEvent::Polled => if m.stop {
            action is Close
        } else {
            action == SocketAction::Pause(POLL_INTERVAL_MS)
        },
        SocketEvent::Failed | SocketEvent::Closed => if m.stop || registry_is_empty(
            m.subscriptions,
        ) {
            action is Stop
        } else {
            action == SocketAction::Wait(RECONNECT_DELAY_MS)
        },
    }
}

/// Whether a message is the one that an inbound frame's text stands for:
/// `id`, `topic` and `created` are the frame's string members, empty where
/// absent; `data` is the frame's member of that name, null where absent. A
/// text that is not JSON stands for the empty object.
pub open spec fn is_decoded_message(msg: PubSubMessage, text: Seq<char>) -> bool {
    let frame = payload_or_empty(json_parsed(text));
    &&& msg.id@ == text_or_empty(string_member(frame, "id"@))
    &&& msg.topic@ == text_or_empty(string_member(frame, "topic"@))
    &&& msg.created@ == text_or_empty(string_member(frame, "created"@))
    &&& match json_member(frame, "data"@) {
        Some(d) => msg.data == d,
        None => json_is_null(msg.data),
    }
}

/// The message made of the parts found in an inbound frame: an absent
/// string is empty, absent data is null.
pub fn message_from_parts(
    id: Option<String>,
    topic: Option<String>,
    created: Option<String>,
    data: Option<Value>,
) -> (msg: PubSubMessage)
    ensures
        msg.id@ == text_or_empty(
            match id {
                Some(s) => Some(s@),
                None => None,
            },
        ),
        msg.topic@ == text_or_empty(
            match topic {
                Some(s) => Some(s@),
                None => None,
            },
        ),
        msg.created@ == text_or_empty(
            match created {
                Some(s) => Some(s@),
                None => None,
            },
        ),
        match data {
            Some(d) => msg.data == d,
            None => json_is_null(msg.data),
        },
{
    PubSubMessage {
        id: match id {
            Some(s) => s,
            None => String::new(),
        },
        topic: match topic {
            Some(s) => s,
            None => String::new(),
        },
        created: match created {
            Some(s) => s,
            None => String::new(),
        },
        data: match data {
            Some(d) => d,
            None => null_value(),
        },
    }
}

/// Decodes the text of an inbound frame into a message.
pub fn decode_message(text: &str) -> (msg: PubSubMessage)
    ensures
        is_decoded_message(msg, text@),
{
    let frame = payload_from(parse(text));
    let id = string_member_of(&frame, "id");
    let topic = string_member_of(&frame, "topic");
    let created = string_member_of(&frame, "created");
    let data = match member(&frame, "data") {
        Some(d) => Some(d.clone()),
        None => None,
    };
    message_from_parts(id, topic, created, data)
}

/// The socket scheme in place of the HTTP scheme of a URL: `wss://` for
/// `https://`, `ws://` for `http://`; a URL with neither gets `ws://` in front.
pub open spec fn socket_scheme(url: Seq<char>) -> Seq<char> {
    if "https://"@.is_prefix_of(url) {
        "wss://"@ + url.skip("https://"@.len() as int)
    } else if "http://"@.is_prefix_of(url) {
        "ws://"@ + url.skip("http://"@.len() as int)
    } else {
        "ws://"@ + url
    }
}

/// Puts the socket scheme in place of the HTTP scheme of a URL.
pub fn to_socket_scheme(url: &str) -> (r: String)
    ensures
        r@ == socket_scheme(url@),
{
    let chars = chars_of(url);
    let https = chars_of("https://");
    let http = chars_of("http://");
    if starts_with(&chars, &https) {
        let mut out = "wss://".to_owned();
        out.append(string_of(&sub_chars(&chars, https.len(), chars.len())).as_str());
        out
    } else if starts_with(&chars, &http) {
        let mut out = "ws://".to_owned();
        out.append(string_of(&sub_chars(&chars, http.len(), chars.len())).as_str());
        out
    } else {
        let mut out = "ws://".to_owned();
        out.append(url);
        out
    }
}

/// The URL of the socket written out: the base URL, one `/`, the path of
/// the socket and, where a token is given, the query that carries it; then
/// the socket scheme in place of the HTTP scheme.
pub open spec fn socket_url_text(base: Seq<char>, token: Option<Seq<char>>) -> Seq<char> {
    socket_scheme(
        with_trailing_slash(base) + "api/pubsub"@ + match token {
            Some(t) => seq!['?'] + query_entry("token"@, t),
            None => Seq::empty(),
        },
    )
}

/// Builds the URL of the socket under a base URL. A token, where one is
/// given, goes into the query.
pub fn build_ws_url(base_url: &str, token: Option<&str>) -> (r: String)
    ensures
        r@ == socket_url_text(
            base_url@,
            match token {
                Some(t) => Some(t@),
                None => None,
            },
        ),
{
    let mut query: Vec<(String, Value)> = Vec::new();
    let ghost path = "/api/pubsub"@;
    proof {
        reveal_strlit("/api/pubsub");
        reveal_strlit("api/pubsub");
        assert(path.len() == 11 && path[0] == '/' && path[1] == 'a');
    }
    match token {
        Some(t) => {
            let value = string_value(t.to_owned());
            query.push(("token".to_owned(), value));
            proof {
                let q = query_view(query@);
                assert(q.len() == 1);
                assert(q.last() == ("token"@, value));
                assert(normalized_query(q.drop_last()) =~= Seq::empty());
                assert(scalar_text(value) == t@);
                assert(normalized_values(value) == Some(seq![t@]));
                let nq = normalized_query(q);
                assert(nq =~= seq![("token"@, seq![t@])]);
                assert(query_entries(nq.drop_last()) =~= Seq::empty());
                assert(key_entries("token"@, seq![t@]) =~= seq![query_entry("token"@, t@)]);
                assert(query_entries(nq) =~= seq![query_entry("token"@, t@)]);
                let qs = query_string(nq);
                assert(qs == query_entry("token"@, t@));
                assert(qs.len() > 0);
                let rel = relative_url(path, q);
                assert(rel == path + seq!['?'] + qs);
                lemma_leading_count_unique(rel, '/', 1);
                assert(trim_leading(rel, '/') =~= "api/pubsub"@ + seq!['?'] + qs);
                assert(with_trailing_slash(base_url@) + trim_leading(rel, '/') =~= with_trailing_slash(
                    base_url@,
                ) + "api/pubsub"@ + (seq!['?'] + qs));
            }
        },
        None => {
            proof {
                let q = query_view(query@);
                assert(q.len() == 0);
                let nq = normalized_query(q);
                assert(query_string(nq).len() == 0);
                let rel = relative_url(path, q);
                assert(rel == path);
                lemma_leading_count_unique(rel, '/', 1);
                assert(trim_leading(rel, '/') =~= "api/pubsub"@);
                assert(with_trailing_slash(base_url@) + "api/pubsub"@ + Seq::<char>::empty()
                    =~= with_trailing_slash(base_url@) + "api/pubsub"@);
            }
        },
    }
    let url = build_url(base_url, "/api/pubsub", &query);
    to_socket_scheme(url.as_str())
}

/// The socket engine. `C` is the type of the listeners' callbacks.
pub struct PubSubService<C> {
    subscriptions: SubscriptionRegistry<C>,
    ready: bool,
    stop: bool,
    running: bool,
    outbox: Vec<String>,
    limit: usize,
    counter: u64,
}

impl<C> PubSubService<C> {
    /// Well-formedness: the registry is well-formed, the identifiers of its
    /// listeners are distinct and were handed out by the counter, a task
    /// that runs has not been told to stop, and the queue is within its
    /// limit.
    pub closed spec fn wf(&self) -> bool {
        &&& self.subscriptions.wf()
        &&& ids_within(self.subscriptions@, self.counter)
        &&& ids_distinct(self.subscriptions@)
        &&& self.running ==> !self.stop
        &&& self.outbox@.len() <= self.limit
    }

    /// The model of a well-formed engine is valid: an entry exists only
    /// with a listener, and a listener belongs to one entry only.
    pub proof fn lemma_valid(&self)
        requires
            self.wf(),
        ensures
            socket_valid(self@),
    {
        self.subscriptions.lemma_keys_have_listeners();
    }

    /// Whether another listener can be given an identifier.
    pub fn has_free_id(&self) -> (r: bool)
        ensures
            r == (self@.counter < u64::MAX),
    {
        self.counter < u64::MAX
    }

    /// The engine as plain values.
    pub closed spec fn view(&self) -> PubSubModel<C> {
        PubSubModel {
            subscriptions: self.subscriptions@,
            ready: self.ready,
            stop: self.stop,
            running: self.running,
            outbox: self.outbox.deep_view(),
            limit: self.limit as nat,
            counter: self.counter,
        }
    }

    /// A new engine: nothing registered, no socket, no task, nothing
    /// queued, and room in the queue for `DEFAULT_QUEUE_LIMIT` messages.
    pub fn new() -> (r: Self)
        ensures
            r.wf(),
            r@ == socket_new::<C>(DEFAULT_QUEUE_LIMIT as nat),
    {
        Self::with_queue_limit(DEFAULT_QUEUE_LIMIT)
    }

    /// A new engine whose queue holds at most `limit` messages.
    pub fn with_queue_limit(limit: usize) -> (r: Self)
        ensures
            r.wf(),
            r@ == socket_new::<C>(limit as nat),
    {
        let r = PubSubService {
            subscriptions: SubscriptionRegistry::new(),
            ready: false,
            stop: false,
            running: false,
            outbox: Vec::new(),
            limit,
            counter: 0,
        };
        proof {
            assert(r.subscriptions@ =~= Map::empty());
            assert(r.outbox.deep_view() =~= Seq::empty());
        }
        r
    }

    /// Whether the socket is open.
    pub fn is_ready(&self) -> (r: bool)
        ensures
            r == self@.ready,
    {
        self.ready
    }

    /// Whether the background task is to stop.
    pub fn should_stop(&self) -> (r: bool)
        ensures
            r == self@.stop,
    {
        self.stop
    }

    /// Whether a background task is running.
    pub fn is_running(&self) -> (r: bool)
        ensures
            r == self@.running,
    {
        self.running
    }

    /// Whether no topic is registered.
    pub fn is_idle(&self) -> (r: bool)
        requires
            self.wf(),
        ensures
            r == registry_is_empty(self@.subscriptions),
    {
        self.subscriptions.is_empty()
    }

    /// The number of messages that wait to be written.
    pub fn queued(&self) -> (r: usize)
        ensures
            r == self@.outbox.len(),
    {
        self.outbox.len()
    }

    /// The number of listeners registered for a topic.
    pub fn listener_count(&self, topic: &str) -> (r: usize)
        requires
            self.wf(),
        ensures
            r == listeners_of(self@.subscriptions, topic@).len(),
    {
        self.subscriptions.listener_count(topic)
    }

    /// The listeners of a topic, in order of registration.
    pub fn listeners_for(&self, topic: &str) -> (r: Vec<&ListenerHandle<C>>)
        requires
            self.wf(),
        ensures
            r@.len() == listeners_of(self@.subscriptions, topic@).len(),
            forall|i: int|
                0 <= i < r@.len() ==> *r@[i] == listeners_of(self@.subscriptions, topic@)[i],
    {
        self.subscriptions.listeners_for(topic)
    }

    /// Makes sure a socket is there or on its way. The result tells whether
    /// the caller must start the background task; the queue is then empty
    /// and the stop flag cleared.
    pub fn ensure_socket(&mut self) -> (start: bool)
        requires
            old(self).wf(),
        ensures
            final(self).wf(),
            final(self)@ == socket_ensure(old(self)@),
            start == (!old(self)@.ready && !old(self)@.running),
    {
        if self.ready || self.running {
            false
        } else {
            self.stop = false;
            self.running = true;
            self.outbox = Vec::new();
            proof {
                assert(self.outbox.deep_view() =~= Seq::empty());
            }
            true
        }
    }

    /// Hands a message to the queue. The caller never waits: a message
    /// that finds the queue full is dropped.
    pub fn send_envelope(&mut self, text: String)
        requires
            old(self).wf(),
        ensures
            final(self).wf(),
            final(self)@ == socket_queue(old(self)@, text@),
    {
        if self.outbox.len() < self.limit {
            let ghost before = self.outbox.deep_view();
            self.outbox.push(text);
            proof {
                assert(self.outbox.deep_view() =~= before.push(text@));
            }
        }
    }

    /// Publishes data on a topic: the socket is asked for and the envelope
    /// is handed to the queue. No acknowledgment is waited for. The result
    /// tells whether the envelope is queued or was dropped by a full queue.
    /// An empty topic is refused before anything is touched.
    pub fn publish(&mut self, topic: &str, data: Value) -> (r: Result<Published, ClientResponseError>)
        requires
            old(self).wf(),
        ensures
            final(self).wf(),
            topic@.len() == 0 ==> r is Err && is_topic_error(r->Err_0) && final(self)@ == old(
                self,
            )@,
            topic@.len() > 0 ==> r is Ok && final(self)@ == socket_publish(old(self)@, topic@, data)
                && r->Ok_0.start == (!old(self)@.ready && !old(self)@.running) && r->Ok_0.queued
                == (socket_ensure(old(self)@).outbox.len() < old(self)@.limit)
                && r->Ok_0.message.id@.len() == 0 && r->Ok_0.message.topic@ == topic@
                && r->Ok_0.message.created@.len() == 0 && r->Ok_0.message.data == data,
    {
        if chars_of(topic).len() == 0 {
            return Err(topic_error());
        }
        let start = self.ensure_socket();
        let queued = self.outbox.len() < self.limit;
        self.send_envelope(envelope("publish", Some(topic), Some(data.clone())));
        Ok(
            Published {
                queued,
                message: PubSubMessage {
                    id: String::new(),
                    topic: topic.to_owned(),
                    created: String::new(),
                    data,
                },
                start,
            },
        )
    }

    /// Registers a listener for a topic and asks for the socket. The first
    /// listener of a topic has the subscription queued for the server. An
    /// empty topic is refused before anything is touched.
    pub fn subscribe(&mut self, topic: &str, callback: C) -> (r: Result<SocketSubscription, ClientResponseError>)
        requires
            old(self).wf(),
            old(self)@.counter < u64::MAX,
        ensures
            final(self).wf(),
            topic@.len() == 0 ==> r is Err && is_topic_error(r->Err_0) && final(self)@ == old(
                self,
            )@,
            topic@.len() > 0 ==> r is Ok && final(self)@ == socket_subscribe(
                old(self)@,
                topic@,
                callback,
            ) && r->Ok_0.listener_id == next_id(old(self)@.counter) && r->Ok_0.start == (!old(
                self,
            )@.ready && !old(self)@.running),
    {
        if chars_of(topic).len() == 0 {
            return Err(topic_error());
        }
        let first = !self.subscriptions.contains_key(topic);
        let id: u64 = self.counter + 1;
        proof {
            lemma_add_keeps_ids(
                self.subscriptions@,
                topic@,
                ListenerHandle { id, callback },
                self.counter,
            );
        }
        self.counter = id;
        self.subscriptions.add(topic, ListenerHandle { id, callback });
        let start = self.ensure_socket();
        if first {
            self.send_envelope(envelope("subscribe", Some(topic), None));
        }
        Ok(SocketSubscription { listener_id: id, start })
    }

    /// Stops the engine: the stop flag is set, the socket counts as closed
    /// and no task is left. The result tells whether a task was running and
    /// is to be joined. A second call changes nothing.
    pub fn disconnect(&mut self) -> (join: bool)
        requires
            old(self).wf(),
        ensures
            final(self).wf(),
            final(self)@ == socket_disconnect(old(self)@),
            join == old(self)@.running,
    {
        let join = self.running;
        self.stop = true;
        self.running = false;
        self.ready = false;
        join
    }

    fn settle(&mut self, notified: bool) -> (r: Removal)
        requires
            old(self).wf(),
        ensures
            final(self).wf(),
            final(self)@ == socket_settle(old(self)@),
            r.notified == notified,
            r.disconnected == registry_is_empty(old(self)@.subscriptions),
            r.join == (r.disconnected && old(self)@.running),
    {
        if self.subscriptions.is_empty() {
            let join = self.disconnect();
            Removal { notified, disconnected: true, join }
        } else {
            Removal { notified, disconnected: false, join: false }
        }
    }

    /// Removes one listener from a topic. Where the topic goes with it, the
    /// server is notified if the socket is ready, and the engine
    /// disconnects if nothing is registered any more.
    pub fn unsubscribe_listener(&mut self, topic: &str, id: u64) -> (r: Removal)
        requires
            old(self).wf(),
        ensures
            final(self).wf(),
            final(self)@ == socket_remove_listener(old(self)@, topic@, id),
            r.notified == (removes_topic(old(self)@, topic@, id) && old(self)@.ready),
            r.disconnected == registry_is_empty(final(self)@.subscriptions),
            r.join == (r.disconnected && old(self)@.running),
    {
        let changed = self.subscriptions.remove(topic, id);
        proof {
            lemma_removals_cut(old(self).subscriptions@, topic@, id);
            lemma_cut_keeps_ids(self.subscriptions@, old(self).subscriptions@, self.counter);
        }
        let notified = changed && self.ready;
        if notified {
            self.send_envelope(envelope("unsubscribe", Some(topic), None));
        }
        self.settle(notified)
    }

    /// Removes a topic with all its listeners, or every topic where none is
    /// given. The server is notified if the socket is ready; the engine
    /// disconnects if nothing is registered any more.
    pub fn unsubscribe(&mut self, topic: Option<String>) -> (r: Removal)
        requires
            old(self).wf(),
        ensures
            final(self).wf(),
            final(self)@ == socket_unsubscribe(
                old(self)@,
                match topic {
                    Some(t) => Some(t@),
                    None => None,
                },
            ),
            r.notified == old(self)@.ready,
            r.disconnected == registry_is_empty(final(self)@.subscriptions),
            r.join == (r.disconnected && old(self)@.running),
    {
        let notified = self.ready;
        match topic {
            Some(t) => {
                self.subscriptions.remove_key(t.as_str());
                proof {
                    lemma_removals_cut(old(self).subscriptions@, t@, 0);
                    lemma_cut_keeps_ids(
                        self.subscriptions@,
                        old(self).subscriptions@,
                        self.counter,
                    );
                }
                if notified {
                    self.send_envelope(envelope("unsubscribe", Some(t.as_str()), None));
                }
            },
            None => {
                self.subscriptions.remove_all();
                proof {
                    assert(self.subscriptions@ =~= Map::empty());
                    lemma_removals_cut(old(self).subscriptions@, Seq::empty(), 0);
                    lemma_cut_keeps_ids(
                        self.subscriptions@,
                        old(self).subscriptions@,
                        self.counter,
                    );
                }
                if notified {
                    self.send_envelope(envelope("unsubscribe", None, None));
                }
            },
        }
        self.settle(notified)
    }

    /// Takes in the text of an inbound frame: the message it stands for and
    /// the listeners of the message's topic, in order of registration.
    pub fn handle_message(&self, text: &str) -> (r: (PubSubMessage, Vec<&ListenerHandle<C>>))
        requires
            self.wf(),
        ensures
            is_decoded_message(r.0, text@),
            r.1@.len() == listeners_of(self@.subscriptions, r.0.topic@).len(),
            forall|i: int|
                0 <= i < r.1@.len() ==> *r.1@[i] == listeners_of(
                    self@.subscriptions,
                    r.0.topic@,
                )[i],
    {
        let msg = decode_message(text);
        let listeners = self.subscriptions.listeners_for(msg.topic.as_str());
        (msg, listeners)
    }

    /// Decides what the background task does after an event. A task that
    /// starts, or has waited, connects unless it is to stop. An opened
    /// socket is ready at once and gets the greeting. Each round hands out
    /// the queue to be written; after the read the task closes the socket
    /// if it is to stop, and otherwise pauses for a moment before the next
    /// round. A failed or closed socket is not ready; the task
    /// then ends if it is to stop or nothing is registered, and otherwise
    /// waits for the fixed delay.
    pub fn socket_loop(&mut self, event: SocketEvent) -> (action: SocketAction)
        requires
            old(self).wf(),
        ensures
            final(self).wf(),
            final(self)@ == socket_supervise(old(self)@, event),
            is_socket_action(old(self)@, event, action),
    {
        match event {
            SocketEvent::Started | SocketEvent::Waited => {
                if self.stop {
                    self.ready = false;
                    self.running = false;
                    SocketAction::Stop
                } else {
                    SocketAction::Connect
                }
            },
            SocketEvent::Opened => {
                self.ready = true;
                SocketAction::Greet(envelope("hello", None, None))
            },
            SocketEvent::Tick => {
                let mut drained: Vec<String> = Vec::new();
                core::mem::swap(&mut self.outbox, &mut drained);
                proof {
                    assert(self.outbox.deep_view() =~= Seq::empty());
                }
                SocketAction::Transmit(drained)
            },
            SocketEvent::Polled => {
                if self.stop {
                    SocketAction::Close
                } else {
                    SocketAction::Pause(POLL_INTERVAL_MS)
                }
            },
            SocketEvent::Failed | SocketEvent::Closed => {
                self.ready = false;
                if self.stop || self.subscriptions.is_empty() {
                    self.running = false;
                    SocketAction::Stop
                } else {
                    SocketAction::Wait(RECONNECT_DELAY_MS)
                }
            },
        }
    }
}


/// Two subscriptions to a topic that had no listener, on a ready socket
/// whose queue has room, make one entry with two listeners. Removing the first listener leaves
/// the entry with the second and queues nothing for the server. Removing
/// the second deletes the entry and queues exactly one message: the
/// unsubscription from the topic.
pub proof fn lemma_last_listener_notifies<C>(
    m: PubSubModel<C>,
    topic: Seq<char>,
    first: C,
    second: C,
)
    requires
        m.ready,
        m.counter + 2 <= u64::MAX,
        m.outbox.len() + 2 <= m.limit,
        !m.subscriptions.contains_key(topic),
    ensures
        ({
            let one = socket_subscribe(m, topic, first);
            let two = socket_subscribe(one, topic, second);
            let first_id = next_id(m.counter);
            let second_id = next_id(first_id);
            let less = socket_remove_listener(two, topic, first_id);
            let none = socket_remove_listener(less, topic, second_id);
            &&& two.subscriptions.dom() =~= m.subscriptions.dom().insert(topic)
            &&& two.subscriptions[topic] == seq![
                ListenerHandle { id: first_id, callback: first },
                ListenerHandle { id: second_id, callback: second },
            ]
            &&& two.outbox == m.outbox.push(subscribe_text(topic))
            &&& less.subscriptions[topic] == seq![
                ListenerHandle { id: second_id, callback: second },
            ]
            &&& less.outbox == two.outbox
            &&& !none.subscriptions.contains_key(topic)
            &&& none.outbox == less.outbox.push(unsubscribe_text(Some(topic)))
        }),
{
    let first_id = next_id(m.counter);
    let second_id = next_id(first_id);
    let h1 = ListenerHandle { id: first_id, callback: first };
    let h2 = ListenerHandle { id: second_id, callback: second };
    crate::registry::lemma_two_listeners(m.subscriptions, topic, h1, h2);
    crate::registry::lemma_without_id_pair(h1, h2);
    let one = socket_subscribe(m, topic, first);
    let two = socket_subscribe(one, topic, second);
    assert(one.subscriptions.contains_key(topic));
    let less = socket_remove_listener(two, topic, first_id);
    assert(two.subscriptions.contains_key(topic));
    assert(less.subscriptions.contains_key(topic));
    assert(!registry_is_empty(less.subscriptions));
    let none = socket_remove_listener(less, topic, second_id);
}

/// Removing a listener is idempotent: a second removal of the same
/// listener from the same topic changes nothing and queues nothing.
pub proof fn lemma_socket_remove_idempotent<C>(m: PubSubModel<C>, topic: Seq<char>, id: u64)
    ensures
        socket_remove_listener(socket_remove_listener(m, topic, id), topic, id)
            == socket_remove_listener(m, topic, id),
{
    crate::registry::lemma_remove_twice(m.subscriptions, topic, id);
}

/// While the socket is not ready, removing the last listener of a topic
/// queues nothing.
pub proof fn lemma_not_ready_skips_notification<C>(m: PubSubModel<C>, topic: Seq<char>, id: u64)
    requires
        !m.ready,
    ensures
        socket_remove_listener(m, topic, id).outbox == m.outbox,
{
}

/// `unsubscribe` without a topic clears every topic and stops the
/// background task; a `subscribe` after it starts a task again.
pub proof fn lemma_socket_unsubscribe_all<C>(m: PubSubModel<C>, topic: Seq<char>, callback: C)
    requires
        m.limit > 0,
    ensures
        ({
            let cleared = socket_unsubscribe(m, None);
            let again = socket_subscribe(cleared, topic, callback);
            &&& registry_is_empty(cleared.subscriptions)
            &&& cleared.stop
            &&& !cleared.running
            &&& !cleared.ready
            &&& again.running
            &&& !again.stop
            &&& again.outbox == seq![subscribe_text(topic)]
        }),
{
    let cleared = socket_unsubscribe(m, None);
    assert(registry_is_empty(Map::<Seq<char>, Seq<ListenerHandle<C>>>::empty()));
    let again = socket_subscribe(cleared, topic, callback);
    assert(again.outbox =~= seq![subscribe_text(topic)]);
}

} // verus!
