//! The push-stream subscription engine.
//!
//! One engine serves any number of subscriptions over a single stream. It
//! keeps the registry of listeners, the state of the connection and the
//! flags of the background task, and decides what happens next: the caller
//! performs what the engine hands back (open the stream, read a line, wait,
//! send a request, invoke listeners) and reports the outcome.

use crate::client::build_url;
use crate::client::full_url;
use crate::errors::ClientResponseError;
use crate::errors::is_timeout_error;
use crate::errors::is_topic_error;
use crate::errors::message_value;
use crate::errors::topic_error;
use crate::frame::Event;
use crate::frame::EventView;
use crate::frame::FrameParser;
use crate::frame::parser_step;
use crate::json::array_value;
use crate::json::as_str;
use crate::json::json_array;
use crate::json::json_as_str;
use crate::json::json_member;
use crate::json::json_object;
use crate::json::json_parsed;
use crate::json::json_string;
use crate::json::member;
use crate::json::new_object;
use crate::json::no_entries;
use crate::json::object_insert;
use crate::json::object_value;
use crate::json::parse;
use crate::json::string_value;
use crate::key::build_subscription_key;
use crate::key::key_with_options;
use crate::key::pairs_map;
use crate::key::subscription_key;
use crate::registry::ids_distinct;
use crate::registry::ids_within;
use crate::registry::key_of_topic;
use crate::registry::keys_have_listeners;
use crate::registry::lemma_add_keeps_ids;
use crate::registry::lemma_cut_keeps_ids;
use crate::registry::lemma_removals_cut;
use crate::registry::lemma_without_absent_id;
use crate::registry::ListenerHandle;
use crate::registry::listeners_of;
use crate::registry::loses_key;
use crate::registry::next_id;
use crate::registry::registry_add;
use crate::registry::registry_is_empty;
use crate::registry::registry_remove_from_topic;
use crate::registry::registry_without_prefix;
use crate::registry::registry_without_topic;
use crate::registry::SubscriptionRegistry;
use crate::registry::without_id;
use crate::request::SendOptions;
use crate::text::all_whitespace;
use crate::text::chars_of;
use crate::text::is_blank;
use crate::text::string_of;
use crate::text::strip_newlines;
use crate::text::trim_newlines;
use crate::utils::query_view;
use serde_json::Value;
use vstd::prelude::*;

verus! {

/// How long `subscribe` waits for the connection, in milliseconds.
pub const SUBSCRIBE_TIMEOUT_MS: u64 = 10000;

/// The state of the connection.
#[derive(Debug, Clone)]
pub enum ConnectionState {
    Disconnected,
    Connecting,
    Connected(String),
}

/// The state of the connection, the session identifier as characters.
pub enum ConnectionModel {
    Disconnected,
    Connecting,
    Connected(Seq<char>),
}

impl View for ConnectionState {
    type V = ConnectionModel;

    open spec fn view(&self) -> ConnectionModel {
        match self {
            ConnectionState::Disconnected => ConnectionModel::Disconnected,
            ConnectionState::Connecting => ConnectionModel::Connecting,
            ConnectionState::Connected(id) => ConnectionModel::Connected(id@),
        }
    }
}

/// The session identifier of a state: empty unless connected.
pub open spec fn session_of(state: ConnectionModel) -> Seq<char> {
    match state {
        ConnectionModel::Connected(id) => id,
        _ => Seq::empty(),
    }
}

/// What the background task is told.
#[derive(Debug, Clone, Copy)]
pub enum LoopEvent {
    /// The task has started.
    Started,
    /// The stream was opened.
    Opened,
    /// The stream could not be opened.
    Failed,
    /// The open stream ended: a read error or the end of the stream.
    Closed,
    /// The delay before the next attempt is over.
    Waited,
}

/// What the background task does next.
#[derive(Debug, Clone, Copy, PartialEq, Eq)]
pub enum LoopAction {
    /// Open the stream.
    Connect,
    /// Read the open stream line by line.
    Listen,
    /// Wait for the given number of milliseconds.
    Wait(u64),
    /// End the task.
    Stop,
}

/// The request that replays the subscriptions of a session: the session
/// identifier and every key of the registry.
#[derive(Debug, Clone)]
pub struct ResubscribeRequest {
    pub client_id: String,
    pub subscriptions: Vec<String>,
}

/// The keys of a request as JSON strings, in order.
pub open spec fn key_values(keys: Seq<Seq<char>>) -> Seq<Value> {
    Seq::new(keys.len(), |i: int| json_string(keys[i]))
}

/// The entries of the body of a resubscription: the session under
/// `clientId`, the keys as an array under `subscriptions`.
pub open spec fn resubscribe_entries(client_id: Seq<char>, keys: Seq<Seq<char>>) -> Map<
    Seq<char>,
    Value,
> {
    no_entries().insert("clientId"@, json_string(client_id)).insert(
        "subscriptions"@,
        json_array(key_values(keys)),
    )
}

/// The path that resubscriptions are posted to, and that the stream is read from.
pub const REALTIME_PATH: &'static str = "/api/realtime";


impl ResubscribeRequest {
    /// The JSON body of the request.
    pub fn body(&self) -> (r: Value)
        ensures
            r == json_object(resubscribe_entries(self.client_id@, self.subscriptions.deep_view())),
    {
        let mut keys: Vec<Value> = Vec::new();
        let mut i: usize = 0;
        while i < self.subscriptions.len()
            invariant
                i <= self.subscriptions.len(),
                keys@ == key_values(self.subscriptions.deep_view().take(i as int)),
            decreases self.subscriptions.len() - i,
        {
            keys.push(string_value(self.subscriptions[i].clone()));
            proof {
                assert(keys@ =~= key_values(self.subscriptions.deep_view().take(i as int + 1)));
            }
            i += 1;
        }
        proof {
            assert(self.subscriptions.deep_view().take(self.subscriptions.len() as int)
                =~= self.subscriptions.deep_view());
        }
        let mut body = new_object();
        object_insert(&mut body, "clientId".to_owned(), string_value(self.client_id.clone()));
        object_insert(&mut body, "subscriptions".to_owned(), array_value(keys));
        object_value(body)
    }

    /// The request as options for the sender: a `POST` with the JSON body
    /// and nothing else. It goes to the path of the stream.
    pub fn to_send_options(&self) -> (r: SendOptions)
        ensures
            r.method@ == "POST"@,
            r.body == json_object(
                resubscribe_entries(self.client_id@, self.subscriptions.deep_view()),
            ),
            r.headers@.len() == 0,
            r.query@.len() == 0,
            r.files@.len() == 0,
            r.timeout is None,
    {
        SendOptions {
            method: "POST".to_owned(),
            headers: Vec::new(),
            query: Vec::new(),
            body: self.body(),
            files: Vec::new(),
            timeout: None,
        }
    }
}

/// The request that opens the stream: its URL and its headers.
#[derive(Debug, Clone)]
pub struct StreamRequest {
    pub url: String,
    pub headers: Vec<(String, String)>,
}

/// The headers of the request that opens the stream: the stream's content
/// type is asked for, caching is refused, language and client are named,
/// and the token is attached where one is given.
pub open spec fn stream_headers(lang: Seq<char>, agent: Seq<char>, token: Option<Seq<char>>) -> Seq<
    (Seq<char>, Seq<char>),
> {
    let fixed = seq![
        ("Accept"@, "text/event-stream"@),
        ("Cache-Control"@, "no-store"@),
        ("Accept-Language"@, lang),
        ("User-Agent"@, agent),
    ];
    match token {
        Some(t) => fixed.push(("Authorization"@, t)),
        None => fixed,
    }
}

/// Builds the request that opens the stream under a base URL. The token is
/// to be given where the identity provider reports a valid one.
pub fn stream_request(base_url: &str, lang: &str, agent: &str, token: Option<&str>) -> (r: StreamRequest)
    ensures
        r.url@ == full_url(base_url@, REALTIME_PATH@, Seq::empty()),
        r.headers.deep_view() == stream_headers(
            lang@,
            agent@,
            match token {
                Some(t) => Some(t@),
                None => None,
            },
        ),
{
    let query: Vec<(String, Value)> = Vec::new();
    proof {
        assert(query_view(query@) =~= Seq::empty());
    }
    let url = build_url(base_url, REALTIME_PATH, &query);
    let mut headers: Vec<(String, String)> = Vec::new();
    headers.push(("Accept".to_owned(), "text/event-stream".to_owned()));
    headers.push(("Cache-Control".to_owned(), "no-store".to_owned()));
    headers.push(("Accept-Language".to_owned(), lang.to_owned()));
    headers.push(("User-Agent".to_owned(), agent.to_owned()));
    match token {
        Some(t) => {
            headers.push(("Authorization".to_owned(), t.to_owned()));
        },
        None => {},
    }
    proof {
        assert(headers.deep_view() =~= stream_headers(
            lang@,
            agent@,
            match token {
                Some(t) => Some(t@),
                None => None,
            },
        ));
    }
    StreamRequest { url, headers }
}

/// The topic of a collection's records: the collection, `/`, the topic.
pub open spec fn collection_topic(collection: Seq<char>, topic: Seq<char>) -> Seq<char> {
    collection + seq!['/'] + topic
}

/// Builds the topic under which the records of a collection are
/// subscribed to. An empty topic is refused.
pub fn record_topic(collection: &str, topic: &str) -> (r: Result<String, ClientResponseError>)
    ensures
        topic@.len() == 0 ==> r is Err && is_topic_error(r->Err_0),
        topic@.len() > 0 ==> r is Ok && r->Ok_0@ == collection_topic(collection@, topic@),
{
    if chars_of(topic).len() == 0 {
        return Err(topic_error());
    }
    let mut full = collection.to_owned();
    proof {
        reveal_strlit("/");
        assert("/"@ =~= seq!['/']);
    }
    full.append("/");
    full.append(topic);
    Ok(full)
}

/// What a successful `subscribe` hands back: the listener's identifier, the
/// key it is registered under, and whether the background task must be
/// started.
#[derive(Debug, Clone)]
pub struct Subscription {
    pub listener_id: u64,
    pub key: String,
    pub start: bool,
}

/// What is left to do after listeners were removed.
#[derive(Debug, Clone)]
pub enum Followup {
    /// Nothing changed.
    Nothing,
    /// The registry is empty and the engine has disconnected. `join` tells
    /// whether a background task was running and is to be joined. `notice`
    /// is the request that tells the server that the keys are gone: it is
    /// there where a key went and a session existed, and holds that session
    /// and no key. It is to be sent before the task is joined.
    Disconnected { join: bool, notice: Option<ResubscribeRequest> },
    /// Keys remain: the request to send, if the session allows one.
    Resubmit(Option<ResubscribeRequest>),
}

/// One step of waiting for the connection.
#[derive(Debug, Clone)]
pub enum WaitStep {
    /// The connection is established.
    Ready,
    /// Keep waiting, for at most the given number of milliseconds.
    Wait(u64),
    /// The time is up.
    TimedOut(ClientResponseError),
}

/// What a completed frame asks for.
#[derive(Debug, Clone)]
pub enum Dispatch {
    /// The frame was the handshake: the request to send, if there is one.
    Handshake(Option<ResubscribeRequest>),
    /// The frame is an event: the listeners of `topic` receive `payload`.
    Deliver { topic: String, payload: Value },
}

/// What reading one line of the stream leads to.
#[derive(Debug, Clone)]
pub enum ListenStep {
    /// The engine was told to stop: leave the stream.
    Halt,
    /// The line completed no frame.
    Idle,
    /// The line completed a frame.
    Frame(Dispatch),
}

/// The engine as plain values.
pub struct RealtimeModel<C> {
    pub state: ConnectionModel,
    pub subscriptions: Map<Seq<char>, Seq<ListenerHandle<C>>>,
    pub stop: bool,
    pub running: bool,
    pub counter: u64,
    pub failures: nat,
}

/// The delay in milliseconds after the given number of consecutive failures.
pub open spec fn backoff_ms(failures: nat) -> u64 {
    if failures == 0 {
        200
    } else if failures == 1 {
        500
    } else if failures == 2 {
        1000
    } else if failures == 3 {
        2000
    } else {
        5000
    }
}

/// The failure count after one more failure. Counts beyond the schedule are
/// not told apart.
pub open spec fn next_failures(failures: nat) -> nat {
    if failures < 4 {
        failures + 1
    } else {
        4
    }
}

/// What holds of the model of every engine: each key has a listener, the
/// identifiers of the listeners are distinct and were handed out by the
/// counter, the failure count stays within the schedule, and a task that
/// runs has not been told to stop.
pub open spec fn model_valid<C>(m: RealtimeModel<C>) -> bool {
    &&& keys_have_listeners(m.subscriptions)
    &&& ids_within(m.subscriptions, m.counter)
    &&& ids_distinct(m.subscriptions)
    &&& m.failures <= 4
    &&& m.running ==> !m.stop
}

/// The name of the frame that announces a new session.
pub open spec fn handshake_name() -> Seq<char> {
    "PB_CONNECT"@
}

/// The name under which a frame is dispatched: `message` where it has none.
pub open spec fn frame_name(frame: EventView) -> Seq<char> {
    if frame.event.len() == 0 {
        "message"@
    } else {
        frame.event
    }
}

/// The JSON object without entries.
pub open spec fn empty_payload() -> Value {
    json_object(no_entries())
}

/// The text of a frame's data that is handed to the JSON parser, where the
/// data is not blank: the data without its trailing line feeds.
pub open spec fn payload_source(data: Seq<char>) -> Option<Seq<char>> {
    if is_blank(data) {
        None
    } else {
        Some(trim_newlines(data))
    }
}

/// The payload for a parser's answer: the value parsed, or the empty object.
pub open spec fn payload_or_empty(parsed: Option<Value>) -> Value {
    match parsed {
        Some(v) => v,
        None => empty_payload(),
    }
}

/// The payload of a frame's data.
pub open spec fn decoded_payload(data: Seq<char>) -> Value {
    match payload_source(data) {
        Some(text) => payload_or_empty(json_parsed(text)),
        None => empty_payload(),
    }
}

/// The session identifier that a handshake payload announces.
pub open spec fn announced_session(payload: Value) -> Option<Seq<char>> {
    match json_member(payload, "clientId"@) {
        Some(v) => json_as_str(v),
        None => None,
    }
}

/// The session identifier of a handshake: the one the payload announces,
/// else the frame's own identifier where it has one.
pub open spec fn chosen_session(announced: Option<Seq<char>>, frame_id: Seq<char>) -> Option<
    Seq<char>,
> {
    match announced {
        Some(id) => Some(id),
        None => if frame_id.len() == 0 {
            None
        } else {
            Some(frame_id)
        },
    }
}

/// The resubscription that a model calls for: the session identifier and
/// all keys, where there is a session and a key.
pub open spec fn resubscription<C>(m: RealtimeModel<C>) -> Option<(Seq<char>, Set<Seq<char>>)> {
    if session_of(m.state).len() > 0 && !registry_is_empty(m.subscriptions) {
        Some((session_of(m.state), m.subscriptions.dom()))
    } else {
        None
    }
}

/// What the server is told after keys were removed: where a key went and
/// a session existed, that session and the keys that remain, be there any
/// or none.
pub open spec fn removal_notice<C>(
    before: RealtimeModel<C>,
    subscriptions: Map<Seq<char>, Seq<ListenerHandle<C>>>,
) -> Option<(Seq<char>, Set<Seq<char>>)> {
    if loses_key(before.subscriptions, subscriptions) && session_of(before.state).len() > 0 {
        Some((session_of(before.state), subscriptions.dom()))
    } else {
        None
    }
}

/// Whether a request is the resubscription called for: the same session,
/// and each key exactly once.
pub open spec fn request_matches(
    request: Option<ResubscribeRequest>,
    expected: Option<(Seq<char>, Set<Seq<char>>)>,
) -> bool {
    match request {
        Some(r) => expected is Some && r.client_id@ == expected.unwrap().0
            && r.subscriptions.deep_view().no_duplicates() && (forall|k: Seq<char>|
            r.subscriptions.deep_view().contains(k) <==> expected.unwrap().1.contains(k)),
        None => expected is None,
    }
}

/// A new engine: disconnected, nothing registered, no task.
pub open spec fn model_new<C>() -> RealtimeModel<C> {
    RealtimeModel {
        state: ConnectionModel::Disconnected,
        subscriptions: Map::empty(),
        stop: false,
        running: false,
        counter: 0,
        failures: 0,
    }
}

/// The model once the background task is asked for: a task that is not
/// running is started with the stop flag cleared.
pub open spec fn model_ensure_thread<C>(m: RealtimeModel<C>) -> RealtimeModel<C> {
    if m.running {
        m
    } else {
        RealtimeModel { stop: false, running: true, ..m }
    }
}

/// The model after a listener is registered under a key.
pub open spec fn model_subscribe<C>(m: RealtimeModel<C>, key: Seq<char>, callback: C)
    -> RealtimeModel<C> {
    model_ensure_thread(
        RealtimeModel {
            subscriptions: registry_add(
                m.subscriptions,
                key,
                ListenerHandle { id: next_id(m.counter), callback },
            ),
            counter: next_id(m.counter),
            ..m
        },
    )
}

/// The model after a disconnect: stopped, no task, no session.
pub open spec fn model_disconnect<C>(m: RealtimeModel<C>) -> RealtimeModel<C> {
    RealtimeModel { state: ConnectionModel::Disconnected, stop: true, running: false, ..m }
}

/// The model after the connection is lost: no session.
pub open spec fn model_handle_disconnect<C>(m: RealtimeModel<C>) -> RealtimeModel<C> {
    RealtimeModel { state: ConnectionModel::Disconnected, ..m }
}

/// The model with another registry, disconnected where that registry is empty.
pub open spec fn model_settle<C>(
    m: RealtimeModel<C>,
    subscriptions: Map<Seq<char>, Seq<ListenerHandle<C>>>,
) -> RealtimeModel<C> {
    if registry_is_empty(subscriptions) {
        model_disconnect(RealtimeModel { subscriptions, ..m })
    } else {
        RealtimeModel { subscriptions, ..m }
    }
}

/// The model after one listener is removed from the keys of a topic: where
/// a key goes with it, the engine disconnects if nothing is left.
pub open spec fn model_remove_listener<C>(m: RealtimeModel<C>, topic: Seq<char>, id: u64)
    -> RealtimeModel<C> {
    let subscriptions = registry_remove_from_topic(m.subscriptions, topic, id);
    if loses_key(m.subscriptions, subscriptions) {
        model_settle(m, subscriptions)
    } else {
        RealtimeModel { subscriptions, ..m }
    }
}

/// The model after `unsubscribe`: without the keys of the topic, or without
/// any key where no topic is given.
pub open spec fn model_unsubscribe<C>(m: RealtimeModel<C>, topic: Option<Seq<char>>)
    -> RealtimeModel<C> {
    match topic {
        Some(t) => model_settle(m, registry_without_topic(m.subscriptions, t)),
        None => model_settle(m, Map::empty()),
    }
}

/// The model after a handshake with the given session identifier, if any.
pub open spec fn model_handshake<C>(m: RealtimeModel<C>, session: Option<Seq<char>>)
    -> RealtimeModel<C> {
    match session {
        Some(id) => RealtimeModel { state: ConnectionModel::Connected(id), ..m },
        None => m,
    }
}

/// The model after the background task reports an event.
pub open spec fn model_supervise<C>(m: RealtimeModel<C>, event: LoopEvent) -> RealtimeModel<C> {
    match event {
        LoopEvent::Started | LoopEvent::Waited => if m.stop {
            RealtimeModel { state: ConnectionModel::Disconnected, running: false, ..m }
        } else {
            RealtimeModel { state: ConnectionModel::Connecting, ..m }
        },
        LoopEvent::Opened => RealtimeModel { failures: 0, ..m },
        LoopEvent::Failed => if m.stop || registry_is_empty(m.subscriptions) {
            RealtimeModel { state: ConnectionModel::Disconnected, running: false, ..m }
        } else {
            RealtimeModel {
                state: ConnectionModel::Disconnected,
                failures: next_failures(m.failures),
                ..m
            }
        },
        LoopEvent::Closed => if m.stop || registry_is_empty(m.subscriptions) {
            RealtimeModel { state: ConnectionModel::Disconnected, running: false, ..m }
        } else {
            RealtimeModel { state: ConnectionModel::Disconnected, ..m }
        },
    }
}

/// What the background task does after it reports an event.
pub open spec fn supervise_action<C>(m: RealtimeModel<C>, event: LoopEvent) -> LoopAction {
    match event {
        LoopEvent::Started | LoopEvent::Waited => if m.stop {
            LoopAction::Stop
        } else {
            LoopAction::Connect
        },
        LoopEvent::Opened => LoopAction::Listen,
        LoopEvent::Failed | LoopEvent::Closed => if m.stop || registry_is_empty(m.subscriptions) {
            LoopAction::Stop
        } else {
            LoopAction::Wait(backoff_ms(m.failures))
        },
    }
}

/// The delay in milliseconds after the given number of consecutive failures.
pub fn backoff_delay(failures: usize) -> (r: u64)
    ensures
        r == backoff_ms(failures as nat),
{
    if failures == 0 {
        200
    } else if failures == 1 {
        500
    } else if failures == 2 {
        1000
    } else if failures == 3 {
        2000
    } else {
        5000
    }
}

/// The name under which a frame is dispatched.
pub fn event_name(evt: &Event) -> (r: String)
    ensures
        r@ == frame_name(evt@),
{
    if chars_of(evt.event.as_str()).len() == 0 {
        "message".to_owned()
    } else {
        evt.event.clone()
    }
}

/// The text of a frame's data that goes to the JSON parser: none for blank
/// data, else the data without its trailing line feeds.
pub fn payload_text(data: &str) -> (r: Option<String>)
    ensures
        match r {
            Some(text) => payload_source(data@) == Some(text@),
            None => payload_source(data@) is None,
        },
{
    let chars = chars_of(data);
    if all_whitespace(&chars) {
        None
    } else {
        Some(string_of(&strip_newlines(&chars)))
    }
}

/// The payload for a parser's answer: the value parsed, or the empty
/// object where the text was not JSON.
pub fn payload_from(parsed: Option<Value>) -> (r: Value)
    ensures
        r == payload_or_empty(parsed),
{
    match parsed {
        Some(v) => v,
        None => object_value(new_object()),
    }
}

/// The payload of a frame's data: the JSON value it holds, or the empty
/// object where it is blank or not JSON.
pub fn decode_payload(data: &str) -> (r: Value)
    ensures
        r == decoded_payload(data@),
{
    match payload_text(data) {
        Some(text) => payload_from(parse(text.as_str())),
        None => payload_from(None),
    }
}

/// The session identifier of a handshake: the one announced, else the
/// frame's own identifier where it has one.
pub fn choose_session(announced: Option<String>, frame_id: &str) -> (r: Option<String>)
    ensures
        match r {
            Some(id) => chosen_session(
                match announced {
                    Some(a) => Some(a@),
                    None => None,
                },
                frame_id@,
            ) == Some(id@),
            None => chosen_session(
                match announced {
                    Some(a) => Some(a@),
                    None => None,
                },
                frame_id@,
            ) is None,
        },
{
    match announced {
        Some(id) => Some(id),
        None => if chars_of(frame_id).len() == 0 {
            None
        } else {
            Some(frame_id.to_owned())
        },
    }
}

/// The push-stream engine. `C` is the type of the listeners' callbacks.
pub struct RealtimeService<C> {
    state: ConnectionState,
    subscriptions: SubscriptionRegistry<C>,
    stop: bool,
    running: bool,
    counter: u64,
    failures: usize,
}

impl<C> RealtimeService<C> {
    /// Well-formedness: the registry is well-formed, the identifiers of its
    /// listeners are distinct and were handed out by the counter, the
    /// failure count stays within the schedule, and a task that runs has
    /// not been told to stop.
    pub closed spec fn wf(&self) -> bool {
        &&& self.subscriptions.wf()
        &&& self.failures <= 4
        &&& ids_within(self.subscriptions@, self.counter)
        &&& ids_distinct(self.subscriptions@)
        &&& self.running ==> !self.stop
    }

    /// The engine as plain values.
    pub closed spec fn view(&self) -> RealtimeModel<C> {
        RealtimeModel {
            state: self.state@,
            subscriptions: self.subscriptions@,
            stop: self.stop,
            running: self.running,
            counter: self.counter,
            failures: self.failures as nat,
        }
    }

    /// The model of a well-formed engine is valid: an entry exists only
    /// with a listener, and a listener belongs to one entry only.
    pub proof fn lemma_valid(&self)
        requires
            self.wf(),
        ensures
            model_valid(self@),
    {
        self.subscriptions.lemma_keys_have_listeners();
    }

    /// Whether another listener can be given an identifier.
    pub fn has_free_id(&self) -> (r: bool)
        ensures
            r == (self@.counter < u64::MAX),
    {
        self.counter < u64::MAX
    }

    /// A new engine: disconnected, nothing registered, no task.
    pub fn new() -> (r: Self)
        ensures
            r.wf(),
            r@ == model_new::<C>(),
    {
        let r = RealtimeService {
            state: ConnectionState::Disconnected,
            subscriptions: SubscriptionRegistry::new(),
            stop: false,
            running: false,
            counter: 0,
            failures: 0,
        };
        proof {
            assert(r.subscriptions@ =~= Map::empty());
        }
        r
    }

    /// Whether a session is established.
    pub fn is_ready(&self) -> (r: bool)
        ensures
            r == (self@.state is Connected),
    {
        match &self.state {
            ConnectionState::Connected(_) => true,
            _ => false,
        }
    }

    /// The session identifier: empty unless connected.
    pub fn client_id(&self) -> (r: String)
        ensures
            r@ == session_of(self@.state),
    {
        match &self.state {
            ConnectionState::Connected(id) => id.clone(),
            _ => String::new(),
        }
    }

    /// The state of the connection.
    pub fn connection_state(&self) -> (r: ConnectionState)
        ensures
            r@ == self@.state,
    {
        match &self.state {
            ConnectionState::Disconnected => ConnectionState::Disconnected,
            ConnectionState::Connecting => ConnectionState::Connecting,
            ConnectionState::Connected(id) => ConnectionState::Connected(id.clone()),
        }
    }

    /// Whether the background task is to stop.
    pub fn should_stop(&self) -> (r: bool)
        ensures
            r == self@.stop,
    {
        self.stop
    }

    /// Whether a background task is running.
    pub fn is_running(&self) -> (r: bool)
        ensures
            r == self@.running,
    {
        self.running
    }

    /// Whether no key is registered.
    pub fn is_idle(&self) -> (r: bool)
        requires
            self.wf(),
        ensures
            r == registry_is_empty(self@.subscriptions),
    {
        self.subscriptions.is_empty()
    }

    /// The keys of the registry: each key once.
    pub fn subscription_keys(&self) -> (r: Vec<String>)
        requires
            self.wf(),
        ensures
            r.deep_view().no_duplicates(),
            forall|k: Seq<char>| r.deep_view().contains(k) <==> self@.subscriptions.contains_key(k),
    {
        self.subscriptions.keys()
    }

    /// The number of listeners registered under a key.
    pub fn listener_count(&self, key: &str) -> (r: usize)
        requires
            self.wf(),
        ensures
            r == listeners_of(self@.subscriptions, key@).len(),
    {
        self.subscriptions.listener_count(key)
    }

    /// The listeners that receive an event of the given name, in order of
    /// registration: those whose key is exactly that name.
    pub fn listeners_for(&self, topic: &str) -> (r: Vec<&ListenerHandle<C>>)
        requires
            self.wf(),
        ensures
            r@.len() == listeners_of(self@.subscriptions, topic@).len(),
            forall|i: int|
                0 <= i < r@.len() ==> *r@[i] == listeners_of(self@.subscriptions, topic@)[i],
    {
        self.subscriptions.listeners_for(topic)
    }

    /// Makes sure a background task exists. The result tells whether the
    /// caller must start one; the stop flag is then cleared.
    pub fn ensure_thread(&mut self) -> (start: bool)
        requires
            old(self).wf(),
        ensures
            final(self).wf(),
            final(self)@ == model_ensure_thread(old(self)@),
            start == !old(self)@.running,
    {
        if self.running {
            false
        } else {
            self.stop = false;
            self.running = true;
            true
        }
    }

    /// Registers a listener for a topic with its options and makes sure a
    /// background task exists. An empty topic is refused before anything
    /// is touched.
    pub fn subscribe(
        &mut self,
        topic: &str,
        callback: C,
        query: &Vec<(String, Value)>,
        headers: &Vec<(String, String)>,
    ) -> (r: Result<Subscription, ClientResponseError>)
        requires
            old(self).wf(),
            old(self)@.counter < u64::MAX,
        ensures
            final(self).wf(),
            topic@.len() == 0 ==> r is Err && is_topic_error(r->Err_0) && final(self)@ == old(self)@,
            topic@.len() > 0 ==> r is Ok && r->Ok_0.listener_id == next_id(old(self)@.counter)
                && r->Ok_0.key@ == subscription_key(
                topic@,
                pairs_map(query_view(query@)),
                pairs_map(headers.deep_view()),
            ) && r->Ok_0.start == !old(self)@.running && final(self)@ == model_subscribe(
                old(self)@,
                r->Ok_0.key@,
                callback,
            ),
    {
        if chars_of(topic).len() == 0 {
            return Err(topic_error());
        }
        let key = build_subscription_key(topic, query, headers);
        let id: u64 = self.counter + 1;
        proof {
            lemma_add_keeps_ids(
                self.subscriptions@,
                key@,
                ListenerHandle { id, callback },
                self.counter,
            );
        }
        self.counter = id;
        self.subscriptions.add(key.as_str(), ListenerHandle { id, callback });
        let start = self.ensure_thread();
        Ok(Subscription { listener_id: id, key, start })
    }

    /// One step of waiting for the connection, after `elapsed_ms` of at
    /// most `timeout_ms` milliseconds.
    pub fn ensure_connected(&self, elapsed_ms: u64, timeout_ms: u64) -> (r: WaitStep)
        ensures
            self@.state is Connected ==> r is Ready,
            !(self@.state is Connected) && elapsed_ms >= timeout_ms ==> r is TimedOut
                && is_timeout_error(r->TimedOut_0),
            !(self@.state is Connected) && elapsed_ms < timeout_ms ==> r == WaitStep::Wait(
                (timeout_ms - elapsed_ms) as u64,
            ),
    {
        if self.is_ready() {
            WaitStep::Ready
        } else if elapsed_ms >= timeout_ms {
            WaitStep::TimedOut(
                ClientResponseError::new(
                    String::new(),
                    0,
                    message_value("Realtime connection not established"),
                    true,
                    None,
                ),
            )
        } else {
            WaitStep::Wait(timeout_ms - elapsed_ms)
        }
    }

    /// One step of the wait that follows `subscribe`, after `elapsed_ms`
    /// milliseconds: the connection is waited for during at most
    /// `SUBSCRIBE_TIMEOUT_MS`. When the time is up the caller gets the
    /// error; the listener stays registered.
    pub fn await_ready(&self, elapsed_ms: u64) -> (r: WaitStep)
        ensures
            self@.state is Connected ==> r is Ready,
            !(self@.state is Connected) && elapsed_ms >= SUBSCRIBE_TIMEOUT_MS ==> r is TimedOut
                && is_timeout_error(r->TimedOut_0),
            !(self@.state is Connected) && elapsed_ms < SUBSCRIBE_TIMEOUT_MS ==> r
                == WaitStep::Wait((SUBSCRIBE_TIMEOUT_MS - elapsed_ms) as u64),
    {
        self.ensure_connected(elapsed_ms, SUBSCRIBE_TIMEOUT_MS)
    }

    /// The request that replays every key of the registry to the server,
    /// where there is a session and a key.
    pub fn submit_subscriptions(&self) -> (r: Option<ResubscribeRequest>)
        requires
            self.wf(),
        ensures
            request_matches(r, resubscription(self@)),
    {
        if self.subscriptions.is_empty() {
            return None;
        }
        self.session_request()
    }

    /// Stops the engine: the stop flag is set, the session is dropped, and
    /// no task is left. The result tells whether a task was running and is
    /// to be joined. A second call changes nothing.
    pub fn disconnect(&mut self) -> (join: bool)
        requires
            old(self).wf(),
        ensures
            final(self).wf(),
            final(self)@ == model_disconnect(old(self)@),
            join == old(self)@.running,
    {
        let join = self.running;
        self.stop = true;
        self.running = false;
        self.state = ConnectionState::Disconnected;
        join
    }

    /// Drops the session after the connection was lost.
    pub fn handle_disconnect(&mut self)
        requires
            old(self).wf(),
        ensures
            final(self).wf(),
            final(self)@ == model_handle_disconnect(old(self)@),
    {
        self.state = ConnectionState::Disconnected;
    }

    /// The request that holds the session and every key of the registry,
    /// where there is a session.
    fn session_request(&self) -> (r: Option<ResubscribeRequest>)
        requires
            self.wf(),
        ensures
            request_matches(
                r,
                if session_of(self@.state).len() > 0 {
                    Some((session_of(self@.state), self@.subscriptions.dom()))
                } else {
                    None
                },
            ),
    {
        let client_id = self.client_id();
        if chars_of(client_id.as_str()).len() == 0 {
            return None;
        }
        let subscriptions = self.subscriptions.keys();
        Some(ResubscribeRequest { client_id, subscriptions })
    }

    fn settle(
        &mut self,
        lost: bool,
        Ghost(before): Ghost<Map<Seq<char>, Seq<ListenerHandle<C>>>>,
    ) -> (r: Followup)
        requires
            old(self).wf(),
            lost == loses_key(before, old(self)@.subscriptions),
        ensures
            final(self).wf(),
            final(self)@ == model_settle(old(self)@, old(self)@.subscriptions),
            match r {
                Followup::Nothing => false,
                Followup::Disconnected { join, notice } => registry_is_empty(
                    old(self)@.subscriptions,
                ) && join == old(self)@.running && request_matches(
                    notice,
                    removal_notice(
                        RealtimeModel { subscriptions: before, ..old(self)@ },
                        old(self)@.subscriptions,
                    ),
                ),
                Followup::Resubmit(request) => !registry_is_empty(old(self)@.subscriptions)
                    && request_matches(request, resubscription(final(self)@)),
            },
    {
        if self.subscriptions.is_empty() {
            let notice = if lost {
                self.session_request()
            } else {
                None
            };
            let join = self.disconnect();
            Followup::Disconnected { join, notice }
        } else {
            Followup::Resubmit(self.submit_subscriptions())
        }
    }

    /// Removes the keys of a topic, or every key where no topic is given.
    /// With nothing left the engine disconnects, and the server is told
    /// that the keys are gone where a key went and a session existed;
    /// otherwise the remaining keys are to be submitted again.
    pub fn unsubscribe(&mut self, topic: Option<String>) -> (r: Followup)
        requires
            old(self).wf(),
        ensures
            final(self).wf(),
            final(self)@ == model_unsubscribe(
                old(self)@,
                match topic {
                    Some(t) => Some(t@),
                    None => None,
                },
            ),
            match r {
                Followup::Nothing => false,
                Followup::Disconnected { join, notice } => registry_is_empty(
                    final(self)@.subscriptions,
                ) && join == old(self)@.running && request_matches(
                    notice,
                    removal_notice(old(self)@, final(self)@.subscriptions),
                ),
                Followup::Resubmit(request) => !registry_is_empty(final(self)@.subscriptions)
                    && request_matches(request, resubscription(final(self)@)),
            },
    {
        let ghost before = self.subscriptions@;
        let lost = match topic {
            Some(t) => {
                let lost = self.subscriptions.remove_topic(t.as_str());
                proof {
                    lemma_removals_cut(old(self).subscriptions@, t@, 0);
                }
                lost
            },
            None => {
                let lost = !self.subscriptions.is_empty();
                self.subscriptions.remove_all();
                proof {
                    assert(self.subscriptions@ =~= Map::empty());
                    lemma_removals_cut(old(self).subscriptions@, Seq::empty(), 0);
                    if lost {
                        let k = choose|k: Seq<char>| before.contains_key(k);
                        assert(before.contains_key(k) && !self.subscriptions@.contains_key(k));
                    }
                }
                lost
            },
        };
        proof {
            lemma_cut_keeps_ids(self.subscriptions@, old(self).subscriptions@, self.counter);
        }
        self.settle(lost, Ghost(before))
    }

    /// Removes every key that begins with `prefix`, then does as
    /// `unsubscribe` does.
    pub fn unsubscribe_by_prefix(&mut self, prefix: &str) -> (r: Followup)
        requires
            old(self).wf(),
        ensures
            final(self).wf(),
            final(self)@ == model_settle(
                old(self)@,
                registry_without_prefix(old(self)@.subscriptions, prefix@),
            ),
            match r {
                Followup::Nothing => false,
                Followup::Disconnected { join, notice } => registry_is_empty(
                    final(self)@.subscriptions,
                ) && join == old(self)@.running && request_matches(
                    notice,
                    removal_notice(old(self)@, final(self)@.subscriptions),
                ),
                Followup::Resubmit(request) => !registry_is_empty(final(self)@.subscriptions)
                    && request_matches(request, resubscription(final(self)@)),
            },
    {
        let ghost before = self.subscriptions@;
        let lost = self.subscriptions.remove_by_topic_prefix(prefix);
        proof {
            lemma_removals_cut(old(self).subscriptions@, prefix@, 0);
            lemma_cut_keeps_ids(self.subscriptions@, old(self).subscriptions@, self.counter);
        }
        self.settle(lost, Ghost(before))
    }

    /// Removes one listener from the keys of a topic, which are the keys
    /// that `subscribe` makes of that topic. Where no key goes with the
    /// listener, nothing follows and the server is told nothing. Where a
    /// key goes, the server is told once, if a session exists: with keys
    /// left, the remaining keys are submitted; with none left, the engine
    /// disconnects and the notice holds the session and no key.
    pub fn unsubscribe_by_topic_and_id(&mut self, topic: &str, id: u64) -> (r: Followup)
        requires
            old(self).wf(),
        ensures
            final(self).wf(),
            final(self)@ == model_remove_listener(old(self)@, topic@, id),
            match r {
                Followup::Nothing => !loses_key(
                    old(self)@.subscriptions,
                    final(self)@.subscriptions,
                ),
                Followup::Disconnected { join, notice } => loses_key(
                    old(self)@.subscriptions,
                    final(self)@.subscriptions,
                ) && registry_is_empty(final(self)@.subscriptions) && join == old(self)@.running
                    && request_matches(
                    notice,
                    removal_notice(old(self)@, final(self)@.subscriptions),
                ),
                Followup::Resubmit(request) => loses_key(
                    old(self)@.subscriptions,
                    final(self)@.subscriptions,
                ) && !registry_is_empty(final(self)@.subscriptions) && request_matches(
                    request,
                    removal_notice(old(self)@, final(self)@.subscriptions),
                ),
            },
    {
        let ghost before = self.subscriptions@;
        let changed = self.subscriptions.remove_from_topic(topic, id);
        proof {
            lemma_removals_cut(old(self).subscriptions@, topic@, id);
            lemma_cut_keeps_ids(self.subscriptions@, old(self).subscriptions@, self.counter);
        }
        if changed {
            self.settle(true, Ghost(before))
        } else {
            Followup::Nothing
        }
    }

    /// Takes in a handshake: with a session identifier the engine is
    /// connected under it. The result is the request that replays every key
    /// of the registry, where there is a session and a key.
    pub fn handshake(&mut self, session: Option<String>) -> (r: Option<ResubscribeRequest>)
        requires
            old(self).wf(),
        ensures
            final(self).wf(),
            final(self)@ == model_handshake(
                old(self)@,
                match session {
                    Some(id) => Some(id@),
                    None => None,
                },
            ),
            request_matches(r, resubscription(final(self)@)),
    {
        match session {
            Some(id) => {
                self.state = ConnectionState::Connected(id);
            },
            None => {},
        }
        self.submit_subscriptions()
    }

    /// Takes in a frame that is already decoded: its name, its payload, the
    /// session identifier that the payload announces and the frame's own
    /// identifier. The handshake frame connects; every other frame is for
    /// the listeners of its name.
    pub fn dispatch_decoded(
        &mut self,
        name: String,
        payload: Value,
        announced: Option<String>,
        frame_id: &str,
    ) -> (r: Dispatch)
        requires
            old(self).wf(),
        ensures
            final(self).wf(),
            name@ == handshake_name() ==> r is Handshake && final(self)@ == model_handshake(
                old(self)@,
                chosen_session(
                    match announced {
                        Some(a) => Some(a@),
                        None => None,
                    },
                    frame_id@,
                ),
            ) && request_matches(r->Handshake_0, resubscription(final(self)@)),
            name@ != handshake_name() ==> final(self)@ == old(self)@ && r == (Dispatch::Deliver {
                topic: name,
                payload,
            }),
    {
        if name == "PB_CONNECT".to_owned() {
            let session = choose_session(announced, frame_id);
            Dispatch::Handshake(self.handshake(session))
        } else {
            Dispatch::Deliver { topic: name, payload }
        }
    }

    /// Takes in a completed frame of the stream.
    pub fn dispatch_event(&mut self, evt: &Event) -> (r: Dispatch)
        requires
            old(self).wf(),
        ensures
            final(self).wf(),
            frame_name(evt@) == handshake_name() ==> r is Handshake && final(self)@
                == model_handshake(
                old(self)@,
                chosen_session(announced_session(decoded_payload(evt@.data)), evt@.id),
            ) && request_matches(r->Handshake_0, resubscription(final(self)@)),
            frame_name(evt@) != handshake_name() ==> final(self)@ == old(self)@ && r is Deliver
                && r->topic@ == frame_name(evt@) && r->payload == decoded_payload(evt@.data),
    {
        let name = event_name(evt);
        let payload = decode_payload(evt.data.as_str());
        let announced = if name == "PB_CONNECT".to_owned() {
            match member(&payload, "clientId") {
                Some(v) => match as_str(v) {
                    Some(s) => Some(s.to_owned()),
                    None => None,
                },
                None => None,
            }
        } else {
            None
        };
        self.dispatch_decoded(name, payload, announced, evt.id.as_str())
    }

    /// Takes in one line of the open stream. A stop request ends the
    /// reading before the line is looked at; otherwise the line goes to the
    /// parser, and a frame that it completes is dispatched.
    pub fn listen(&mut self, parser: &mut FrameParser, line: &str) -> (r: ListenStep)
        requires
            old(self).wf(),
        ensures
            final(self).wf(),
            old(self)@.stop ==> r is Halt && final(self)@ == old(self)@ && final(parser)@ == old(parser)@,
            !old(self)@.stop ==> final(parser)@ == parser_step(old(parser)@, line@).0,
            !old(self)@.stop && parser_step(old(parser)@, line@).1 is None ==> r is Idle && final(self)@ == old(self)@,
            !old(self)@.stop && parser_step(old(parser)@, line@).1 is Some ==> r is Frame && ({
                let frame = parser_step(old(parser)@, line@).1.unwrap();
                &&& frame_name(frame) == handshake_name() ==> r->Frame_0 is Handshake && final(self)@ == model_handshake(
                    old(self)@,
                    chosen_session(announced_session(decoded_payload(frame.data)), frame.id),
                ) && request_matches(r->Frame_0->Handshake_0, resubscription(final(self)@))
                &&& frame_name(frame) != handshake_name() ==> final(self)@ == old(self)@
                    && r->Frame_0 is Deliver && r->Frame_0->topic@ == frame_name(frame)
                    && r->Frame_0->payload == decoded_payload(frame.data)
            }),
    {
        if self.stop {
            return ListenStep::Halt;
        }
        match parser.feed_line(line) {
            Some(evt) => ListenStep::Frame(self.dispatch_event(&evt)),
            None => ListenStep::Idle,
        }
    }

    /// Decides what the background task does after an event. A task that
    /// starts, or has waited, connects unless it is to stop. An opened
    /// stream clears the count of failed attempts and is read. A failed
    /// attempt and the end of an open stream drop the session; the task
    /// then ends if it is to stop or nothing is registered, and otherwise
    /// waits for the delay that the count calls for. Only a failed attempt
    /// is counted.
    pub fn run_loop(&mut self, event: LoopEvent) -> (action: LoopAction)
        requires
            old(self).wf(),
        ensures
            final(self).wf(),
            final(self)@ == model_supervise(old(self)@, event),
            action == supervise_action(old(self)@, event),
    {
        match event {
            LoopEvent::Started | LoopEvent::Waited => {
                if self.stop {
                    self.state = ConnectionState::Disconnected;
                    self.running = false;
                    LoopAction::Stop
                } else {
                    self.state = ConnectionState::Connecting;
                    LoopAction::Connect
                }
            },
            LoopEvent::Opened => {
                self.failures = 0;
                LoopAction::Listen
            },
            LoopEvent::Failed => {
                self.state = ConnectionState::Disconnected;
                if self.stop || self.subscriptions.is_empty() {
                    self.running = false;
                    LoopAction::Stop
                } else {
                    let delay = backoff_delay(self.failures);
                    if self.failures < 4 {
                        self.failures = self.failures + 1;
                    }
                    LoopAction::Wait(delay)
                }
            },
            LoopEvent::Closed => {
                self.state = ConnectionState::Disconnected;
                if self.stop || self.subscriptions.is_empty() {
                    self.running = false;
                    LoopAction::Stop
                } else {
                    LoopAction::Wait(backoff_delay(self.failures))
                }
            },
        }
    }
}


/// The model after a failed attempt and the wait that follows it.
pub open spec fn model_fail_once<C>(m: RealtimeModel<C>) -> RealtimeModel<C> {
    model_supervise(model_supervise(m, LoopEvent::Failed), LoopEvent::Waited)
}

/// The model after the given number of failed attempts in a row.
pub open spec fn model_fail_times<C>(m: RealtimeModel<C>, n: nat) -> RealtimeModel<C>
    decreases n,
{
    if n == 0 {
        m
    } else {
        model_fail_once(model_fail_times(m, (n - 1) as nat))
    }
}

/// The model after a stream was opened and ended again, and the wait that
/// follows its end.
pub open spec fn model_open_and_close<C>(m: RealtimeModel<C>) -> RealtimeModel<C> {
    model_supervise(
        model_supervise(model_supervise(m, LoopEvent::Opened), LoopEvent::Closed),
        LoopEvent::Waited,
    )
}

/// The delays of the schedule are 200, 500, 1000, 2000 and 5000
/// milliseconds, the last one for every further failure, and never
/// decrease.
pub proof fn lemma_backoff_schedule()
    ensures
        backoff_ms(0) == 200,
        backoff_ms(1) == 500,
        backoff_ms(2) == 1000,
        backoff_ms(3) == 2000,
        forall|n: nat| n >= 4 ==> backoff_ms(n) == 5000,
        forall|a: nat, b: nat| a <= b ==> backoff_ms(a) <= backoff_ms(b),
{
}

/// While the engine is not told to stop and a key is registered, failed
/// attempts follow the schedule, and only they count. After a stream that
/// was opened has ended, the wait is 200 milliseconds, and the end of the
/// stream is not counted: of the failed attempts that follow, the first is
/// again followed by 200 milliseconds, and after `n` of them the next is
/// followed by the `n`-th delay of the schedule, however many attempts had
/// failed before the stream was opened.
pub proof fn lemma_backoff_consecutive<C>(m: RealtimeModel<C>, before: nat, n: nat)
    requires
        !m.stop,
        !registry_is_empty(m.subscriptions),
        m.failures <= 4,
    ensures
        supervise_action(
            model_supervise(model_fail_times(m, before), LoopEvent::Opened),
            LoopEvent::Closed,
        ) == LoopAction::Wait(200),
        supervise_action(
            model_fail_times(model_open_and_close(model_fail_times(m, before)), n),
            LoopEvent::Failed,
        ) == LoopAction::Wait(backoff_ms(n)),
        m.failures == 0 ==> supervise_action(model_fail_times(m, n), LoopEvent::Failed)
            == LoopAction::Wait(backoff_ms(n)),
{
    lemma_fail_times(m, before);
    lemma_fail_times(model_open_and_close(model_fail_times(m, before)), n);
    lemma_fail_times(m, n);
}

/// Failed attempts in a row leave the registry and the stop flag alone and
/// count up to the end of the schedule.
pub proof fn lemma_fail_times<C>(m: RealtimeModel<C>, n: nat)
    requires
        !m.stop,
        !registry_is_empty(m.subscriptions),
    ensures
        model_fail_times(m, n).subscriptions == m.subscriptions,
        !model_fail_times(m, n).stop,
        model_fail_times(m, n).running == m.running,
        model_fail_times(m, n).failures == if m.failures + n < 4 {
            m.failures + n
        } else if n == 0 {
            m.failures
        } else {
            4
        },
    decreases n,
{
    if n > 0 {
        lemma_fail_times(m, (n - 1) as nat);
    }
}

/// After the connection is lost and opened again, the handshake calls for
/// one request, and that request holds the new session and every key of
/// the registry. Until the handshake no request is called for.
pub proof fn lemma_reconnect_replays_all<C>(m: RealtimeModel<C>, session: Seq<char>)
    requires
        !m.stop,
        !registry_is_empty(m.subscriptions),
        session.len() > 0,
    ensures
        ({
            let lost = model_supervise(m, LoopEvent::Closed);
            let retried = model_supervise(lost, LoopEvent::Waited);
            let opened = model_supervise(retried, LoopEvent::Opened);
            let connected = model_handshake(opened, Some(session));
            &&& supervise_action(m, LoopEvent::Closed) is Wait
            &&& supervise_action(lost, LoopEvent::Waited) is Connect
            &&& supervise_action(retried, LoopEvent::Opened) is Listen
            &&& resubscription(lost) is None
            &&& resubscription(retried) is None
            &&& resubscription(opened) is None
            &&& connected.subscriptions == m.subscriptions
            &&& resubscription(connected) == Some((session, m.subscriptions.dom()))
        }),
{
}

/// `unsubscribe` without a topic clears every key and stops the background
/// task. A `subscribe` after it starts a task again, from the disconnected
/// state; the task's first step is to connect.
pub proof fn lemma_unsubscribe_all_then_subscribe<C>(
    m: RealtimeModel<C>,
    key: Seq<char>,
    callback: C,
)
    ensures
        ({
            let cleared = model_unsubscribe(m, None);
            let again = model_subscribe(cleared, key, callback);
            &&& registry_is_empty(cleared.subscriptions)
            &&& cleared.stop
            &&& !cleared.running
            &&& cleared.state is Disconnected
            &&& again.running
            &&& !again.stop
            &&& again.state is Disconnected
            &&& again.subscriptions.dom() =~= set![key]
            &&& again.subscriptions[key] == seq![
                ListenerHandle { id: next_id(m.counter), callback },
            ]
            &&& supervise_action(again, LoopEvent::Started) is Connect
            &&& model_supervise(again, LoopEvent::Started).state is Connecting
        }),
{
    let cleared = model_unsubscribe(m, None);
    let again = model_subscribe(cleared, key, callback);
    assert(registry_is_empty(Map::<Seq<char>, Seq<ListenerHandle<C>>>::empty()));
    assert(cleared.subscriptions =~= Map::empty());
    assert(again.subscriptions[key] =~= seq![ListenerHandle { id: next_id(m.counter), callback }]);
}

/// Two subscriptions to a topic with the same options, whose key was not
/// registered, make one entry with two listeners. This holds for every
/// topic and for every options, also for a topic that holds a `?`.
/// Removing the first listener by its topic and identifier leaves the
/// entry with the second, removes no key, and the server is told nothing.
/// Removing the second removes the key, and the server is told exactly
/// once if a session exists: the notice holds the session and the keys that
/// remain. With no key left the engine has then disconnected.
pub proof fn lemma_two_subscriptions<C>(
    m: RealtimeModel<C>,
    topic: Seq<char>,
    options: Option<Seq<char>>,
    first: C,
    second: C,
)
    requires
        model_valid(m),
        m.counter + 2 <= u64::MAX,
        !m.subscriptions.contains_key(key_with_options(topic, options)),
    ensures
        ({
            let key = key_with_options(topic, options);
            let one = model_subscribe(m, key, first);
            let two = model_subscribe(one, key, second);
            let first_id = next_id(m.counter);
            let second_id = next_id(first_id);
            let less = model_remove_listener(two, topic, first_id);
            let none = model_remove_listener(less, topic, second_id);
            &&& two.subscriptions.dom() =~= m.subscriptions.dom().insert(key)
            &&& two.subscriptions[key] == seq![
                ListenerHandle { id: first_id, callback: first },
                ListenerHandle { id: second_id, callback: second },
            ]
            &&& !loses_key(two.subscriptions, less.subscriptions)
            &&& removal_notice(two, less.subscriptions) is None
            &&& less.subscriptions == two.subscriptions.insert(
                key,
                seq![ListenerHandle { id: second_id, callback: second }],
            )
            &&& less.running && !less.stop
            &&& loses_key(less.subscriptions, none.subscriptions)
            &&& none.subscriptions == m.subscriptions
            &&& removal_notice(less, none.subscriptions) == (if session_of(m.state).len() > 0 {
                Some((session_of(m.state), m.subscriptions.dom()))
            } else {
                None
            })
            &&& registry_is_empty(m.subscriptions) ==> none.stop && !none.running
                && none.state is Disconnected
            &&& !registry_is_empty(m.subscriptions) ==> none.running && !none.stop
        }),
{
    let key = key_with_options(topic, options);
    crate::key::lemma_key_belongs_to_topic(topic, options);
    let first_id = next_id(m.counter);
    let second_id = next_id(first_id);
    let h1 = ListenerHandle { id: first_id, callback: first };
    let h2 = ListenerHandle { id: second_id, callback: second };
    let one = model_subscribe(m, key, first);
    let two = model_subscribe(one, key, second);
    assert(one.subscriptions.contains_key(key));
    assert(two.subscriptions[key] =~= seq![h1, h2]);
    crate::registry::lemma_without_id_pair(h1, h2);
    assert(key_of_topic(key, topic));
    // the other keys hold identifiers that were handed out earlier
    assert forall|k: Seq<char>| k != key && m.subscriptions.contains_key(k) implies without_id(
        m.subscriptions[k],
        first_id,
    ) == m.subscriptions[k] && without_id(m.subscriptions[k], second_id) == m.subscriptions[k] by {
        let s = m.subscriptions[k];
        assert forall|i: int| 0 <= i < s.len() implies (#[trigger] s[i]).id != first_id && s[i].id
            != second_id by {
            assert(1 <= s[i].id <= m.counter);
        }
        lemma_without_absent_id(s, first_id);
        lemma_without_absent_id(s, second_id);
    }
    let removed = registry_remove_from_topic(two.subscriptions, topic, first_id);
    assert(removed =~= two.subscriptions.insert(key, seq![h2])) by {
        assert forall|k: Seq<char>| two.subscriptions.contains_key(k) implies removed.contains_key(
            k,
        ) && removed[k] == two.subscriptions.insert(key, seq![h2])[k] by {
            if k != key {
                assert(two.subscriptions[k] == m.subscriptions[k]);
                assert(m.subscriptions[k].len() > 0);
            }
        }
    }
    assert(!loses_key(two.subscriptions, removed));
    let less = model_remove_listener(two, topic, first_id);
    assert(less.subscriptions == removed);
    let gone = registry_remove_from_topic(less.subscriptions, topic, second_id);
    assert(gone =~= m.subscriptions) by {
        assert forall|k: Seq<char>| m.subscriptions.contains_key(k) implies gone.contains_key(k)
            && gone[k] == m.subscriptions[k] by {
            assert(k != key);
            assert(less.subscriptions[k] == m.subscriptions[k]);
            assert(m.subscriptions[k].len() > 0);
        }
    }
    assert(less.subscriptions.contains_key(key) && !gone.contains_key(key));
    assert(loses_key(less.subscriptions, gone));
}

/// A connection that is lost, an engine that is stopped and a registry
/// that runs empty all leave the engine disconnected, without a session.
pub proof fn lemma_leaving_connected<C>(m: RealtimeModel<C>)
    ensures
        model_supervise(m, LoopEvent::Closed).state is Disconnected,
        model_supervise(m, LoopEvent::Failed).state is Disconnected,
        model_handle_disconnect(m).state is Disconnected,
        model_disconnect(m).state is Disconnected,
        model_unsubscribe(m, None).state is Disconnected,
        forall|subscriptions: Map<Seq<char>, Seq<ListenerHandle<C>>>|
            registry_is_empty(subscriptions) ==> (#[trigger] model_settle(
                m,
                subscriptions,
            )).state is Disconnected,
        session_of(ConnectionModel::Disconnected).len() == 0,
        session_of(ConnectionModel::Connecting).len() == 0,
{
    assert(registry_is_empty(Map::<Seq<char>, Seq<ListenerHandle<C>>>::empty()));
}

/// A task that starts while it is not told to stop takes the engine to
/// connecting, whatever the state was; an opened stream leaves the state as
/// it is; a handshake with a session identifier takes the engine to
/// connected under that identifier.
pub proof fn lemma_entering_connected<C>(m: RealtimeModel<C>, session: Seq<char>)
    requires
        !m.stop,
    ensures
        model_supervise(m, LoopEvent::Started).state is Connecting,
        model_supervise(m, LoopEvent::Waited).state is Connecting,
        model_supervise(m, LoopEvent::Opened).state == m.state,
        model_handshake(m, Some(session)).state == ConnectionModel::Connected(session),
        model_handshake(m, None).state == m.state,
{
}

/// Removing a listener is idempotent: a second removal of the same
/// listener from the same topic changes nothing.
pub proof fn lemma_remove_listener_idempotent<C>(m: RealtimeModel<C>, topic: Seq<char>, id: u64)
    ensures
        model_remove_listener(model_remove_listener(m, topic, id), topic, id)
            == model_remove_listener(m, topic, id),
{
    crate::registry::lemma_remove_twice(m.subscriptions, topic, id);
}

/// A second `disconnect` changes nothing.
pub proof fn lemma_disconnect_idempotent<C>(m: RealtimeModel<C>)
    ensures
        model_disconnect(model_disconnect(m)) == model_disconnect(m),
{
}

} // verus!
