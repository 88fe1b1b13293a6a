//! The rules of a client for a BosBase server, verified.
//!
//! The heart of the library is the live-update subscription engine, once
//! for the push stream (`realtime`) and once for the socket (`pubsub`):
//! subscription keys, the registry of listeners, the parser of the stream,
//! the decisions of the background task, the handshake and the dispatch.
//! The engines perform no input or output themselves. They take events and
//! hand back what is to be done; the program around them holds the
//! connection, the threads and the locks.
//!
//! Beside the engines stand the rules that requests are built by: URLs
//! and query strings, filter expressions, the requests for the records of a
//! resource, batches, the headers and errors of a request, and what a token
//! or an answer says about the record that is signed in.

pub mod auth_store;
pub mod batch;
pub mod client;
pub mod crud;
pub mod errors;
pub mod file;
pub mod filter;
pub mod frame;
pub mod json;
pub mod key;
pub mod pubsub;
pub mod realtime;
pub mod record;
pub mod registry;
pub mod request;
pub mod text;
pub mod types;
pub mod utils;

pub use crate::auth_store::AuthStore;
pub use crate::client::BosBase;
pub use crate::errors::ClientResponseError;
pub use crate::pubsub::PubSubMessage;
pub use crate::pubsub::PubSubService;
pub use crate::realtime::RealtimeService;
pub use crate::request::FileAttachment;
pub use crate::request::SendOptions;
