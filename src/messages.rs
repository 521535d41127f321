//! The envelopes exchanged with a connection, and the builders of replies.

use vstd::prelude::*;

use crate::twitter::{TwitterTweetWithAuthor, TwitterUser};

verus! {

/// An inbound envelope: its own correlation id, its payload, and the id of an
/// earlier envelope it answers, if any.
#[derive(Debug, Clone, PartialEq, Eq)]
pub struct ClientMessage {
    pub reference_id: String,
    pub data: ClientMessageData,
    pub response_id: Option<String>,
}

#[derive(Debug, Clone, PartialEq, Eq)]
pub enum ClientMessageData {
    Subscribe(TopicsRequest),
    FindUser(FindTwitterUser),
    WatchTwitterUser(WatchTwitterUser),
}

#[derive(Debug, Clone, PartialEq, Eq)]
pub struct TopicsRequest {
    pub topics: Vec<String>,
}

#[derive(Debug, Clone, PartialEq, Eq)]
pub struct FindTwitterUser {
    pub username: String,
}

#[derive(Debug, Clone, PartialEq, Eq)]
pub struct WatchTwitterUser {
    pub username: String,
}

#[derive(Debug, Clone, PartialEq, Eq)]
pub struct ServerError {
    pub message: String,
    pub code: String,
}

/// An outbound envelope.
#[derive(Debug, Clone, PartialEq, Eq)]
pub struct ServerMessage {
    pub reference_id: String,
    pub data: ServerMessageData,
    pub response_id: Option<String>,
}

/// The payloads the library builds. A score measurement carries a fraction
/// and is built by the caller, which performs the scoring.
#[derive(Debug, Clone, PartialEq, Eq)]
pub enum ServerMessageData {
    Error(ServerError),
    TwitterUser(TwitterUser),
    FoundTweet(TwitterTweetWithAuthor),
}

pub open spec fn is_lower_hex(c: char) -> bool {
    ||| ('0' as u32) <= (c as u32) <= ('9' as u32)
    ||| ('a' as u32) <= (c as u32) <= ('f' as u32)
}

/// The shape of a freshly drawn correlation id: 32 lowercase hex digits.
pub open spec fn is_reference_id(s: Seq<char>) -> bool {
    &&& s.len() == 32
    &&& forall|i: int| 0 <= i < 32 ==> #[trigger] is_lower_hex(s[i])
}

/// Relies on uuid::Uuid::new_v4 and the `Display` of `Uuid::as_simple`, which
/// writes the 16 random bytes as 32 lowercase hex digits.
#[verifier::external_body]
fn new_reference_id() -> (r: String)
    ensures
        is_reference_id(r@),
{
    uuid::Uuid::new_v4().as_simple().to_string()
}

/// An outbound envelope with `data`, answering `response_id`, under a fresh
/// correlation id.
pub fn gen_server_response(data: ServerMessageData, response_id: Option<String>) -> (r:
    ServerMessage)
    ensures
        r.data == data,
        r.response_id == response_id,
        is_reference_id(r.reference_id@),
{
    ServerMessage { reference_id: new_reference_id(), data, response_id }
}

/// The payload of an error reply.
pub open spec fn error_data(message: String, code: String) -> ServerMessageData {
    ServerMessageData::Error(ServerError { message, code })
}

/// An outbound error envelope, answering `response_id`.
pub fn gen_server_err_response(error: String, code: String, response_id: Option<String>) -> (r:
    ServerMessage)
    ensures
        r.data == error_data(error, code),
        r.response_id == response_id,
        is_reference_id(r.reference_id@),
{
    gen_server_response(ServerMessageData::Error(ServerError { message: error, code }), response_id)
}

} // verus!
