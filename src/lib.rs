//! Subscription registry, matching and batched aggregation for live client
//! connections that watch an external subject on an ordered event feed.
//!
//! Everything here is plain data and decisions: the transport, the HTTP
//! clients and the timers live with the caller, which hands the library the
//! outcome of each outside call and carries out the action it gets back.

pub mod aggregate;
pub mod api;
pub mod handler;
pub mod ingest;
pub mod messages;
pub mod registry;
mod text;
pub mod twitter;

pub use aggregate::drain_batches;
pub use api::{api_json_result, ApiErrorResponse, ApiJsonResult};
pub use handler::{Action, Event, Pending, Session};
pub use ingest::{deliver_tweet, on_feed_item};
pub use messages::{
    gen_server_err_response, gen_server_response, ClientMessage, ClientMessageData,
    FindTwitterUser, ServerError, ServerMessage, ServerMessageData, TopicsRequest,
    WatchTwitterUser,
};
pub use registry::{Client, Registry, StreamingUserInfo};
pub use text::{decimal, decimal_string, digit_char, join_spec, join_with, texts};
pub use twitter::{
    add_rule_request, body_result, delete_rule_request, needs_body, status_code_text,
    status_error, BodyOutcome, ErrorResponse, TwitterApiError, TwitterApiInvalidResponse,
    TwitterApiType1Error, TwitterApiType2Error, TwitterApiValidResponse,
    TwitterModifyTweetStreamRequest, TwitterResponse, TwitterTweet, TwitterTweetStreamAddRule,
    TwitterTweetStreamDelete, TwitterTweetStreamRule, TwitterTweetWithAuthor, TwitterUser,
};
