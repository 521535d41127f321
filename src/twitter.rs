//! Records exchanged with the upstream lookup / filter-rule / feed API, the
//! bodies the library sends it, and how its replies are read.

use vstd::prelude::*;
use vstd::string::StringExecFns;

use crate::text::{decimal, decimal_string};

verus! {

#[derive(Debug, Clone, PartialEq, Eq)]
pub struct TwitterUser {
    pub id: String,
    pub username: String,
    pub name: String,
}

#[derive(Debug, Clone, PartialEq, Eq)]
pub struct TwitterTweet {
    pub id: String,
    pub text: String,
    pub edit_history_tweet_ids: Vec<String>,
}

/// A feed item: a post together with the identity of its author.
#[derive(Debug, Clone, PartialEq, Eq)]
pub struct TwitterTweetWithAuthor {
    pub id: String,
    pub text: String,
    pub edit_history_tweet_ids: Vec<String>,
    pub author_id: String,
}

#[derive(Debug, Clone, PartialEq, Eq)]
pub struct TwitterTweetStreamAddRule {
    pub value: String,
    pub tag: String,
}

#[derive(Debug, Clone, PartialEq, Eq)]
pub struct TwitterTweetStreamDelete {
    pub ids: Vec<String>,
}

/// Body of a request that adds and/or deletes filter rules.
#[derive(Debug, Clone, PartialEq, Eq)]
pub struct TwitterModifyTweetStreamRequest {
    pub add: Option<Vec<TwitterTweetStreamAddRule>>,
    pub delete: Option<TwitterTweetStreamDelete>,
}

/// A filter rule as the upstream API reports it back.
#[derive(Debug, Clone, PartialEq, Eq)]
pub struct TwitterTweetStreamRule {
    pub value: String,
    pub tag: String,
    pub id: String,
}

/// An upstream failure: a message and an HTTP status.
#[derive(Debug, Clone, PartialEq, Eq)]
pub struct ErrorResponse {
    pub error: String,
    pub status_code: u16,
}

/// Upstream error record of the first shape; `kind` is its `type` field.
#[derive(Debug, Clone, PartialEq, Eq)]
pub struct TwitterApiType1Error {
    pub detail: Option<String>,
    pub title: String,
    pub kind: String,
}

#[derive(Debug, Clone, PartialEq, Eq)]
pub struct TwitterApiType2Error {
    pub message: String,
}

#[derive(Debug, Clone, PartialEq, Eq)]
pub enum TwitterApiError {
    Type1(TwitterApiType1Error),
    Type2(TwitterApiType2Error),
}

#[derive(Debug, Clone, PartialEq, Eq)]
pub struct TwitterApiInvalidResponse {
    pub errors: Vec<TwitterApiError>,
}

#[derive(Debug, Clone, PartialEq, Eq)]
pub struct TwitterApiValidResponse<TResponse> {
    pub data: TResponse,
}

/// A decoded upstream reply: either a list of errors or the data asked for.
#[derive(Debug, Clone, PartialEq, Eq)]
pub enum TwitterResponse<TResponse> {
    Error(TwitterApiInvalidResponse),
    Valid(TwitterApiValidResponse<TResponse>),
}

/// What became of the body of a reply whose status carries one.
#[derive(Debug, Clone, PartialEq, Eq)]
pub enum BodyOutcome<TResponse> {
    /// The body could not be read; the transport's message.
    ReadFailed(String),
    /// The body was read but is not a reply of the expected shape; its text.
    Unparsable(String),
    Parsed(TwitterResponse<TResponse>),
}

/// `v` holds the same strings as `w`, in the same order.
pub open spec fn same_strings(v: Vec<String>, w: Vec<String>) -> bool {
    v@ == w@
}

/// Field for field, `a` equals `b`.
pub open spec fn same_tweet(a: TwitterTweetWithAuthor, b: TwitterTweetWithAuthor) -> bool {
    &&& a.id == b.id
    &&& a.text == b.text
    &&& same_strings(a.edit_history_tweet_ids, b.edit_history_tweet_ids)
    &&& a.author_id == b.author_id
}

pub fn copy_strings(v: &Vec<String>) -> (r: Vec<String>)
    ensures
        same_strings(r, *v),
{
    let mut r: Vec<String> = Vec::new();
    let mut i: usize = 0;
    while i < v.len()
        invariant
            i <= v.len(),
            r@ == v@.subrange(0, i as int),
        decreases v.len() - i,
    {
        r.push(v[i].clone());
        i = i + 1;
    }
    proof {
        assert(v@.subrange(0, v@.len() as int) =~= v@);
    }
    r
}

impl TwitterUser {
    pub fn copy(&self) -> (r: TwitterUser)
        ensures
            r == *self,
    {
        TwitterUser { id: self.id.clone(), username: self.username.clone(), name: self.name.clone() }
    }
}

impl TwitterTweetWithAuthor {
    pub fn copy(&self) -> (r: TwitterTweetWithAuthor)
        ensures
            same_tweet(r, *self),
    {
        TwitterTweetWithAuthor {
            id: self.id.clone(),
            text: self.text.clone(),
            edit_history_tweet_ids: copy_strings(&self.edit_history_tweet_ids),
            author_id: self.author_id.clone(),
        }
    }
}

/// The rule expression that selects the posts of `username`.
pub open spec fn author_rule(username: Seq<char>) -> Seq<char> {
    "from:"@ + username
}

/// A request that adds the one rule `value`, under `tag`.
pub fn add_rule_request(tag: String, value: String) -> (r: TwitterModifyTweetStreamRequest)
    ensures
        r.delete is None,
        r.add matches Some(rules) && rules@ == seq![TwitterTweetStreamAddRule { value, tag }],
{
    let mut rules: Vec<TwitterTweetStreamAddRule> = Vec::new();
    rules.push(TwitterTweetStreamAddRule { value, tag });
    TwitterModifyTweetStreamRequest { add: Some(rules), delete: None }
}

/// A request that deletes the one rule `rule_id`.
pub fn delete_rule_request(rule_id: String) -> (r: TwitterModifyTweetStreamRequest)
    ensures
        r.add is None,
        r.delete matches Some(d) && d.ids@ == seq![rule_id],
{
    let mut ids: Vec<String> = Vec::new();
    ids.push(rule_id);
    TwitterModifyTweetStreamRequest { add: None, delete: Some(TwitterTweetStreamDelete { ids }) }
}

/// Statuses whose reply body is read and decoded.
pub open spec fn status_has_body(status: u16) -> bool {
    status == 200 || status == 201 || status == 400
}

pub fn needs_body(status: u16) -> (r: bool)
    ensures
        r == status_has_body(status),
{
    status == 200 || status == 201 || status == 400
}

/// The reason phrase that the HTTP library gives a status code, or its
/// placeholder for a code it has none for.
pub uninterp spec fn status_reason(code: u16) -> Seq<char>;

/// Relies on reqwest::StatusCode (http's StatusCode): `from_u16` accepts every
/// code in 100..=999, and its `Display` writes the code in decimal, a space, and
/// `canonical_reason()` or a placeholder.
#[verifier::external_body]
fn status_display(code: u16) -> (r: String)
    requires
        100 <= code <= 999,
    ensures
        r@ == decimal(code as nat) + seq![' '] + status_reason(code),
{
    match reqwest::StatusCode::from_u16(code) {
        Ok(c) => c.to_string(),
        Err(_) => String::new(),
    }
}

/// The message of the error for a status that carries no body.
pub open spec fn status_message(status: u16, url: Seq<char>) -> Seq<char> {
    if status == 404 {
        "Not found (404) call to Twitter API:"@ + url
    } else if status == 401 {
        "Unauthorized (401) call to Twitter API."@
    } else {
        "Unexpected status code "@ + decimal(status as nat) + seq![' '] + status_reason(status)
    }
}

/// The error for a reply whose status carries no body; `url` is where the
/// request went.
pub fn status_error(status: u16, url: &str) -> (r: ErrorResponse)
    requires
        100 <= status <= 999,
        !status_has_body(status),
    ensures
        r.status_code == status,
        r.error@ == status_message(status, url@),
{
    let error = if status == 404 {
        let mut s = String::from_str("Not found (404) call to Twitter API:");
        s.append(url);
        s
    } else if status == 401 {
        String::from_str("Unauthorized (401) call to Twitter API.")
    } else {
        let mut s = String::from_str("Unexpected status code ");
        let line = status_display(status);
        s.append(line.as_str());
        proof {
            assert(s@ =~= "Unexpected status code "@ + decimal(status as nat) + seq![' '] + status_reason(status));
        }
        s
    };
    ErrorResponse { error, status_code: status }
}

/// The message that stands for the first upstream error record.
pub open spec fn api_error_message(e: TwitterApiError) -> Seq<char> {
    match e {
        TwitterApiError::Type1(t) => t.title@,
        TwitterApiError::Type2(t) => t.message@,
    }
}

/// What a decoded or undecodable body means: the data, or the error with its
/// message and status.
pub open spec fn body_meaning<T>(body: BodyOutcome<T>) -> Result<T, (Seq<char>, u16)> {
    match body {
        BodyOutcome::ReadFailed(e) => Err((e@, 500)),
        BodyOutcome::Unparsable(text) => Err(("Couldn't parse "@ + text@ + " to result"@, 500)),
        BodyOutcome::Parsed(TwitterResponse::Valid(v)) => Ok(v.data),
        BodyOutcome::Parsed(TwitterResponse::Error(e)) => if e.errors@.len() == 0 {
            Err(("An unknown twitter error occurred"@, 500))
        } else {
            Err((api_error_message(e.errors@[0]), 400))
        },
    }
}

/// Reads the body of a reply whose status carries one.
pub fn body_result<T>(body: BodyOutcome<T>) -> (r: Result<T, ErrorResponse>)
    ensures
        match (r, body_meaning(body)) {
            (Ok(d), Ok(e)) => d == e,
            (Err(d), Err((message, status))) => d.error@ == message && d.status_code == status,
            _ => false,
        },
{
    match body {
        BodyOutcome::ReadFailed(e) => Err(ErrorResponse { error: e, status_code: 500 }),
        BodyOutcome::Unparsable(text) => {
            let mut s = String::from_str("Couldn't parse ");
            s.append(text.as_str());
            s.append(" to result");
            Err(ErrorResponse { error: s, status_code: 500 })
        },
        BodyOutcome::Parsed(TwitterResponse::Valid(v)) => Ok(v.data),
        BodyOutcome::Parsed(TwitterResponse::Error(e)) => {
            if e.errors.len() == 0 {
                Err(ErrorResponse {
                    error: String::from_str("An unknown twitter error occurred"),
                    status_code: 500,
                })
            } else {
                let message = match &e.errors[0] {
                    TwitterApiError::Type1(t) => t.title.clone(),
                    TwitterApiError::Type2(t) => t.message.clone(),
                };
                Err(ErrorResponse { error: message, status_code: 400 })
            }
        },
    }
}

/// The decimal text of an upstream status, as error replies carry it.
pub fn status_code_text(status: u16) -> (r: String)
    ensures
        r@ == decimal(status as nat),
{
    decimal_string(status as u64)
}

} // verus!
