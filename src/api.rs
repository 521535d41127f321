//! The JSON body and HTTP status of the subject-lookup endpoint.

use vstd::prelude::*;
use vstd::string::StringExecFns;

use crate::twitter::{ErrorResponse, TwitterApiError, TwitterResponse};

verus! {

#[derive(Debug, Clone, PartialEq, Eq)]
pub struct ApiErrorResponse {
    pub status: u16,
    pub message: String,
}

/// The body of an endpoint reply: an error record or the result itself.
#[derive(Debug, Clone, PartialEq, Eq)]
pub enum ApiJsonResult<TResult> {
    Error(ApiErrorResponse),
    Success(TResult),
}

/// The message an upstream error record contributes to an endpoint error:
/// the detail where there is one, else the title; or the message.
pub open spec fn api_record_message(e: TwitterApiError) -> Seq<char> {
    match e {
        TwitterApiError::Type1(t) => match t.detail {
            Some(d) => d@,
            None => t.title@,
        },
        TwitterApiError::Type2(t) => t.message@,
    }
}

/// The endpoint's reply for an upstream outcome: its body and HTTP status.
/// Data is returned with 200; every failure is a 400 whose record carries the
/// upstream status where there was one.
pub fn api_json_result<T>(response: Result<TwitterResponse<T>, ErrorResponse>) -> (r: (ApiJsonResult<T>, u16))
    ensures
        match response {
            Ok(TwitterResponse::Valid(v)) => r.0 == ApiJsonResult::Success(v.data) && r.1 == 200,
            Ok(TwitterResponse::Error(e)) => r.1 == 400 && (r.0 matches ApiJsonResult::Error(a) && a.status == 400
                && a.message@ == (if e.errors@.len() == 0 {
                    "Unknown twitter error"@
                } else {
                    api_record_message(e.errors@[0])
                })),
            Err(e) => r.1 == 400 && r.0 == ApiJsonResult::<T>::Error(ApiErrorResponse { status: e.status_code, message: e.error }),
        },
{
    match response {
        Ok(TwitterResponse::Valid(v)) => (ApiJsonResult::Success(v.data), 200),
        Ok(TwitterResponse::Error(e)) => {
            let message = if e.errors.len() == 0 {
                String::from_str("Unknown twitter error")
            } else {
                match &e.errors[0] {
                    TwitterApiError::Type1(t) => match &t.detail {
                        Some(d) => d.clone(),
                        None => t.title.clone(),
                    },
                    TwitterApiError::Type2(t) => t.message.clone(),
                }
            };
            (ApiJsonResult::Error(ApiErrorResponse { status: 400, message }), 400)
        },
        Err(e) => (ApiJsonResult::Error(ApiErrorResponse { status: e.status_code, message: e.error }), 400),
    }
}

} // verus!
