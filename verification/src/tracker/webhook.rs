//! Delivery decisions for alert webhooks.
//!
//! A payload is posted at most twice, two seconds apart. A response with
//! a 2xx status is a delivery; after the last attempt the error of that
//! attempt is reported.
use vstd::prelude::*;
use crate::text::{decimal, push_decimal, push_str, string_from};

verus! {

/// Number of attempts made to post one payload.
pub const MAX_ATTEMPTS: usize = 2;

/// Seconds waited between two attempts.
pub const RETRY_DELAY_SECONDS: u64 = 2;

/// Seconds after which one request is abandoned.
pub const REQUEST_TIMEOUT_SECONDS: u64 = 10;

/// Why a webhook delivery failed.
#[derive(Debug)]
pub enum WebhookError {
    /// The request could not be made; the message says why.
    Request(String),
    /// The webhook answered with a non-2xx status.
    Status(u16),
}

impl WebhookError {
    /// The message the error displays.
    pub open spec fn message(&self) -> Seq<char> {
        match self {
            WebhookError::Request(m) => "request failed: "@ + m@,
            WebhookError::Status(code) => "unexpected HTTP status: "@ + decimal(*code as nat),
        }
    }

    /// The message the error displays.
    pub fn to_text(&self) -> (res: String)
        ensures
            res@ == self.message(),
    {
        match self {
            WebhookError::Request(m) => {
                let mut t = string_from("request failed: ");
                push_str(&mut t, m.as_str());
                t
            },
            WebhookError::Status(code) => {
                let mut t = string_from("unexpected HTTP status: ");
                push_decimal(&mut t, *code as u64);
                t
            },
        }
    }
}

/// What one attempt to post a payload produced.
#[derive(Debug)]
pub enum SendOutcome {
    /// The webhook answered with this HTTP status.
    Answered(u16),
    /// The request failed; the message says why.
    RequestFailed(String),
}

/// What to do after an attempt.
#[derive(Debug)]
pub enum SendStep {
    /// The payload was accepted.
    Delivered,
    /// Wait this many seconds, then try again.
    RetryAfterSecs(u64),
    /// Stop; the delivery failed with this error.
    Failed(WebhookError),
}

/// Whether an HTTP status reports success (2xx).
pub open spec fn is_success(status: u16) -> bool {
    200 <= status <= 299
}

/// The decision after attempt `attempt` (counted from 1).
pub open spec fn send_step_spec(attempt: usize, outcome: SendOutcome) -> SendStep {
    match outcome {
        SendOutcome::Answered(code) => if is_success(code) {
            SendStep::Delivered
        } else if attempt < MAX_ATTEMPTS {
            SendStep::RetryAfterSecs(RETRY_DELAY_SECONDS)
        } else {
            SendStep::Failed(WebhookError::Status(code))
        },
        SendOutcome::RequestFailed(m) => if attempt < MAX_ATTEMPTS {
            SendStep::RetryAfterSecs(RETRY_DELAY_SECONDS)
        } else {
            SendStep::Failed(WebhookError::Request(m))
        },
    }
}

/// The decision after attempt `attempt` (counted from 1): a 2xx answer is
/// a delivery; any other outcome is retried after two seconds while
/// attempts remain, and otherwise fails with the error of this attempt.
pub fn send_step(attempt: usize, outcome: SendOutcome) -> (res: SendStep)
    requires
        1 <= attempt <= MAX_ATTEMPTS,
    ensures
        res == send_step_spec(attempt, outcome),
{
    match outcome {
        SendOutcome::Answered(code) => {
            if 200 <= code && code <= 299 {
                SendStep::Delivered
            } else if attempt < MAX_ATTEMPTS {
                SendStep::RetryAfterSecs(RETRY_DELAY_SECONDS)
            } else {
                SendStep::Failed(WebhookError::Status(code))
            }
        },
        SendOutcome::RequestFailed(m) => {
            if attempt < MAX_ATTEMPTS {
                SendStep::RetryAfterSecs(RETRY_DELAY_SECONDS)
            } else {
                SendStep::Failed(WebhookError::Request(m))
            }
        },
    }
}

/// Webhook law: every 2xx answer is a delivery on either attempt; any
/// other answer, or a failed request, is retried after two seconds on the
/// first attempt and reported, with that status or message, on the second.
pub proof fn lemma_send_outcomes(attempt: usize, code: u16, message: String)
    requires
        1 <= attempt <= 2,
    ensures
        200 <= code <= 299 ==> send_step_spec(attempt, SendOutcome::Answered(code)) == SendStep::Delivered,
        !(200 <= code <= 299) && attempt == 1 ==> send_step_spec(attempt, SendOutcome::Answered(code))
            == SendStep::RetryAfterSecs(2),
        !(200 <= code <= 299) && attempt == 2 ==> send_step_spec(attempt, SendOutcome::Answered(code))
            == SendStep::Failed(WebhookError::Status(code)),
        attempt == 1 ==> send_step_spec(attempt, SendOutcome::RequestFailed(message))
            == SendStep::RetryAfterSecs(2),
        attempt == 2 ==> send_step_spec(attempt, SendOutcome::RequestFailed(message))
            == SendStep::Failed(WebhookError::Request(message)),
{
}

} // verus!
