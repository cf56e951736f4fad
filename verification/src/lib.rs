//! Verified core of a lead-generation pipeline over Hacker News job postings:
//! the decisions that the fetching program takes (which item ids to visit and
//! in which order, when to retry a failed request and how long to wait, which
//! fetched postings to keep), with the network left to the caller.
#![allow(unused_imports)]

use vstd::prelude::*;
use std::time::Duration;

pub mod text;
pub mod parse;
pub mod hn;
pub mod retry;
pub mod config;

pub use hn::{filter, HackerNewsItem, HackerNewsJob, HackerNewsJobStories, HackerNewsMaxItemId};
pub use parse::parse_timeout;
pub use config::{Command, Config};


verus! {

/// What is known of a failed HTTP exchange: the plain facts that decide
/// whether it is worth trying again, and the failure's message.
#[derive(Debug, Clone, PartialEq, Eq)]
pub struct NetworkFailure {
    /// The request timed out.
    pub timeout: bool,
    /// The connection could not be made.
    pub connect: bool,
    /// The request itself could not be sent.
    pub request: bool,
    /// The HTTP status of the answer, where one came back.
    pub status: Option<u16>,
    /// The failure, in words.
    pub message: String,
}

/// Errors that can occur during lead fetching and processing.
#[derive(Debug, Clone, PartialEq, Eq)]
pub enum LeadForgeError {
    /// A failure of the network or of the HTTP exchange.
    NetworkError(NetworkFailure),
}

/// A status that calls for another try: a server error (5xx) or rate
/// limiting (429).
pub open spec fn is_retryable_status(status: u16) -> bool {
    (500 <= status < 600) || status == 429
}

impl LeadForgeError {
    pub open spec fn spec_is_retryable(&self) -> bool {
        match self {
            LeadForgeError::NetworkError(f) => {
                ||| f.timeout
                ||| f.connect
                ||| f.request
                ||| (f.status matches Some(s) && is_retryable_status(s))
            },
        }
    }

    /// Returns `true` if the error is considered retryable: a timeout, a
    /// connection failure, a request-level failure, a server error (5xx) or
    /// rate limiting (429).
    pub fn is_retryable(&self) -> (r: bool)
        ensures
            r == self.spec_is_retryable(),
            match self {
                LeadForgeError::NetworkError(f) => r == (f.timeout || f.connect || f.request || (
                f.status matches Some(s) && ((500 <= s && s < 600) || s == 429))),
            },
    {
        match self {
            LeadForgeError::NetworkError(f) => {
                let by_status = match f.status {
                    Some(s) => (500 <= s && s < 600) || s == 429,
                    None => false,
                };
                f.timeout || f.connect || f.request || by_status
            },
        }
    }

    /// The error's message, as it is shown to the user.
    pub fn message(&self) -> (m: &str)
        ensures
            match self {
                LeadForgeError::NetworkError(f) => m@ == f.message@,
            },
    {
        match self {
            LeadForgeError::NetworkError(f) => f.message.as_str(),
        }
    }
}

/// Which failures are transient: exactly timeouts, connection failures,
/// request failures, and answers with a server-error status (500 to 599) or
/// the rate-limit status 429; every other status, and no status, is not.
pub proof fn lemma_retryable_rule(f: NetworkFailure)
    ensures
        LeadForgeError::NetworkError(f).spec_is_retryable() == (f.timeout || f.connect || f.request
            || (f.status matches Some(s) && ((500 <= s && s < 600) || s == 429))),
        forall|s: u16|
            #![trigger is_retryable_status(s)]
            is_retryable_status(s) <==> ((500 <= s && s < 600) || s == 429),
{
}

/// A status alone decides: a failure that is neither a timeout nor a
/// connection or request failure is retryable exactly when its status is a
/// server error (5xx) or 429; in particular every 5xx status is retried.
pub proof fn lemma_status_only_failures(f: NetworkFailure, status: u16)
    ensures
        !f.timeout && !f.connect && !f.request && f.status == Some(status) ==> LeadForgeError::NetworkError(f).spec_is_retryable() == ((500 <= status && status < 600) || status == 429),
        !f.timeout && !f.connect && !f.request && f.status is None ==> !LeadForgeError::NetworkError(f).spec_is_retryable(),
{
}

/// High-level command describing what data to fetch.
#[derive(Debug, PartialEq, Eq)]
pub enum LeadForgeCommand {
    /// Fetch job postings from Hacker News.
    HackerNews {
        limit: usize,
        max_concurrency: usize,
        max_retries: usize,
        timeout: Duration,
        keyword: Option<String>,
    },
}

} // verus!
