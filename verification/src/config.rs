//! The command line, as data: the chosen subcommand and its options, and
//! the library command that each one stands for.

use vstd::prelude::*;
use std::time::Duration;
use crate::LeadForgeCommand;

verus! {

/// The parsed command line.
#[derive(Debug, PartialEq, Eq)]
pub struct Config {
    pub command: Command,
}

/// The subcommands of the command line.
#[derive(Debug, PartialEq, Eq)]
pub enum Command {
    /// Fetch Hacker News job postings with concurrent requests and keyword
    /// filtering.
    HackerNews {
        /// Number of job postings to return.
        limit: usize,
        /// Number of concurrent connections.
        max_concurrency: usize,
        /// Number of retry attempts per request on transient failures.
        max_retries: usize,
        /// Request timeout (applies per HTTP request).
        timeout: Duration,
        /// Filter results by keyword in the job title (case-insensitive).
        keyword: Option<String>,
    },
}

/// The library command that a subcommand stands for: the same options,
/// moved over unchanged.
pub open spec fn command_of(value: Command) -> LeadForgeCommand {
    match value {
        Command::HackerNews { limit, max_concurrency, max_retries, timeout, keyword } =>
            LeadForgeCommand::HackerNews { limit, max_concurrency, max_retries, timeout, keyword },
    }
}

/// The conversion keeps every option: the library command has the same
/// limit, concurrency, retry count, timeout and keyword as the subcommand.
pub proof fn lemma_command_keeps_options(value: Command)
    ensures
        ({
            let Command::HackerNews { limit, max_concurrency, max_retries, timeout, keyword } =
                value;
            &&& command_of(value) matches LeadForgeCommand::HackerNews {
                limit: l,
                max_concurrency: c,
                max_retries: m,
                timeout: t,
                keyword: k,
            } && l == limit && c == max_concurrency && m == max_retries && t == timeout && k
                == keyword
        }),
{
}

impl From<Command> for LeadForgeCommand {
    fn from(value: Command) -> (r: Self)
        ensures
            ({
                let Command::HackerNews { limit, max_concurrency, max_retries, timeout, keyword } =
                    value;
                &&& r matches LeadForgeCommand::HackerNews {
                    limit: l,
                    max_concurrency: c,
                    max_retries: m,
                    timeout: t,
                    keyword: k,
                } && l == limit && c == max_concurrency && m == max_retries && t == timeout && k
                    == keyword
            }),
    {
        match value {
            Command::HackerNews { limit, max_concurrency, max_retries, timeout, keyword } =>
                LeadForgeCommand::HackerNews { limit, max_concurrency, max_retries, timeout, keyword },
        }
    }
}

impl vstd::std_specs::convert::FromSpecImpl<Command> for LeadForgeCommand {
    open spec fn obeys_from_spec() -> bool {
        true
    }

    open spec fn from_spec(v: Command) -> LeadForgeCommand {
        command_of(v)
    }
}

} // verus!
