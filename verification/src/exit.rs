//! How a program that was run ended, and what is said of it.

use vstd::prelude::*;
use vstd::string::StringExecFns;

use crate::text::refusal;

verus! {

/// How a program that was to be run ended.
#[derive(Debug)]
pub enum Exit {
    /// It could not be started, for this reason.
    NotStarted(String),
    Succeeded,
    /// It ended with this status, which is no success.
    Failed(String),
}

/// The message for a program that did not succeed: `start` and the reason if
/// it could not be started, `failure` and the status if it failed.
pub open spec fn exit_message(exit: Exit, start: Seq<char>, failure: Seq<char>) -> Option<
    Seq<char>,
> {
    match exit {
        Exit::NotStarted(reason) => Some(start + reason@),
        Exit::Succeeded => None,
        Exit::Failed(status) => Some(failure + status@),
    }
}

/// The outcome of a program that was run.
pub fn exit_outcome(exit: &Exit, start: &str, failure: &str) -> (outcome: Result<(), String>)
    ensures
        refusal(outcome) == exit_message(*exit, start@, failure@),
{
    match exit {
        Exit::NotStarted(reason) => {
            let mut message = start.to_owned();
            message.append(reason.as_str());
            Err(message)
        },
        Exit::Succeeded => Ok(()),
        Exit::Failed(status) => {
            let mut message = failure.to_owned();
            message.append(status.as_str());
            Err(message)
        },
    }
}

} // verus!
