//! Requests that are sent one after the other, until one fails.

use vstd::prelude::*;

use crate::online::error::OnlineError;

verus! {

/// What to do next with a row of requests.
#[derive(Debug)]
pub enum SendStep {
    /// Send the request at this place.
    Send(usize),
    /// All went through.
    Done,
    /// One failed: the rest is not sent.
    Failed(OnlineError),
}

/// What to do first with `n` requests.
pub open spec fn first_send(n: usize) -> SendStep {
    if n > 0 {
        SendStep::Send(0)
    } else {
        SendStep::Done
    }
}

/// What to do once the request at `at` of `n` was sent.
pub open spec fn send_after(at: usize, n: usize, outcome: Result<(), OnlineError>) -> SendStep {
    match outcome {
        Ok(_) => if at + 1 < n {
            SendStep::Send((at + 1) as usize)
        } else {
            SendStep::Done
        },
        Err(e) => SendStep::Failed(e),
    }
}

pub fn start_sending(n: usize) -> (s: SendStep)
    ensures
        s == first_send(n),
{
    if n > 0 {
        SendStep::Send(0)
    } else {
        SendStep::Done
    }
}

pub fn sent(at: usize, n: usize, outcome: Result<(), OnlineError>) -> (s: SendStep)
    requires
        at < n,
    ensures
        s == send_after(at, n, outcome),
{
    match outcome {
        Ok(_) => if at + 1 < n {
            SendStep::Send(at + 1)
        } else {
            SendStep::Done
        },
        Err(e) => SendStep::Failed(e),
    }
}

/// Where sending the requests from `at` on ends, when these are their outcomes.
pub open spec fn sending_ends(
    outcomes: Seq<Result<(), OnlineError>>,
    n: usize,
    at: usize,
) -> SendStep
    decreases n - at,
{
    if at >= n {
        first_send(0)
    } else {
        match send_after(at, n, outcomes[at as int]) {
            SendStep::Send(next) => if next > at {
                sending_ends(outcomes, n, next)
            } else {
                SendStep::Send(next)
            },
            end => end,
        }
    }
}

/// Requests are sent in order until one fails: its error is the result, and
/// what the later ones would have come to does not matter. Where none fails,
/// all are sent.
pub proof fn sending_stops_at_the_first_failure(
    outcomes: Seq<Result<(), OnlineError>>,
    n: usize,
    failed: int,
)
    requires
        outcomes.len() == n,
        0 <= failed <= n,
        forall|i: int| 0 <= i < failed ==> (#[trigger] outcomes[i]) is Ok,
        failed < n ==> outcomes[failed] is Err,
    ensures
        sending_ends(outcomes, n, 0) == (if failed < n {
            SendStep::Failed(outcomes[failed]->Err_0)
        } else {
            SendStep::Done
        }),
{
    lemma_sending_from(outcomes, n, 0, failed);
}

proof fn lemma_sending_from(
    outcomes: Seq<Result<(), OnlineError>>,
    n: usize,
    at: usize,
    failed: int,
)
    requires
        outcomes.len() == n,
        at <= failed <= n,
        forall|i: int| 0 <= i < failed ==> (#[trigger] outcomes[i]) is Ok,
        failed < n ==> outcomes[failed] is Err,
    ensures
        sending_ends(outcomes, n, at) == (if failed < n {
            SendStep::Failed(outcomes[failed]->Err_0)
        } else {
            SendStep::Done
        }),
    decreases n - at,
{
    if at < failed && at + 1 < n {
        assert(outcomes[at as int] is Ok);
        lemma_sending_from(outcomes, n, (at + 1) as usize, failed);
    }
}

} // verus!
