//! The mining loop: work is fetched from a node, searched, and what was
//! found is handed back, again and again. Fetching, searching, submitting
//! and waiting are the caller's; what comes next is decided here.

use crate::evaluator::Solution;
use crate::hexcode::{hex_encoded, InputError};
use crate::node_client::{MiningSubmission, MiningTemplate, SubmissionResponse};
use crate::target::Target;
use vstd::prelude::*;

verus! {

/// How long to wait, in milliseconds, before asking again for a template
/// that could not be fetched.
pub const RETRY_DELAY_MS: u64 = 5000;

/// How long to wait, in milliseconds, between one template and the next.
pub const NEXT_TEMPLATE_DELAY_MS: u64 = 500;

/// Where the loop stands.
#[derive(Clone, Copy, Debug, PartialEq, Eq, Structural)]
pub enum LoopState {
    /// A template has been asked for.
    Fetching,
    /// The last template could not be fetched; the loop waits to ask again.
    Retrying,
    /// The work of the template of this height and timestamp is searched.
    Mining { height: u64, timestamp: u64 },
    /// A solution is on its way to the node.
    Submitting,
    /// The loop waits before it asks for the next template.
    Pausing,
    /// A template had this defect: the loop has ended.
    Stopped(InputError),
}

/// What happened since the last step.
#[derive(Debug)]
pub enum LoopEvent {
    /// The node handed out a template.
    Template(MiningTemplate),
    /// The template could not be fetched.
    FetchFailed,
    /// The search ended, with a solution or with none.
    Mined(Option<Solution>),
    /// The node answered the submission.
    Submitted(SubmissionResponse),
    /// The submission could not be delivered.
    SubmitFailed,
    /// The wait is over.
    Waited,
}

/// What the caller is to do next.
#[derive(Debug)]
pub enum LoopAction {
    /// Ask the node for a template.
    Fetch,
    /// Wait this many milliseconds.
    Wait(u64),
    /// Search this work.
    Mine { header_prefix: Vec<u8>, target: Target },
    /// Hand this to the node.
    Submit(MiningSubmission),
    /// Give up: the template is defective.
    Abort(InputError),
}

/// The first step of the loop: a template is asked for.
pub fn begin() -> (next: (LoopState, LoopAction))
    ensures
        next.0 == LoopState::Fetching,
        next.1 == LoopAction::Fetch,
{
    (LoopState::Fetching, LoopAction::Fetch)
}

/// One step of the mining loop.
///
/// A template that was fetched is searched; one that could not be fetched
/// is asked for again after `RETRY_DELAY_MS`. A solution is submitted for
/// the height and timestamp of its template. Whether the node took it or
/// not, and also where nothing was found, the next template is asked for
/// after `NEXT_TEMPLATE_DELAY_MS`. A defective template ends the loop with
/// its defect: that is a mistake of configuration, which waiting does not
/// mend. An event that does not belong to the state is answered by asking
/// for a fresh template.
pub fn mine_loop(state: LoopState, event: LoopEvent, miner_address: &Option<String>) -> (next: (
    LoopState,
    LoopAction,
))
    ensures
        match (state, event) {
            (LoopState::Stopped(e), _) => next.0 == LoopState::Stopped(e) && next.1
                == LoopAction::Abort(e),
            (LoopState::Fetching, LoopEvent::Template(template)) => match template.defect() {
                Some(e) => next.0 == LoopState::Stopped(e) && next.1 == LoopAction::Abort(e),
                None => {
                    &&& next.0 == LoopState::Mining {
                        height: template.height,
                        timestamp: template.timestamp,
                    }
                    &&& next.1 matches LoopAction::Mine { header_prefix, target }
                    &&& template.has_work(header_prefix@, target)
                },
            },
            (LoopState::Fetching, LoopEvent::FetchFailed) => next.0 == LoopState::Retrying && next.1
                == LoopAction::Wait(RETRY_DELAY_MS),
            (LoopState::Retrying, LoopEvent::Waited) => next.0 == LoopState::Fetching && next.1
                == LoopAction::Fetch,
            (LoopState::Mining { height, timestamp }, LoopEvent::Mined(Some(solution))) => {
                &&& next.0 == LoopState::Submitting
                &&& next.1 matches LoopAction::Submit(submission)
                &&& submission.height == height
                &&& submission.timestamp == timestamp
                &&& submission.miner_address == *miner_address
                &&& submission.mutation_vector_hex@ == hex_encoded(solution.mutation_vector@)
            },
            (LoopState::Mining { height, timestamp }, LoopEvent::Mined(None)) => next.0
                == LoopState::Pausing && next.1 == LoopAction::Wait(NEXT_TEMPLATE_DELAY_MS),
            (LoopState::Submitting, LoopEvent::Submitted(_)) => next.0 == LoopState::Pausing
                && next.1 == LoopAction::Wait(NEXT_TEMPLATE_DELAY_MS),
            (LoopState::Submitting, LoopEvent::SubmitFailed) => next.0 == LoopState::Pausing
                && next.1 == LoopAction::Wait(NEXT_TEMPLATE_DELAY_MS),
            (LoopState::Pausing, LoopEvent::Waited) => next.0 == LoopState::Fetching && next.1
                == LoopAction::Fetch,
            _ => next.0 == LoopState::Fetching && next.1 == LoopAction::Fetch,
        },
{
    match (state, event) {
        (LoopState::Stopped(e), _) => (LoopState::Stopped(e), LoopAction::Abort(e)),
        (LoopState::Fetching, LoopEvent::Template(template)) => match template.work() {
            Ok(work) => (
                LoopState::Mining { height: template.height, timestamp: template.timestamp },
                LoopAction::Mine { header_prefix: work.0, target: work.1 },
            ),
            Err(e) => (LoopState::Stopped(e), LoopAction::Abort(e)),
        },
        (LoopState::Fetching, LoopEvent::FetchFailed) => (
            LoopState::Retrying,
            LoopAction::Wait(RETRY_DELAY_MS),
        ),
        (LoopState::Retrying, LoopEvent::Waited) => (LoopState::Fetching, LoopAction::Fetch),
        (LoopState::Mining { height, timestamp }, LoopEvent::Mined(Some(solution))) => {
            let address = match miner_address {
                Some(a) => Some(a.clone()),
                None => None,
            };
            (
                LoopState::Submitting,
                LoopAction::Submit(
                    MiningSubmission::for_solution(height, &solution, timestamp, address),
                ),
            )
        },
        (LoopState::Mining { height, timestamp }, LoopEvent::Mined(None)) => (
            LoopState::Pausing,
            LoopAction::Wait(NEXT_TEMPLATE_DELAY_MS),
        ),
        (LoopState::Submitting, LoopEvent::Submitted(_)) => (
            LoopState::Pausing,
            LoopAction::Wait(NEXT_TEMPLATE_DELAY_MS),
        ),
        (LoopState::Submitting, LoopEvent::SubmitFailed) => (
            LoopState::Pausing,
            LoopAction::Wait(NEXT_TEMPLATE_DELAY_MS),
        ),
        (LoopState::Pausing, LoopEvent::Waited) => (LoopState::Fetching, LoopAction::Fetch),
        _ => (LoopState::Fetching, LoopAction::Fetch),
    }
}

} // verus!
