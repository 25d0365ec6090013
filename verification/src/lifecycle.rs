//! What the two worker handles share: how a start is decided and how the
//! death of a worker thread is reported.
//!
//! A handle owns at most one thread and one end of each channel. It never
//! touches the thread itself: where a thread is to be spawned or joined it
//! says so, and the caller does it.

use vstd::prelude::*;
use crate::protocol::Polled;

verus! {

/// Why a worker was not started. No thread was spawned.
#[derive(Debug, Clone, Copy, PartialEq, Eq, Structural)]
pub enum StartError {
    /// There is no model file at the configured path.
    ModelNotFound,
}

/// What the caller does to complete a start.
#[derive(Debug, Clone, Copy, PartialEq, Eq, Structural)]
pub enum StartAction {
    /// The worker is alive already: there is nothing to do.
    AlreadyAlive,
    /// Open the channels, spawn the thread and attach both to the handle.
    Spawn,
}

/// The response channel has closed: the worker thread is dead. The handle
/// has been reset; `handle` is the dead thread's, for the caller to join.
#[derive(Debug, PartialEq, Eq)]
pub struct Disconnected<H> {
    pub handle: H,
}

/// What a handle that holds `thread` makes of `found`, the outcome of one
/// look at the response channel: the thread it holds afterwards, and the
/// answer to the caller. A message is passed on; a disconnected channel
/// costs the handle its thread, which goes into the answer.
pub open spec fn poll_result<H, R>(thread: Option<H>, found: Polled<R>) -> (
    Option<H>,
    Option<Result<R, Disconnected<H>>>,
) {
    match (thread, found) {
        (None, _) => (None, None),
        (Some(_), Polled::Empty) => (thread, None),
        (Some(_), Polled::Message(response)) => (thread, Some(Ok(response))),
        (Some(handle), Polled::Disconnected) => (None, Some(Err(Disconnected { handle }))),
    }
}

/// How a start is decided: a worker that is alive needs nothing, and a
/// worker whose model is missing is not started.
pub open spec fn start_plan(alive: bool, model_found: bool) -> Result<StartAction, StartError> {
    if alive {
        Ok(StartAction::AlreadyAlive)
    } else if !model_found {
        Err(StartError::ModelNotFound)
    } else {
        Ok(StartAction::Spawn)
    }
}

/// Decides a start from whether the worker is alive and whether its model
/// was found.
pub fn plan_start(alive: bool, model_found: bool) -> (plan: Result<StartAction, StartError>)
    ensures
        plan == start_plan(alive, model_found),
{
    if alive {
        Ok(StartAction::AlreadyAlive)
    } else if !model_found {
        Err(StartError::ModelNotFound)
    } else {
        Ok(StartAction::Spawn)
    }
}

impl StartError {
    /// The error in words.
    pub fn message(&self) -> (text: &'static str)
        ensures
            text@ == "Model not found"@,
    {
        match self {
            StartError::ModelNotFound => "Model not found",
        }
    }
}

/// Idempotent start: a worker that is alive is never started again,
/// whatever its configuration has become, and the call succeeds.
pub proof fn law_start_is_idempotent(model_found: bool)
    ensures
        start_plan(true, model_found) == Ok::<StartAction, StartError>(StartAction::AlreadyAlive),
{
}

/// A worker whose model is missing is not started, and a spawn is asked
/// for only where none is alive and the model is there.
pub proof fn law_start_validates_first(alive: bool, model_found: bool)
    ensures
        !alive && !model_found ==> start_plan(alive, model_found) == Err::<
            StartAction,
            StartError,
        >(StartError::ModelNotFound),
        start_plan(alive, model_found) == Ok::<StartAction, StartError>(StartAction::Spawn)
            <==> !alive && model_found,
{
}

} // verus!
