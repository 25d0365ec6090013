//! The vocabulary exchanged between a caller and a generation worker.
//!
//! Pure data: every value is owned, so a message can cross a thread
//! boundary and an echoed command can be sent again as it is.

use vstd::prelude::*;

verus! {

/// What a loaded model offers.
#[derive(Debug, Clone, Copy, PartialEq, Eq)]
pub struct Capabilities {
    /// The largest context, in tokens, the model can be run with.
    pub max_context_size: usize,
}

/// A message from the caller to the worker. `O` is the backend's own
/// generation options; the worker carries them and never looks inside.
#[derive(Debug, Clone, PartialEq, Eq)]
pub enum Command<O> {
    /// Cancel any generation in flight. The worker stays alive.
    Stop,
    /// Continue `text` under `opts`.
    Predict { text: String, opts: O },
    /// Swap the active model for the one at `path`.
    LoadModel { path: String },
    /// Ask for the catalog of models the service offers.
    FetchModels,
}

/// A message from the worker to the caller.
#[derive(Debug, Clone, PartialEq, Eq)]
pub enum Response<O> {
    /// One more unit of generated text.
    Predicted { piece: String },
    /// The current request is over, or a stop was acknowledged; the worker
    /// is ready for the next command.
    Done,
    /// The worker was generating and could not act on `command`, which
    /// comes back as it was sent.
    Busy { command: Command<O> },
    /// Something failed; the worker is still alive and idle.
    Error { detail: String },
    /// The model at `path` is now the active one.
    LoadedModel { path: String, capabilities: Capabilities },
    /// The models the service offers.
    Models { models: Vec<String> },
}

/// A command that could not be delivered, handed back whole.
#[derive(Debug, Clone, PartialEq, Eq)]
pub struct SendError<O> {
    pub command: Command<O>,
}

/// What one look at a channel found.
#[derive(Debug, Clone, PartialEq, Eq)]
pub enum Polled<T> {
    /// Nothing is queued; the other side is still there.
    Empty,
    /// The oldest queued message.
    Message(T),
    /// Nothing is queued and the other side is gone.
    Disconnected,
}

/// Whether `outcome` is something that a send of `command` can come to:
/// the command was delivered, or it came back as it was.
pub open spec fn sending<O>(command: Command<O>, outcome: Result<(), Command<O>>) -> bool {
    outcome matches Err(back) ==> back == command
}

/// What the caller is told of a send that came to `outcome`: nothing, or
/// the command that was not delivered.
pub open spec fn reported<O>(outcome: Result<(), Command<O>>) -> Result<(), SendError<O>> {
    match outcome {
        Ok(()) => Ok(()),
        Err(command) => Err(SendError { command }),
    }
}

/// Tells the caller what a send came to.
pub fn report<O>(outcome: Result<(), Command<O>>) -> (sent: Result<(), SendError<O>>)
    ensures
        sent == reported(outcome),
{
    match outcome {
        Ok(()) => Ok(()),
        Err(command) => Err(SendError { command }),
    }
}

impl<O> Command<O> {
    /// Whether this is the one command that interrupts a generation.
    pub fn is_stop(&self) -> (r: bool)
        ensures
            r == (self is Stop),
    {
        match self {
            Command::Stop => true,
            _ => false,
        }
    }

    /// Whether this command opens a new request.
    pub fn is_predict(&self) -> (r: bool)
        ensures
            r == (self is Predict),
    {
        match self {
            Command::Predict { .. } => true,
            _ => false,
        }
    }
}

impl<O> Response<O> {
    /// Whether this response carries generated text.
    pub fn is_predicted(&self) -> (r: bool)
        ensures
            r == (self is Predicted),
    {
        match self {
            Response::Predicted { .. } => true,
            _ => false,
        }
    }

    /// Whether this response tells the caller that the worker is idle
    /// again: the end of a request, or a failure.
    pub fn is_terminal(&self) -> (r: bool)
        ensures
            r == (self is Done || self is Error),
    {
        match self {
            Response::Done => true,
            Response::Error { .. } => true,
            _ => false,
        }
    }
}

} // verus!
