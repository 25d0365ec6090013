//! The handle of a worker that runs a local inference engine.
//!
//! The engine blocks while it computes, so it lives on a thread of its own
//! and is reached over two unbounded, strictly ordered channels: commands
//! in, responses out. This module holds the caller's side of that
//! arrangement and what the worker decides about its engine's context.

use vstd::prelude::*;
use std::sync::mpsc::{Receiver, Sender};
use crate::generation::{
    arrives, directive_after, next_phase, redraw_after, Directive, Event, GenerationLoop, Phase,
    Redraw,
};
use crate::lifecycle::{plan_start, start_plan, Disconnected, StartAction, StartError};
use crate::protocol::{report, reported, sending, Command, Polled, Response, SendError};

verus! {

/// The context, in tokens, that an engine is created with when nothing
/// asks for more.
pub const DEFAULT_CONTEXT: u32 = 512;

/// The seed that is used where a fixed one is wanted and none was chosen.
pub const DEFAULT_SEED: u128 = 1337;

/// The least context that the settings keep for a request.
pub const MIN_CONTEXT: usize = 256;

/// The options of one request to the local engine. `S` is the sampling
/// configuration, which only the engine reads.
#[derive(Debug, Clone, PartialEq, Eq)]
pub struct PredictOptions<S> {
    /// The token budget: the context the request needs.
    pub n: usize,
    /// The seed of the sampler, or `None` for a random one.
    pub seed: Option<u128>,
    /// Token sequences that end the generation.
    pub stop_sequences: Vec<Vec<i32>>,
    /// Strings that end the generation.
    pub stop_strings: Vec<String>,
    /// How tokens are sampled.
    pub sampling: S,
}

/// The context that the settings keep when the user asks for `n` tokens
/// and the model can be run with `max_context_size`: no more than the
/// model allows, and no less than the least that is kept.
pub open spec fn kept_context(n: usize, max_context_size: usize) -> usize {
    let capped = if n <= max_context_size {
        n
    } else {
        max_context_size
    };
    if capped >= MIN_CONTEXT {
        capped
    } else {
        MIN_CONTEXT
    }
}

/// Whether the first of `strings` is a line break.
pub open spec fn newline_first(strings: Seq<String>) -> bool {
    strings.len() > 0 && strings[0]@ == "\n"@
}

impl<S> PredictOptions<S> {
    /// The options that a backend starts with.
    pub fn new(sampling: S) -> (options: Self)
        ensures
            options.n == DEFAULT_CONTEXT,
            options.seed == Some(DEFAULT_SEED),
            options.stop_sequences@.len() == 0,
            options.stop_strings@.len() == 0,
            options.sampling == sampling,
    {
        PredictOptions {
            n: DEFAULT_CONTEXT as usize,
            seed: Some(DEFAULT_SEED),
            stop_sequences: Vec::new(),
            stop_strings: Vec::new(),
            sampling,
        }
    }

    /// Sets the token budget to what the user asks for, as far as the
    /// model allows.
    pub fn set_context(&mut self, n: usize, max_context_size: usize)
        ensures
            final(self).n == kept_context(n, max_context_size),
            final(self).seed == old(self).seed,
            final(self).stop_sequences == old(self).stop_sequences,
            final(self).stop_strings == old(self).stop_strings,
            final(self).sampling == old(self).sampling,
    {
        let capped = if n <= max_context_size {
            n
        } else {
            max_context_size
        };
        self.n = if capped >= MIN_CONTEXT {
            capped
        } else {
            MIN_CONTEXT
        };
    }

    /// Whether the generation stops at the end of a line: whether the
    /// first stop string is a line break.
    pub fn stops_at_newline(&self) -> (stops: bool)
        ensures
            stops == newline_first(self.stop_strings@),
    {
        self.stop_strings.len() > 0 && crate::text::reads(&self.stop_strings[0], "\n")
    }

    /// Makes the generation stop at the end of a line, or not. The line
    /// break is kept as the first stop string; the others stay as they
    /// are.
    pub fn set_stop_at_newline(&mut self, stops: bool)
        ensures
            final(self).n == old(self).n,
            final(self).seed == old(self).seed,
            final(self).stop_sequences == old(self).stop_sequences,
            final(self).sampling == old(self).sampling,
            newline_first(old(self).stop_strings@) == stops ==> final(self).stop_strings@ == old(
                self,
            ).stop_strings@,
            !newline_first(old(self).stop_strings@) && stops ==> newline_first(
                final(self).stop_strings@,
            ) && final(self).stop_strings@.drop_first() == old(self).stop_strings@,
            newline_first(old(self).stop_strings@) && !stops ==> final(self).stop_strings@ == old(
                self,
            ).stop_strings@.drop_first(),
    {
        let was = self.stops_at_newline();
        if was != stops {
            if stops {
                self.stop_strings.insert(0, crate::text::owned("\n"));
                proof {
                    assert(self.stop_strings@.drop_first() =~= old(self).stop_strings@);
                }
            } else {
                self.stop_strings.remove(0);
                proof {
                    assert(self.stop_strings@ =~= old(self).stop_strings@.drop_first());
                }
            }
        }
    }
}

/// `std::sync::mpsc::Sender`, the sending end of a channel. Nothing is
/// known of what is inside.
#[verifier::external_type_specification]
#[verifier::external_body]
#[verifier::reject_recursive_types(T)]
pub struct ExSender<T>(Sender<T>);

/// `std::sync::mpsc::Receiver`, the receiving end of a channel. Nothing
/// is known of what is inside.
#[verifier::external_type_specification]
#[verifier::external_body]
#[verifier::reject_recursive_types(T)]
pub struct ExReceiver<T>(Receiver<T>);

/// `std::sync::mpsc::channel`: a new unbounded channel. Nothing is claimed
/// of the two ends.
#[verifier::external_body]
fn open_channel<T>() -> (ends: (Sender<T>, Receiver<T>)) {
    std::sync::mpsc::channel()
}

/// `Sender::send`: never blocks. The claim is the documented one about
/// failure: an `Err` hands back the very message that was to be sent.
/// Whether the send succeeds depends on the receiving thread, so nothing
/// is claimed about that.
#[verifier::external_body]
fn send<T>(to: &Sender<T>, message: T) -> (sent: Result<(), T>)
    ensures
        sent matches Err(back) ==> back == message,
{
    to.send(message).map_err(|error| error.0)
}

/// `Receiver::recv`: blocks until a message arrives; `None` once the
/// channel is empty and every sender is gone. What arrives depends on the
/// sending thread, so nothing is claimed of the result.
#[verifier::external_body]
fn receive<T>(from: &Receiver<T>) -> (found: Option<T>) {
    from.recv().ok()
}

/// Sends `command` to the worker and tells what the send came to: the
/// command was delivered, or it comes back in the error as it was. Which
/// of the two is for the channel to decide.
fn deliver<O>(to_worker: &Sender<Command<O>>, command: Command<O>) -> (sent: Result<
    (),
    SendError<O>,
>)
    ensures
        exists|outcome: Result<(), Command<O>>|
            sending(command, outcome) && sent == #[trigger] reported(outcome),
        sent matches Err(error) ==> error.command == command,
{
    let outcome = send(to_worker, command);
    report(outcome)
}

/// `Receiver::try_recv`: never blocks. What it finds depends on the
/// sending thread, so nothing is claimed of the result.
#[verifier::external_body]
fn poll<T>(from: &Receiver<T>) -> (found: Polled<T>) {
    match from.try_recv() {
        Ok(message) => Polled::Message(message),
        Err(std::sync::mpsc::TryRecvError::Empty) => Polled::Empty,
        Err(std::sync::mpsc::TryRecvError::Disconnected) => Polled::Disconnected,
    }
}

/// The context to create a new engine with when the loaded one, of
/// `capacity` tokens, is too small for a request of `budget` tokens; `None`
/// when the loaded engine will do.
pub open spec fn enlarged_context(capacity: u32, budget: usize) -> Option<u32> {
    if budget <= capacity {
        None
    } else if budget <= DEFAULT_CONTEXT {
        Some(DEFAULT_CONTEXT)
    } else if budget <= u32::MAX {
        Some(budget as u32)
    } else {
        Some(u32::MAX)
    }
}

/// Decides whether the engine must be recreated before a request of
/// `budget` tokens, and with what context.
///
/// A new context is never smaller than the default and, as far as a
/// context can be, never smaller than the budget.
pub fn context_for(capacity: u32, budget: usize) -> (context: Option<u32>)
    ensures
        context == enlarged_context(capacity, budget),
        context matches Some(c) ==> c >= capacity && c >= DEFAULT_CONTEXT && (c >= budget || c
            == u32::MAX),
{
    if budget <= capacity as usize {
        None
    } else if budget <= DEFAULT_CONTEXT as usize {
        Some(DEFAULT_CONTEXT)
    } else if budget <= u32::MAX as usize {
        Some(budget as u32)
    } else {
        Some(u32::MAX)
    }
}

/// The two ends of one channel.
#[verifier::reject_recursive_types(T)]
pub struct Channel<T> {
    pub sender: Sender<T>,
    pub receiver: Receiver<T>,
}

/// The channels of one worker: commands to it, responses from it.
#[verifier::reject_recursive_types(S)]
pub struct Channels<S> {
    pub commands: Channel<Command<PredictOptions<S>>>,
    pub responses: Channel<Response<PredictOptions<S>>>,
}

/// Opens the two channels of a worker. Both are unbounded and deliver in
/// the order of sending.
pub fn open_channels<S>() -> (channels: Channels<S>) {
    let (to_worker, from_main) = open_channel();
    let (to_main, from_worker) = open_channel();
    Channels {
        commands: Channel { sender: to_worker, receiver: from_main },
        responses: Channel { sender: to_main, receiver: from_worker },
    }
}

/// What a live worker consists of, seen from the caller.
#[verifier::reject_recursive_types(S)]
struct Running<H, S> {
    handle: H,
    to_worker: Sender<Command<PredictOptions<S>>>,
    from_worker: Receiver<Response<PredictOptions<S>>>,
}

/// The caller's handle of a local worker. `H` is the handle of the
/// worker's thread.
///
/// The thread handle and the two channel ends are there together or not at
/// all.
#[verifier::reject_recursive_types(S)]
pub struct Worker<H, S> {
    running: Option<Running<H, S>>,
}

impl<H, S> Worker<H, S> {
    /// The handle of the worker's thread, while there is one.
    pub closed spec fn thread(self) -> Option<H> {
        match self.running {
            Some(running) => Some(running.handle),
            None => None,
        }
    }

    /// The sending end of the command channel, while there is one.
    pub closed spec fn commands(self) -> Option<Sender<Command<PredictOptions<S>>>> {
        match self.running {
            Some(running) => Some(running.to_worker),
            None => None,
        }
    }

    /// The receiving end of the response channel, while there is one.
    pub closed spec fn responses(self) -> Option<Receiver<Response<PredictOptions<S>>>> {
        match self.running {
            Some(running) => Some(running.from_worker),
            None => None,
        }
    }

    /// A worker is alive exactly while it holds a thread handle.
    pub open spec fn alive(self) -> bool {
        self.thread() is Some
    }

    /// The handle holds a channel end only while it holds a thread.
    pub proof fn lemma_channels_follow_thread(self)
        ensures
            self.alive() <==> self.commands() is Some,
            self.alive() <==> self.responses() is Some,
    {
    }

    /// An idle handle: no thread, no channels.
    pub fn new() -> (worker: Self)
        ensures
            !worker.alive(),
    {
        Worker { running: None }
    }

    /// Whether the worker is alive.
    pub fn is_alive(&self) -> (alive: bool)
        ensures
            alive == self.alive(),
    {
        self.running.is_some()
    }

    /// Decides a start. `model_found` says whether the model file exists.
    ///
    /// A worker that is alive is left alone and the call succeeds. A worker
    /// whose model is missing is refused. Otherwise the caller is to spawn
    /// the thread and hand it over with `attach`.
    pub fn start(&self, model_found: bool) -> (plan: Result<StartAction, StartError>)
        ensures
            plan == start_plan(self.alive(), model_found),
    {
        plan_start(self.is_alive(), model_found)
    }

    /// Takes over a freshly spawned thread and the caller's ends of its
    /// channels. A handle that is alive keeps what it has and hands the
    /// three back.
    pub fn attach(
        &mut self,
        handle: H,
        to_worker: Sender<Command<PredictOptions<S>>>,
        from_worker: Receiver<Response<PredictOptions<S>>>,
    ) -> (refused: Option<
        (H, Sender<Command<PredictOptions<S>>>, Receiver<Response<PredictOptions<S>>>),
    >)
        ensures
            old(self).alive() ==> *final(self) == *old(self) && refused == Some(
                (handle, to_worker, from_worker),
            ),
            !old(self).alive() ==> refused is None && final(self).thread() == Some(handle)
                && final(self).commands() == Some(to_worker) && final(self).responses() == Some(
                from_worker,
            ),
    {
        if self.running.is_some() {
            Some((handle, to_worker, from_worker))
        } else {
            self.running = Some(Running { handle, to_worker, from_worker });
            None
        }
    }

    /// Asks the worker to end the generation in flight. Does not block and
    /// does not end the worker; the generation ends at its next checkpoint.
    ///
    /// With no worker there is nothing to stop and the call succeeds. An
    /// error means that the worker thread is gone; it carries the `Stop`.
    pub fn stop(&mut self) -> (sent: Result<(), SendError<PredictOptions<S>>>)
        ensures
            *final(self) == *old(self),
            !old(self).alive() ==> sent is Ok,
            old(self).alive() ==> exists|outcome: Result<(), Command<PredictOptions<S>>>|
                sending(Command::Stop, outcome) && sent == #[trigger] reported(outcome),
            sent matches Err(error) ==> error.command == Command::<PredictOptions<S>>::Stop,
    {
        match &self.running {
            Some(running) => deliver(&running.to_worker, Command::Stop),
            None => Ok(()),
        }
    }

    /// Sends a request to continue `text` under `options`. Does not block.
    ///
    /// Fails if the worker is not alive or its thread is gone. Either way
    /// the error carries the request that was not delivered, whole.
    pub fn predict(&mut self, text: String, options: PredictOptions<S>) -> (sent: Result<
        (),
        SendError<PredictOptions<S>>,
    >)
        ensures
            *final(self) == *old(self),
            !old(self).alive() ==> sent is Err,
            sent matches Err(error) ==> error.command == (Command::Predict {
                text,
                opts: options,
            }),
    {
        let command = Command::Predict { text, opts: options };
        match &self.running {
            Some(running) => deliver(&running.to_worker, command),
            None => Err(SendError { command }),
        }
    }

    /// Asks the worker to swap its model for the one at `path`. Does not
    /// block. The worker answers with `LoadedModel` or `Error`, or with
    /// `Busy` if it is generating.
    ///
    /// Fails if the worker is not alive or its thread is gone. Either way
    /// the error carries the command that was not delivered.
    pub fn load_model(&mut self, path: String) -> (sent: Result<(), SendError<PredictOptions<S>>>)
        ensures
            *final(self) == *old(self),
            !old(self).alive() ==> sent is Err,
            sent matches Err(error) ==> error.command == (Command::<
                PredictOptions<S>,
            >::LoadModel { path }),
    {
        let command = Command::LoadModel { path };
        match &self.running {
            Some(running) => deliver(&running.to_worker, command),
            None => Err(SendError { command }),
        }
    }

    /// What a handle in state `self` makes of `found`, the outcome of one
    /// look at the response channel: the handle afterwards and the answer
    /// to the caller.
    pub open spec fn after_poll(self, found: Polled<Response<PredictOptions<S>>>) -> (Self, Option<
        Result<Response<PredictOptions<S>>, Disconnected<H>>,
    >) {
        match (self.thread(), found) {
            (None, _) => (self, None),
            (Some(_), Polled::Empty) => (self, None),
            (Some(_), Polled::Message(response)) => (self, Some(Ok(response))),
            (Some(handle), Polled::Disconnected) => (Self::idle(), Some(
                Err(Disconnected { handle }),
            )),
        }
    }

    /// The handle of no worker.
    pub closed spec fn idle() -> Self {
        Worker { running: None }
    }

    /// The idle handle holds nothing.
    pub proof fn lemma_idle_holds_nothing()
        ensures
            !Self::idle().alive(),
            Self::idle().commands() is None,
            Self::idle().responses() is None,
    {
    }

    /// The death of a worker thread is reported once: the look that finds
    /// the channel disconnected answers with the dead thread's handle and
    /// leaves the worker not alive, and whatever a later look finds, it
    /// answers nothing.
    pub proof fn law_disconnection_is_reported_once(
        self,
        later: Polled<Response<PredictOptions<S>>>,
    )
        requires
            self.alive(),
        ensures
            self.after_poll(Polled::Disconnected).1 matches Some(Err(gone)) && Some(gone.handle)
                == self.thread(),
            !self.after_poll(Polled::Disconnected).0.alive(),
            self.after_poll(Polled::Disconnected).0.after_poll(later).1 is None,
    {
    }

    /// Acts on `found`, the outcome of one look at the response channel.
    ///
    /// A message is passed on. A disconnected channel means that the
    /// thread has died: the handle is reset, so that it no longer claims
    /// to be alive, and the dead thread's handle is given out for joining.
    pub fn received(&mut self, found: Polled<Response<PredictOptions<S>>>) -> (answer: Option<
        Result<Response<PredictOptions<S>>, Disconnected<H>>,
    >)
        ensures
            (*final(self), answer) == old(self).after_poll(found),
            final(self).alive() == (old(self).alive() && !(found is Disconnected)),
    {
        if self.running.is_none() {
            return None;
        }
        match found {
            Polled::Empty => None,
            Polled::Message(response) => Some(Ok(response)),
            Polled::Disconnected => {
                match self.running.take() {
                    Some(running) => Some(Err(Disconnected { handle: running.handle })),
                    None => None,
                }
            },
        }
    }

    /// Looks at the response channel without blocking.
    ///
    /// `None` with no worker or nothing queued. The first look after the
    /// thread has died answers `Err`, resets the handle and gives out the
    /// dead thread's handle; after that there is no worker.
    pub fn try_recv(&mut self) -> (answer: Option<
        Result<Response<PredictOptions<S>>, Disconnected<H>>,
    >)
        ensures
            exists|found: Polled<Response<PredictOptions<S>>>|
                (*final(self), answer) == #[trigger] old(self).after_poll(found),
            !old(self).alive() ==> answer is None,
            answer matches Some(Err(gone)) ==> (!final(self).alive() && old(self).thread() == Some(
                gone.handle,
            )),
            !(answer matches Some(Err(_))) ==> *final(self) == *old(self),
    {
        let found = match &self.running {
            Some(running) => poll(&running.from_worker),
            None => Polled::Empty,
        };
        self.received(found)
    }

    /// Ends the worker. The sending end of the command channel is dropped,
    /// which is what the worker's loop takes as the order to leave, and the
    /// response channel with it. The result is the thread's handle, for
    /// the caller to join.
    ///
    /// Whatever the join will bring, the handle is idle from here on and
    /// can be started again.
    pub fn shutdown(&mut self) -> (thread: Option<H>)
        ensures
            !final(self).alive(),
            *final(self) == Self::idle(),
            thread == old(self).thread(),
    {
        match self.running.take() {
            Some(running) => Some(running.handle),
            None => None,
        }
    }
}

/// The worker thread's side of the channels, with the state of its loop.
///
/// The thread that owns the engine feeds the link what the engine does
/// and asks it at every checkpoint what has arrived; the link sends what
/// is to be sent and says what to do next. A response that cannot be sent,
/// because the caller has dropped its end, is dropped too: the command
/// channel will tell the loop to leave.
#[verifier::reject_recursive_types(S)]
pub struct Link<S> {
    state: GenerationLoop,
    from_main: Receiver<Command<PredictOptions<S>>>,
    to_main: Sender<Response<PredictOptions<S>>>,
}

/// What the loop in `phase` makes of `found`, the outcome of one look at
/// the command channel: the phase afterwards and, if anything was found,
/// whether to redraw and what to do next. A command is fed to the loop, a
/// disconnected channel too; an empty channel changes nothing.
pub open spec fn at_checkpoint<O>(phase: Phase, found: Polled<Command<O>>) -> (
    Phase,
    Option<(Redraw, Directive<O>)>,
) {
    match found {
        Polled::Empty => (phase, None),
        Polled::Message(command) => (
            next_phase(phase, Event::Command(command)),
            Some(
                (
                    redraw_after(phase, Event::Command(command)),
                    directive_after(phase, Event::Command(command)),
                ),
            ),
        ),
        Polled::Disconnected => (
            next_phase(phase, Event::<O>::Disconnected),
            Some(
                (
                    redraw_after(phase, Event::<O>::Disconnected),
                    directive_after(phase, Event::<O>::Disconnected),
                ),
            ),
        ),
    }
}

impl<S> Link<S> {
    /// Where the loop stands.
    pub closed spec fn phase(self) -> Phase {
        self.state@
    }

    /// The link of a worker that waits for its first command.
    pub fn new(
        from_main: Receiver<Command<PredictOptions<S>>>,
        to_main: Sender<Response<PredictOptions<S>>>,
    ) -> (link: Self)
        ensures
            link.phase() == Phase::Idle,
    {
        Link { state: GenerationLoop::new(), from_main, to_main }
    }

    /// Whether a request is in progress.
    pub fn is_generating(&self) -> (generating: bool)
        ensures
            generating == (self.phase() == Phase::Generating),
    {
        self.state.is_generating()
    }

    /// Takes in one event, sends the loop's response to the caller, if
    /// there is one, and says whether to redraw and what to do next.
    pub fn feed(&mut self, event: Event<PredictOptions<S>>) -> (next: (
        Redraw,
        Directive<PredictOptions<S>>,
    ))
        ensures
            final(self).phase() == next_phase(old(self).phase(), event),
            next.0 == redraw_after(old(self).phase(), event),
            next.1 == directive_after(old(self).phase(), event),
    {
        let step = self.state.step(event);
        match step.response {
            Some(response) => {
                let _ = send(&self.to_main, response);
            },
            None => {},
        }
        (step.redraw, step.directive)
    }

    /// Blocks until the command channel brings something, and feeds it to
    /// the loop.
    pub fn wait(&mut self) -> (next: (Redraw, Directive<PredictOptions<S>>))
        ensures
            exists|event: Event<PredictOptions<S>>|
                arrives(event) && final(self).phase() == #[trigger] next_phase(
                    old(self).phase(),
                    event,
                ) && next.0 == redraw_after(old(self).phase(), event) && next.1 == directive_after(
                    old(self).phase(),
                    event,
                ),
    {
        let event = match receive(&self.from_main) {
            Some(command) => Event::Command(command),
            None => Event::Disconnected,
        };
        self.feed(event)
    }

    /// Acts on `found`, the outcome of one look at the command channel:
    /// feeds the loop what was found, and says what the loop answers.
    /// `None` means that nothing was found and nothing has changed.
    pub fn arrived(&mut self, found: Polled<Command<PredictOptions<S>>>) -> (next: Option<
        (Redraw, Directive<PredictOptions<S>>),
    >)
        ensures
            (final(self).phase(), next) == at_checkpoint(old(self).phase(), found),
    {
        match found {
            Polled::Empty => None,
            Polled::Message(command) => Some(self.feed(Event::Command(command))),
            Polled::Disconnected => Some(self.feed(Event::Disconnected)),
        }
    }

    /// A cancellation checkpoint: looks at the command channel once,
    /// without blocking, and feeds the loop what is there. `None` means
    /// that nothing has arrived and nothing has changed.
    ///
    /// What is there is for the channel to say; whatever it is, the loop
    /// moves as `at_checkpoint` tells.
    pub fn checkpoint(&mut self) -> (next: Option<(Redraw, Directive<PredictOptions<S>>)>)
        ensures
            exists|found: Polled<Command<PredictOptions<S>>>|
                (final(self).phase(), next) == #[trigger] at_checkpoint(old(self).phase(), found),
            next is None ==> final(self).phase() == old(self).phase(),
            next matches Some(found) ==> exists|event: Event<PredictOptions<S>>|
                arrives(event) && final(self).phase() == #[trigger] next_phase(
                    old(self).phase(),
                    event,
                ) && found.0 == redraw_after(old(self).phase(), event) && found.1
                    == directive_after(old(self).phase(), event),
    {
        let found = poll(&self.from_main);
        let ghost seen = found;
        let next = self.arrived(found);
        proof {
            assert((self.phase(), next) == at_checkpoint(old(self).phase(), seen));
            match seen {
                Polled::Empty => {},
                Polled::Message(command) => {
                    assert(arrives(Event::Command(command)));
                    assert(self.phase() == next_phase(old(self).phase(), Event::Command(command)));
                },
                Polled::Disconnected => {
                    assert(arrives(Event::<PredictOptions<S>>::Disconnected));
                    assert(self.phase() == next_phase(
                        old(self).phase(),
                        Event::<PredictOptions<S>>::Disconnected,
                    ));
                },
            }
        }
        next
    }
}

} // verus!
