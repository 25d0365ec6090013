//! The handle of a worker that streams from a remote chat service, and
//! the request it sends.
//!
//! The service is reached by an asynchronous client that runs on a thread
//! of its own. Both channels are bounded: few commands can queue while the
//! worker streams, and a command that arrives during a generation comes
//! back in a `Busy` instead of waiting. The response channel is large, so
//! that a burst of text never holds up the network stream.

use vstd::prelude::*;
use futures::channel::mpsc::{Receiver, Sender};
use crate::generation::{
    arrives, directive_after, next_phase, redraw_after, response_to, Directive, Event,
    GenerationLoop, Phase, Redraw,
};
use crate::lifecycle::{
    plan_start, poll_result, start_plan, Disconnected, StartAction, StartError,
};
use crate::protocol::{Command, Polled, Response};
use crate::text::{owned, reads};

verus! {

/// How many commands can queue for the worker.
pub const COMMAND_CAPACITY: usize = 128;

/// How many responses can queue for the caller.
pub const RESPONSE_CAPACITY: usize = 4096;

/// The model that is asked when none was chosen.
pub const DEFAULT_MODEL: &'static str = "gpt-3.5-turbo";

/// The least and the most tokens that a request may ask for.
pub const MIN_MAX_TOKENS: u32 = 1;

pub const MAX_MAX_TOKENS: u32 = 128000;

/// One message of a chat: who speaks and what is said.
#[derive(Debug, Clone, PartialEq, Eq)]
pub struct Message {
    pub role: String,
    pub content: String,
}

/// A request to the chat service. `S` is the sampling configuration,
/// which only the service reads.
#[derive(Debug, Clone, PartialEq, Eq)]
pub struct ChatArguments<S> {
    /// The model to ask.
    pub model: String,
    /// The conversation so far.
    pub messages: Vec<Message>,
    /// How many completions to generate.
    pub n: Option<u32>,
    /// A string at which the generation stops.
    pub stop: Option<String>,
    /// The token budget of the answer.
    pub max_tokens: Option<u32>,
    /// Who asks.
    pub user: Option<String>,
    /// How tokens are sampled.
    pub sampling: S,
}

/// The role that speaks next in a conversation whose last speaker has the
/// role `last`: the system opens, the assistant answers the user, and the
/// user answers everyone else.
pub open spec fn role_after(last: Option<Seq<char>>) -> Seq<char> {
    match last {
        None => "system"@,
        Some(role) => if role == "user"@ {
            "assistant"@
        } else {
            "user"@
        },
    }
}

/// The role of the last message of `messages`, if there is one.
pub open spec fn last_role(messages: Seq<Message>) -> Option<Seq<char>> {
    if messages.len() == 0 {
        None
    } else {
        Some(messages.last().role@)
    }
}

/// What is left of `messages[..upto]` when the messages at the indices in
/// `delete` are taken out.
pub open spec fn without(messages: Seq<Message>, delete: Seq<usize>, upto: int) -> Seq<Message>
    decreases upto,
{
    if upto <= 0 {
        Seq::empty()
    } else if delete.contains((upto - 1) as usize) {
        without(messages, delete, upto - 1)
    } else {
        without(messages, delete, upto - 1).push(messages[upto - 1])
    }
}

/// `value` brought into the range of token budgets the service accepts.
pub open spec fn clamped_max_tokens(value: u32) -> u32 {
    if value < MIN_MAX_TOKENS {
        MIN_MAX_TOKENS
    } else if value > MAX_MAX_TOKENS {
        MAX_MAX_TOKENS
    } else {
        value
    }
}

/// Brings a token budget into the range the service accepts.
pub fn clamp_max_tokens(value: u32) -> (clamped: u32)
    ensures
        clamped == clamped_max_tokens(value),
        MIN_MAX_TOKENS <= clamped <= MAX_MAX_TOKENS,
{
    if value < MIN_MAX_TOKENS {
        MIN_MAX_TOKENS
    } else if value > MAX_MAX_TOKENS {
        MAX_MAX_TOKENS
    } else {
        value
    }
}

/// Whether `index` occurs in `indices`.
fn contains_index(indices: &Vec<usize>, index: usize) -> (found: bool)
    ensures
        found == indices@.contains(index),
{
    let mut i: usize = 0;
    while i < indices.len()
        invariant
            i <= indices.len(),
            forall|j: int| 0 <= j < i ==> indices@[j] != index,
        decreases indices.len() - i,
    {
        if indices[i] == index {
            return true;
        }
        i += 1;
    }
    false
}

impl<S> ChatArguments<S> {
    /// A request to `model` with `messages` and nothing else set.
    pub fn new(model: String, messages: Vec<Message>, sampling: S) -> (arguments: Self)
        ensures
            arguments == (ChatArguments {
                model,
                messages,
                n: None,
                stop: None,
                max_tokens: None,
                user: None,
                sampling,
            }),
    {
        ChatArguments {
            model,
            messages,
            n: None,
            stop: None,
            max_tokens: None,
            user: None,
            sampling,
        }
    }

    /// The role that a message added now would have.
    pub fn next_role(&self) -> (role: &'static str)
        ensures
            role@ == role_after(last_role(self.messages@)),
    {
        let count = self.messages.len();
        if count == 0 {
            "system"
        } else if reads(&self.messages[count - 1].role, "user") {
            "assistant"
        } else {
            "user"
        }
    }

    /// Adds an empty message for whoever speaks next.
    pub fn add_message(&mut self)
        ensures
            final(self).messages@.len() == old(self).messages@.len() + 1,
            final(self).messages@.drop_last() == old(self).messages@,
            final(self).messages@.last().role@ == role_after(last_role(old(self).messages@)),
            final(self).messages@.last().content@ == Seq::<char>::empty(),
            final(self).model == old(self).model,
            final(self).n == old(self).n,
            final(self).stop == old(self).stop,
            final(self).max_tokens == old(self).max_tokens,
            final(self).user == old(self).user,
            final(self).sampling == old(self).sampling,
    {
        let role = owned(self.next_role());
        let content = String::new();
        self.messages.push(Message { role, content });
        assert(self.messages@.drop_last() =~= old(self).messages@);
    }

    /// Takes out the messages at the indices in `delete`; the others keep
    /// their order.
    pub fn remove_messages(&mut self, delete: &Vec<usize>)
        ensures
            final(self).messages@ == without(
                old(self).messages@,
                delete@,
                old(self).messages@.len() as int,
            ),
            final(self).model == old(self).model,
            final(self).n == old(self).n,
            final(self).stop == old(self).stop,
            final(self).max_tokens == old(self).max_tokens,
            final(self).user == old(self).user,
            final(self).sampling == old(self).sampling,
    {
        let mut all: Vec<Message> = Vec::new();
        core::mem::swap(&mut self.messages, &mut all);
        let mut kept: Vec<Message> = Vec::new();
        let ghost before = all@;
        let total: usize = all.len();
        // Walk from the back so that each message can be moved out.
        let mut reversed: Vec<Message> = Vec::new();
        let mut left: usize = total;
        while left > 0
            invariant
                left <= total,
                total == before.len(),
                all@ == before.subrange(0, left as int),
                reversed@.len() == total - left,
                forall|k: int|
                    0 <= k < reversed@.len() ==> reversed@[k] == before[total - 1 - k],
            decreases left,
        {
            let message = all.pop().unwrap();
            reversed.push(message);
            left -= 1;
        }
        let mut index: usize = 0;
        while index < total
            invariant
                index <= total,
                total == before.len(),
                reversed@.len() == total - index,
                forall|k: int|
                    0 <= k < reversed@.len() ==> reversed@[k] == before[total - 1 - k],
                kept@ == without(before, delete@, index as int),
            decreases total - index,
        {
            let message = reversed.pop().unwrap();
            assert(message == before[index as int]);
            if !contains_index(delete, index) {
                kept.push(message);
            }
            index += 1;
        }
        self.messages = kept;
    }

    /// Whether the generation stops at the end of a line.
    pub fn stops_at_newline(&self) -> (stops: bool)
        ensures
            stops == (self.stop matches Some(stop) && stop@ == "\n"@),
    {
        match &self.stop {
            Some(stop) => reads(stop, "\n"),
            None => false,
        }
    }

    /// Makes the generation stop at the end of a line, or nowhere.
    pub fn set_stop_at_newline(&mut self, stops: bool)
        ensures
            stops ==> (final(self).stop matches Some(stop) && stop@ == "\n"@),
            !stops ==> final(self).stop is None,
            final(self).model == old(self).model,
            final(self).messages == old(self).messages,
            final(self).n == old(self).n,
            final(self).max_tokens == old(self).max_tokens,
            final(self).user == old(self).user,
            final(self).sampling == old(self).sampling,
    {
        if stops {
            self.stop = Some(owned("\n"));
        } else {
            self.stop = None;
        }
    }
}

/// The messages that open every conversation: what the collaboration is,
/// and one exchange to set the tone.
pub fn opening_messages() -> (messages: Vec<Message>)
    ensures
        messages@.len() == 3,
        messages@[0].role@ == "system"@,
        messages@[0].content@
            == "A user and an assistant are collaborating on a story. The user starts by writing a paragraph, then the assistant writes a paragraph, and so on. Both will be credited for the end result.'"@,
        messages@[1].role@ == "user"@,
        messages@[1].content@ == "Hi, GPT! Let's write a story together."@,
        messages@[2].role@ == "assistant"@,
        messages@[2].content@
            == "Sure, I'd love to help. How about you start us off? I'll try to match your tone and style."@,
{
    let mut messages: Vec<Message> = Vec::new();
    messages.push(
        Message {
            role: owned("system"),
            content: owned(
                "A user and an assistant are collaborating on a story. The user starts by writing a paragraph, then the assistant writes a paragraph, and so on. Both will be credited for the end result.'",
            ),
        },
    );
    messages.push(
        Message {
            role: owned("user"),
            content: owned("Hi, GPT! Let's write a story together."),
        },
    );
    messages.push(
        Message {
            role: owned("assistant"),
            content: owned(
                "Sure, I'd love to help. How about you start us off? I'll try to match your tone and style.",
            ),
        },
    );
    messages
}

/// Why the catalog of models cannot be asked for.
#[derive(Debug, Clone, Copy, PartialEq, Eq, Structural)]
pub enum FetchError {
    /// There is no API key.
    MissingApiKey,
}

impl FetchError {
    /// The error in words.
    pub fn message(&self) -> (text: &'static str)
        ensures
            text@ == "OpenAI API key is empty. Can't fetch models."@,
    {
        match self {
            FetchError::MissingApiKey => "OpenAI API key is empty. Can't fetch models.",
        }
    }
}

/// What the user has set for the chat service.
#[derive(Debug, Clone, PartialEq, Eq)]
pub struct Settings<S> {
    /// The models the service offers, by name, once they were fetched.
    pub models: Vec<String>,
    /// The key the service knows the user by.
    pub openai_api_key: String,
    /// The request sent for every generation.
    pub chat_arguments: ChatArguments<S>,
}

/// Something the settings ask their owner to do.
#[derive(Debug, Clone, Copy, PartialEq, Eq, Structural)]
pub enum SettingsAction {
    /// Fetch the catalog of models.
    FetchModels,
}

impl<S> Settings<S> {
    /// Settings with no models fetched yet.
    pub fn new(api_key: String, chat_arguments: ChatArguments<S>) -> (settings: Self)
        ensures
            settings.models@.len() == 0,
            settings.openai_api_key == api_key,
            settings.chat_arguments == chat_arguments,
    {
        Settings { models: Vec::new(), openai_api_key: api_key, chat_arguments }
    }

    /// The models the service offers, if they were fetched.
    pub fn models(&self) -> (models: &Vec<String>)
        ensures
            *models == self.models,
    {
        &self.models
    }

    /// Whether the catalog can be asked for: only with an API key.
    pub fn check_fetch_models(&self) -> (checked: Result<(), FetchError>)
        ensures
            checked is Ok <==> self.openai_api_key@.len() > 0,
            checked is Err ==> checked == Err::<(), FetchError>(FetchError::MissingApiKey),
    {
        if self.openai_api_key.as_str().is_empty() {
            Err(FetchError::MissingApiKey)
        } else {
            Ok(())
        }
    }
}

/// What a chunk of the stream means to the generation loop. A chunk
/// carries a piece of text, or the reason why the stream ends, or neither.
///
/// A stream that ends with `stop` or `max_tokens` has finished. Any other
/// reason is a failure, and the reason is its detail.
pub open spec fn chunk_event<O>(finish_reason: Option<String>, content: Option<String>) -> Option<
    Event<O>,
> {
    match finish_reason {
        None => match content {
            Some(piece) => Some(Event::Produced { piece }),
            None => None,
        },
        Some(reason) => if reason@ == "stop"@ || reason@ == "max_tokens"@ {
            Some(Event::Finished)
        } else {
            Some(Event::Failed { detail: reason })
        },
    }
}

/// Classifies one chunk of the stream for the generation loop.
pub fn classify_chunk<O>(finish_reason: Option<String>, content: Option<String>) -> (event:
    Option<Event<O>>)
    ensures
        event == chunk_event::<O>(finish_reason, content),
{
    match finish_reason {
        None => match content {
            Some(piece) => Some(Event::Produced { piece }),
            None => None,
        },
        Some(reason) => {
            if reads(&reason, "stop") || reads(&reason, "max_tokens") {
                Some(Event::Finished)
            } else {
                Some(Event::Failed { detail: reason })
            }
        },
    }
}

/// `futures::channel::mpsc::Sender`, the sending end of a bounded
/// channel. Nothing is known of what is inside.
#[verifier::external_type_specification]
#[verifier::external_body]
#[verifier::reject_recursive_types(T)]
pub struct ExSender<T>(Sender<T>);

/// `futures::channel::mpsc::Receiver`, the receiving end of a bounded
/// channel. Nothing is known of what is inside.
#[verifier::external_type_specification]
#[verifier::external_body]
#[verifier::reject_recursive_types(T)]
pub struct ExReceiver<T>(Receiver<T>);

/// A command that could not be queued, handed back whole, with the reason.
#[derive(Debug, Clone, PartialEq, Eq)]
pub struct TrySendError<O> {
    pub command: Command<O>,
    /// The channel was full; otherwise the worker is gone.
    pub full: bool,
}

impl<O> TrySendError<O> {
    /// Whether the command channel was full.
    pub fn is_full(&self) -> (full: bool)
        ensures
            full == self.full,
    {
        self.full
    }

    /// Whether the worker is gone.
    pub fn is_disconnected(&self) -> (gone: bool)
        ensures
            gone == !self.full,
    {
        !self.full
    }

    /// The command that was not queued.
    pub fn into_inner(self) -> (command: Command<O>)
        ensures
            command == self.command,
    {
        self.command
    }
}

/// `futures::channel::mpsc::channel`: a new bounded channel with `buffer`
/// slots shared by all senders and one more for each. The function panics
/// on a buffer of a quarter of the address space or more, which the
/// precondition leaves out. Nothing is claimed of the two ends.
#[verifier::external_body]
fn open_channel<T>(buffer: usize) -> (ends: (Sender<T>, Receiver<T>))
    requires
        buffer < usize::MAX / 4,
{
    futures::channel::mpsc::channel(buffer)
}

/// A message that could not be queued, handed back whole, with the reason.
pub struct Refused<T> {
    pub message: T,
    /// The channel was full; otherwise the receiver is gone.
    pub full: bool,
}

/// Whether `outcome` is something that an attempt to queue `command` can
/// come to: the command was queued, or it came back as it was.
pub open spec fn try_sending<O>(
    command: Command<O>,
    outcome: Result<(), Refused<Command<O>>>,
) -> bool {
    outcome matches Err(refused) ==> refused.message == command
}

/// What the caller is told of an attempt that came to `outcome`: nothing,
/// or the command that was not queued and why.
pub open spec fn try_reported<O>(outcome: Result<(), Refused<Command<O>>>) -> Result<
    (),
    TrySendError<O>,
> {
    match outcome {
        Ok(()) => Ok(()),
        Err(refused) => Err(TrySendError { command: refused.message, full: refused.full }),
    }
}

/// Tells the caller what an attempt to queue a command came to.
pub fn try_report<O>(outcome: Result<(), Refused<Command<O>>>) -> (sent: Result<
    (),
    TrySendError<O>,
>)
    ensures
        sent == try_reported(outcome),
{
    match outcome {
        Ok(()) => Ok(()),
        Err(refused) => Err(TrySendError { command: refused.message, full: refused.full }),
    }
}

/// `Sender::try_send`: never blocks. An `Err` hands back the very message
/// that was to be sent, as `TrySendError::into_inner` gives it, and says
/// whether the channel was full. Whether the send succeeds depends on the
/// receiving thread, so nothing is claimed about that.
#[verifier::external_body]
fn try_send<T>(to: &mut Sender<T>, message: T) -> (sent: Result<(), Refused<T>>)
    ensures
        sent matches Err(refused) ==> refused.message == message,
{
    match to.try_send(message) {
        Ok(()) => Ok(()),
        Err(error) => {
            let full = error.is_full();
            Err(Refused { message: error.into_inner(), full })
        },
    }
}

/// `Receiver::try_recv`: never blocks. What it finds depends on the
/// sending thread, so nothing is claimed of the result.
#[verifier::external_body]
fn poll<T>(from: &mut Receiver<T>) -> (found: Polled<T>) {
    match from.try_recv() {
        Ok(message) => Polled::Message(message),
        Err(futures::channel::mpsc::TryRecvError::Empty) => Polled::Empty,
        Err(futures::channel::mpsc::TryRecvError::Closed) => Polled::Disconnected,
    }
}

/// The two ends of one channel, and the room it was opened with.
#[verifier::reject_recursive_types(T)]
pub struct Channel<T> {
    pub sender: Sender<T>,
    pub receiver: Receiver<T>,
    /// The number of messages that can queue, not counting the one slot
    /// that each sender has of its own.
    pub buffer: usize,
}

/// The channels of one worker: commands to it, responses from it.
#[verifier::reject_recursive_types(S)]
pub struct Channels<S> {
    pub commands: Channel<Command<ChatArguments<S>>>,
    pub responses: Channel<Response<ChatArguments<S>>>,
}

/// Opens the two channels of a worker: a small one for commands, a large
/// one for responses.
pub fn open_channels<S>() -> (channels: Channels<S>)
    ensures
        channels.commands.buffer == COMMAND_CAPACITY,
        channels.responses.buffer == RESPONSE_CAPACITY,
{
    let (to_worker, from_main) = open_channel(COMMAND_CAPACITY);
    let (to_main, from_worker) = open_channel(RESPONSE_CAPACITY);
    Channels {
        commands: Channel { sender: to_worker, receiver: from_main, buffer: COMMAND_CAPACITY },
        responses: Channel { sender: to_main, receiver: from_worker, buffer: RESPONSE_CAPACITY },
    }
}

/// What a live worker consists of, seen from the caller.
#[verifier::reject_recursive_types(S)]
struct Running<H, S> {
    handle: H,
    to_worker: Sender<Command<ChatArguments<S>>>,
    from_worker: Receiver<Response<ChatArguments<S>>>,
}

/// The caller's handle of a remote worker. `H` is the handle of the
/// worker's thread.
///
/// The thread handle and the two channel ends are there together or not at
/// all.
#[verifier::reject_recursive_types(S)]
pub struct Worker<H, S> {
    running: Option<Running<H, S>>,
}

impl<H, S> Worker<H, S> {
    /// The handle of the worker's thread, while there is one.
    pub closed spec fn thread(self) -> Option<H> {
        match self.running {
            Some(running) => Some(running.handle),
            None => None,
        }
    }

    /// A worker is alive exactly while it holds a thread handle.
    pub open spec fn alive(self) -> bool {
        self.thread() is Some
    }

    /// The handle of no worker.
    pub closed spec fn idle() -> Self {
        Worker { running: None }
    }

    /// The idle handle holds no thread.
    pub proof fn lemma_idle_holds_nothing()
        ensures
            !Self::idle().alive(),
    {
    }

    /// An idle handle: no thread, no channels.
    pub fn new() -> (worker: Self)
        ensures
            worker == Self::idle(),
            !worker.alive(),
    {
        Worker { running: None }
    }

    /// Whether the worker is alive.
    pub fn is_alive(&self) -> (alive: bool)
        ensures
            alive == self.alive(),
    {
        self.running.is_some()
    }

    /// Decides a start. A worker that is alive is left alone and the call
    /// succeeds; otherwise the caller is to spawn the thread and hand it
    /// over with `attach`. Nothing is checked of the credential: a bad one
    /// shows when the service is first asked.
    pub fn start(&self) -> (plan: Result<StartAction, StartError>)
        ensures
            plan == start_plan(self.alive(), true),
            plan is Ok,
    {
        plan_start(self.is_alive(), true)
    }

    /// Takes over a freshly spawned thread and the caller's ends of its
    /// channels. A handle that is alive keeps what it has and hands the
    /// three back.
    pub fn attach(
        &mut self,
        handle: H,
        to_worker: Sender<Command<ChatArguments<S>>>,
        from_worker: Receiver<Response<ChatArguments<S>>>,
    ) -> (refused: Option<
        (H, Sender<Command<ChatArguments<S>>>, Receiver<Response<ChatArguments<S>>>),
    >)
        ensures
            old(self).alive() ==> *final(self) == *old(self) && refused == Some(
                (handle, to_worker, from_worker),
            ),
            !old(self).alive() ==> refused is None && final(self).thread() == Some(handle),
    {
        if self.running.is_some() {
            Some((handle, to_worker, from_worker))
        } else {
            self.running = Some(Running { handle, to_worker, from_worker });
            None
        }
    }

    /// Queues `command` for the worker without waiting. With no worker the
    /// command comes back as if the worker were gone.
    fn submit(&mut self, command: Command<ChatArguments<S>>) -> (sent: Result<
        (),
        TrySendError<ChatArguments<S>>,
    >)
        ensures
            final(self).thread() == old(self).thread(),
            !old(self).alive() ==> sent == Err::<(), TrySendError<ChatArguments<S>>>(
                TrySendError { command, full: false },
            ),
            old(self).alive() ==> exists|outcome: Result<(), Refused<Command<ChatArguments<S>>>>|
                try_sending(command, outcome) && sent == #[trigger] try_reported(outcome),
            sent matches Err(error) ==> error.command == command,
    {
        match &mut self.running {
            Some(running) => {
                let outcome = try_send(&mut running.to_worker, command);
                try_report(outcome)
            },
            None => Err(TrySendError { command, full: false }),
        }
    }

    /// Asks the worker to end the generation in flight. Does not wait and
    /// does not end the worker; the generation ends at its next checkpoint.
    ///
    /// With no worker there is nothing to stop and the call succeeds. An
    /// error carries the `Stop` and says whether the channel was full or
    /// the worker is gone.
    pub fn try_stop(&mut self) -> (sent: Result<(), TrySendError<ChatArguments<S>>>)
        ensures
            final(self).thread() == old(self).thread(),
            !old(self).alive() ==> sent is Ok,
            old(self).alive() ==> exists|outcome: Result<(), Refused<Command<ChatArguments<S>>>>|
                try_sending(Command::Stop, outcome) && sent == #[trigger] try_reported(outcome),
            sent matches Err(error) ==> error.command == Command::<ChatArguments<S>>::Stop,
    {
        if self.running.is_none() {
            Ok(())
        } else {
            self.submit(Command::Stop)
        }
    }

    /// The same as `try_stop`: a stop never waits for room in the channel.
    pub fn stop(&mut self) -> (sent: Result<(), TrySendError<ChatArguments<S>>>)
        ensures
            final(self).thread() == old(self).thread(),
            !old(self).alive() ==> sent is Ok,
            old(self).alive() ==> exists|outcome: Result<(), Refused<Command<ChatArguments<S>>>>|
                try_sending(Command::Stop, outcome) && sent == #[trigger] try_reported(outcome),
            sent matches Err(error) ==> error.command == Command::<ChatArguments<S>>::Stop,
    {
        self.try_stop()
    }

    /// Sends a request for a completion of the conversation in `opts`.
    /// Does not wait. The request has no text of its own.
    ///
    /// Fails if the worker is not alive, its thread is gone or the channel
    /// is full. Every time the error carries the request that was not
    /// delivered, whole.
    pub fn predict(&mut self, opts: ChatArguments<S>) -> (sent: Result<
        (),
        TrySendError<ChatArguments<S>>,
    >)
        ensures
            final(self).thread() == old(self).thread(),
            !old(self).alive() ==> sent is Err,
            sent matches Err(error) ==> (error.command matches Command::Predict {
                text,
                opts: carried,
            } && text@ == Seq::<char>::empty() && carried == opts),
    {
        let text = String::new();
        self.submit(Command::Predict { text, opts })
    }

    /// Asks for the catalog of models. Does not wait.
    pub fn fetch_models(&mut self) -> (sent: Result<(), TrySendError<ChatArguments<S>>>)
        ensures
            final(self).thread() == old(self).thread(),
            !old(self).alive() ==> sent is Err,
            sent matches Err(error) ==> error.command == Command::<
                ChatArguments<S>,
            >::FetchModels,
    {
        self.submit(Command::FetchModels)
    }

    /// Acts on `found`, the outcome of one look at the response channel.
    ///
    /// A message is passed on. A closed channel means that the thread has
    /// died: the handle is reset, so that it no longer claims to be alive,
    /// and the dead thread's handle is given out for joining.
    pub fn received(&mut self, found: Polled<Response<ChatArguments<S>>>) -> (answer: Option<
        Result<Response<ChatArguments<S>>, Disconnected<H>>,
    >)
        ensures
            (final(self).thread(), answer) == poll_result(old(self).thread(), found),
            final(self).alive() == (old(self).alive() && !(found is Disconnected)),
            !old(self).alive() ==> answer is None && *final(self) == *old(self),
            old(self).alive() ==> match found {
                Polled::Empty => answer is None && *final(self) == *old(self),
                Polled::Message(response) => answer == Some(
                    Ok::<Response<ChatArguments<S>>, Disconnected<H>>(response),
                ) && *final(self) == *old(self),
                Polled::Disconnected => (answer matches Some(Err(gone)) && old(self).thread()
                    == Some(gone.handle)) && *final(self) == Self::idle(),
            },
    {
        if self.running.is_none() {
            return None;
        }
        match found {
            Polled::Empty => None,
            Polled::Message(response) => Some(Ok(response)),
            Polled::Disconnected => {
                match self.running.take() {
                    Some(running) => Some(Err(Disconnected { handle: running.handle })),
                    None => None,
                }
            },
        }
    }

    /// Looks at the response channel without waiting.
    ///
    /// `None` with no worker or nothing queued. The first look after the
    /// thread has died answers `Err`, resets the handle and gives out the
    /// dead thread's handle; after that there is no worker.
    pub fn try_recv(&mut self) -> (answer: Option<
        Result<Response<ChatArguments<S>>, Disconnected<H>>,
    >)
        ensures
            exists|found: Polled<Response<ChatArguments<S>>>|
                (final(self).thread(), answer) == #[trigger] poll_result(
                    old(self).thread(),
                    found,
                ),
            !old(self).alive() ==> answer is None,
            answer matches Some(Err(gone)) ==> (!final(self).alive() && old(self).thread() == Some(
                gone.handle,
            )),
            !(answer matches Some(Err(_))) ==> final(self).thread() == old(self).thread(),
    {
        let found = match &mut self.running {
            Some(running) => poll(&mut running.from_worker),
            None => Polled::Empty,
        };
        let ghost seen = found;
        let ghost held = self.thread();
        let answer = self.received(found);
        proof {
            assert(held == old(self).thread());
            assert((self.thread(), answer) == poll_result(old(self).thread(), seen));
        }
        answer
    }

    /// Ends the worker. The sending end of the command channel is dropped,
    /// which is what the worker's loop takes as the order to leave, and the
    /// response channel with it. The result is the thread's handle, for
    /// the caller to join.
    ///
    /// Whatever the join will bring, the handle is idle from here on and
    /// can be started again.
    pub fn shutdown(&mut self) -> (thread: Option<H>)
        ensures
            !final(self).alive(),
            *final(self) == Self::idle(),
            thread == old(self).thread(),
    {
        match self.running.take() {
            Some(running) => Some(running.handle),
            None => None,
        }
    }
}

/// The worker thread's side of the channels, with the state of its loop.
///
/// The thread that owns the client feeds the link what the stream brings
/// and asks it at every checkpoint what has arrived; the link queues what
/// is to be sent and says what to do next. Nothing here waits: a response
/// that cannot be queued, because the caller is gone or does not keep up,
/// ends the loop, so that no request is paid for that nobody reads.
#[verifier::reject_recursive_types(S)]
pub struct Link<S> {
    state: GenerationLoop,
    from_main: Receiver<Command<ChatArguments<S>>>,
    to_main: Sender<Response<ChatArguments<S>>>,
}

/// What the loop makes of `event` in `phase`, where `queued` says whether
/// its response, if it has one, could be queued for the caller: the phase
/// afterwards, whether to redraw, and what to do next.
pub open spec fn outcome<O>(phase: Phase, event: Event<O>, queued: bool) -> (
    Phase,
    Redraw,
    Directive<O>,
) {
    if response_to(phase, event) is Some && !queued {
        (Phase::Exited, Redraw::No, Directive::Exit)
    } else {
        (next_phase(phase, event), redraw_after(phase, event), directive_after(phase, event))
    }
}

/// The more urgent of two redraws.
pub open spec fn more_urgent(first: Redraw, second: Redraw) -> Redraw {
    match (first, second) {
        (Redraw::NowAndAfter { .. }, _) => first,
        (_, Redraw::NowAndAfter { .. }) => second,
        (Redraw::Now, _) => first,
        _ => second,
    }
}

/// The more urgent of two redraws.
pub fn combine(first: Redraw, second: Redraw) -> (both: Redraw)
    ensures
        both == more_urgent(first, second),
{
    match (first, second) {
        (Redraw::NowAndAfter { .. }, _) => first,
        (_, Redraw::NowAndAfter { .. }) => second,
        (Redraw::Now, _) => first,
        _ => second,
    }
}

/// What a checkpoint makes of the commands it takes off the channel.
/// `taken` lists, oldest first, what was taken, a command or the news that
/// the channel is disconnected, each with whether the loop's response to
/// it could be queued. The result is the phase afterwards and, if anything
/// was taken, the most urgent redraw that was asked for and what the loop
/// said last.
pub open spec fn drained<O>(phase: Phase, taken: Seq<(Event<O>, bool)>) -> (
    Phase,
    Option<(Redraw, Directive<O>)>,
)
    decreases taken.len(),
{
    if taken.len() == 0 {
        (phase, None)
    } else {
        let before = drained(phase, taken.drop_last());
        let step = outcome(before.0, taken.last().0, taken.last().1);
        let redraw = match before.1 {
            Some(found) => more_urgent(found.0, step.1),
            None => step.1,
        };
        (step.0, Some((redraw, step.2)))
    }
}

/// Whether a checkpoint that starts in `phase` can take `taken`: only
/// what the command channel brings, only while the request goes on, and
/// no more than the channel holds.
pub open spec fn takes<O>(phase: Phase, taken: Seq<(Event<O>, bool)>) -> bool {
    &&& taken.len() <= COMMAND_CAPACITY + 1
    &&& forall|i: int| 0 <= i < taken.len() ==> arrives((#[trigger] taken[i]).0)
    &&& forall|i: int|
        0 <= i < taken.len() ==> (#[trigger] drained(phase, taken.subrange(0, i))).0
            == Phase::Generating
}

impl<S> Link<S> {
    /// Where the loop stands.
    pub closed spec fn phase(self) -> Phase {
        self.state@
    }

    /// The receiving end of the command channel.
    pub closed spec fn inbox(self) -> Receiver<Command<ChatArguments<S>>> {
        self.from_main
    }

    /// The sending end of the response channel.
    pub closed spec fn outbox(self) -> Sender<Response<ChatArguments<S>>> {
        self.to_main
    }

    /// The link of a worker that waits for its first command.
    pub fn new(
        from_main: Receiver<Command<ChatArguments<S>>>,
        to_main: Sender<Response<ChatArguments<S>>>,
    ) -> (link: Self)
        ensures
            link.phase() == Phase::Idle,
            link.inbox() == from_main,
            link.outbox() == to_main,
    {
        Link { state: GenerationLoop::new(), from_main, to_main }
    }

    /// Whether a request is in progress.
    pub fn is_generating(&self) -> (generating: bool)
        ensures
            generating == (self.phase() == Phase::Generating),
    {
        self.state.is_generating()
    }

    /// The receiving end of the command channel, for the thread to wait
    /// on while the loop is idle.
    ///
    /// The result is the link's own end of the channel. The link
    /// afterwards holds it as the thread leaves it, and is otherwise as it
    /// was.
    pub fn commands(&mut self) -> (from_main: &mut Receiver<Command<ChatArguments<S>>>)
        ensures
            *from_main == old(self).inbox(),
            final(self).inbox() == *final(from_main),
            final(self).outbox() == old(self).outbox(),
            final(self).phase() == old(self).phase(),
    {
        &mut self.from_main
    }

    /// Takes note of whether the response of a step could be queued: if
    /// it could not, the loop is over.
    fn settle(
        &mut self,
        redraw: Redraw,
        directive: Directive<ChatArguments<S>>,
        queued: bool,
    ) -> (next: (Redraw, Directive<ChatArguments<S>>))
        ensures
            queued ==> final(self).phase() == old(self).phase() && next == (redraw, directive),
            !queued ==> final(self).phase() == Phase::Exited && next == (
                Redraw::No,
                Directive::<ChatArguments<S>>::Exit,
            ),
    {
        if queued {
            (redraw, directive)
        } else {
            let _ = self.state.step(Event::<ChatArguments<S>>::Disconnected);
            (Redraw::No, Directive::Exit)
        }
    }

    /// Takes in one event, queues the loop's response for the caller, if
    /// there is one, and says whether to redraw and what to do next.
    pub fn feed(&mut self, event: Event<ChatArguments<S>>) -> (next: (
        Redraw,
        Directive<ChatArguments<S>>,
    ))
        ensures
            exists|queued: bool|
                (final(self).phase(), next.0, next.1) == #[trigger] outcome(
                    old(self).phase(),
                    event,
                    queued,
                ),
            response_to(old(self).phase(), event) is None ==> (final(self).phase(), next.0, next.1)
                == outcome(old(self).phase(), event, true),
    {
        let ghost before = self.phase();
        let step = self.state.step(event);
        match step.response {
            Some(response) => {
                let queued = try_send(&mut self.to_main, response).is_ok();
                let next = self.settle(step.redraw, step.directive, queued);
                proof {
                    assert((self.phase(), next.0, next.1) == outcome(before, event, queued));
                }
                next
            },
            None => {
                proof {
                    assert((self.phase(), step.redraw, step.directive) == outcome(
                        before,
                        event,
                        true,
                    ));
                }
                (step.redraw, step.directive)
            },
        }
    }

    /// Acts on `found`, the outcome of one look at the command channel:
    /// feeds the loop what was found, and says what the loop answers.
    /// `None` means that nothing was found and nothing has changed.
    pub fn arrived(&mut self, found: Polled<Command<ChatArguments<S>>>) -> (next: Option<
        (Redraw, Directive<ChatArguments<S>>),
    >)
        ensures
            match found {
                Polled::Empty => next is None && final(self).phase() == old(self).phase(),
                Polled::Message(command) => exists|queued: bool|
                    next matches Some(said) && (final(self).phase(), said.0, said.1)
                        == #[trigger] outcome(old(self).phase(), Event::Command(command), queued),
                Polled::Disconnected => next matches Some(said) && (
                    final(self).phase(),
                    said.0,
                    said.1,
                ) == outcome(old(self).phase(), Event::<ChatArguments<S>>::Disconnected, true),
            },
    {
        match found {
            Polled::Empty => None,
            Polled::Message(command) => Some(self.feed(Event::Command(command))),
            Polled::Disconnected => Some(self.feed(Event::Disconnected)),
        }
    }

    /// A cancellation checkpoint: feeds the loop the commands that have
    /// arrived, oldest first, until the request is over or none is left.
    /// `None` means that nothing has arrived and nothing has changed.
    ///
    /// What has arrived, and whether each response could be queued, is for
    /// the channels to say; whatever it is, the loop moves as `drained`
    /// tells. The directive says where the loop stands afterwards: to go on
    /// with the request, to wait for the next command, or to leave.
    pub fn checkpoint(&mut self) -> (next: Option<(Redraw, Directive<ChatArguments<S>>)>)
        ensures
            exists|taken: Seq<(Event<ChatArguments<S>>, bool)>|
                takes(old(self).phase(), taken) && (final(self).phase(), next)
                    == #[trigger] drained(old(self).phase(), taken),
            next is None ==> final(self).phase() == old(self).phase(),
            old(self).phase() != Phase::Generating ==> next is None,
            next matches Some(found) ==> match final(self).phase() {
                Phase::Generating => found.1 is Proceed,
                Phase::Idle => found.1 is Await,
                Phase::Exited => found.1 is Exit,
            },
    {
        let ghost start = self.phase();
        let ghost mut taken: Seq<(Event<ChatArguments<S>>, bool)> = Seq::empty();
        let mut next: Option<(Redraw, Directive<ChatArguments<S>>)> = None;
        let mut left: usize = COMMAND_CAPACITY + 1;
        let mut going = true;
        while going && left > 0 && self.state.is_generating()
            invariant
                start == old(self).phase(),
                taken.len() + left == COMMAND_CAPACITY + 1,
                forall|i: int| 0 <= i < taken.len() ==> arrives((#[trigger] taken[i]).0),
                forall|i: int|
                    0 <= i < taken.len() ==> (#[trigger] drained(start, taken.subrange(0, i))).0
                        == Phase::Generating,
                (self.phase(), next) == drained(start, taken),
                next is None ==> self.phase() == old(self).phase(),
                old(self).phase() != Phase::Generating ==> next is None,
                next matches Some(found) ==> match self.phase() {
                    Phase::Generating => found.1 is Proceed,
                    Phase::Idle => found.1 is Await,
                    Phase::Exited => found.1 is Exit,
                },
            decreases left + (if going { 1int } else { 0int }),
        {
            let ghost before = self.phase();
            let ghost said = next;
            let event = match poll(&mut self.from_main) {
                Polled::Empty => None,
                Polled::Message(command) => Some(Event::Command(command)),
                Polled::Disconnected => Some(Event::Disconnected),
            };
            match event {
                None => {
                    going = false;
                },
                Some(event) => {
                    let ghost fed_event = event;
                    let fed = self.feed(event);
                    let redraw = match &next {
                        Some(found) => combine(found.0, fed.0),
                        None => fed.0,
                    };
                    next = Some((redraw, fed.1));
                    left = left - 1;
                    proof {
                        let queued = choose|queued: bool|
                            (self.phase(), fed.0, fed.1) == #[trigger] outcome(
                                before,
                                fed_event,
                                queued,
                            );
                        let longer = taken.push((fed_event, queued));
                        assert(longer.drop_last() =~= taken);
                        assert(longer.last() == (fed_event, queued));
                        assert(drained(start, longer) == (self.phase(), next));
                        assert forall|i: int| 0 <= i < longer.len() implies (#[trigger] drained(
                            start,
                            longer.subrange(0, i),
                        )).0 == Phase::Generating by {
                            if i < taken.len() {
                                assert(longer.subrange(0, i) =~= taken.subrange(0, i));
                            } else {
                                assert(longer.subrange(0, i) =~= taken);
                            }
                        }
                        taken = longer;
                    }
                },
            }
        }
        proof {
            assert(takes(start, taken));
        }
        next
    }
}

} // verus!
