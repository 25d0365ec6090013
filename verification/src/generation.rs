//! The generation loop: what a worker does with each thing that happens.
//!
//! The loop has two working states. Idle, it waits for a command.
//! Generating, it produces one unit of text after another and, before each,
//! looks once at the command channel. The thread that runs the loop feeds
//! it events and carries out what it answers; nothing here blocks.

use vstd::prelude::*;
use crate::protocol::{Capabilities, Command, Response};

verus! {

/// Milliseconds after the end of a request at which the owner is asked to
/// draw once more, so that the last unit is seen.
pub const REDRAW_DELAY_MILLIS: u64 = 100;

/// Where the loop stands.
#[derive(Debug, Clone, Copy, PartialEq, Eq, Structural)]
pub enum Phase {
    /// Waiting for the next command.
    Idle,
    /// Producing text for a request.
    Generating,
    /// The command channel is gone; the thread ends.
    Exited,
}

/// Something that happened to the worker thread.
#[derive(Debug, Clone, PartialEq, Eq)]
pub enum Event<O> {
    /// A command arrived, by a blocking receive when idle or at a
    /// checkpoint while generating.
    Command(Command<O>),
    /// The command channel was found disconnected.
    Disconnected,
    /// The backend produced one unit of text.
    Produced { piece: String },
    /// The backend reached the end of the request by itself.
    Finished,
    /// The backend failed: a model would not load, a context could not be
    /// made, the network gave up.
    Failed { detail: String },
    /// The model at `path` was loaded.
    Loaded { path: String, capabilities: Capabilities },
    /// The service listed its models.
    Catalog { models: Vec<String> },
}

/// What the thread does next.
#[derive(Debug, Clone, PartialEq, Eq)]
pub enum Directive<O> {
    /// Block until the next command.
    Await,
    /// Start the backend on this request.
    Generate { text: String, opts: O },
    /// Go on with the request in hand: look at the command channel, pull
    /// the next unit.
    Proceed,
    /// Load the model at `path` and report `Loaded` or `Failed`.
    LoadModel { path: String },
    /// Fetch the catalog and report `Catalog` or `Failed`.
    FetchModels,
    /// Leave the thread.
    Exit,
}

/// Whether the owner is asked to draw again.
#[derive(Debug, Clone, Copy, PartialEq, Eq, Structural)]
pub enum Redraw {
    No,
    /// As soon as it can.
    Now,
    /// As soon as it can, and once more after `millis`.
    NowAndAfter { millis: u64 },
}

/// The loop's answer to one event.
#[derive(Debug, Clone, PartialEq, Eq)]
pub struct Step<O> {
    /// What to send to the caller, if anything.
    pub response: Option<Response<O>>,
    /// Whether to ask for a redraw, after sending.
    pub redraw: Redraw,
    /// What to do next.
    pub directive: Directive<O>,
}

/// The phase that follows `phase` on `event`.
pub open spec fn next_phase<O>(phase: Phase, event: Event<O>) -> Phase {
    match (phase, event) {
        (Phase::Exited, _) => Phase::Exited,
        (_, Event::Disconnected) => Phase::Exited,
        (Phase::Idle, Event::Command(Command::Predict { .. })) => Phase::Generating,
        (Phase::Generating, Event::Command(Command::Stop)) => Phase::Idle,
        (Phase::Generating, Event::Finished) => Phase::Idle,
        (Phase::Generating, Event::Failed { .. }) => Phase::Idle,
        _ => phase,
    }
}

/// What is sent to the caller when `event` happens in `phase`.
pub open spec fn response_to<O>(phase: Phase, event: Event<O>) -> Option<Response<O>> {
    match (phase, event) {
        (Phase::Idle, Event::Command(Command::Stop)) => Some(Response::Done),
        (Phase::Idle, Event::Failed { detail }) => Some(Response::Error { detail }),
        (Phase::Idle, Event::Loaded { path, capabilities }) => Some(
            Response::LoadedModel { path, capabilities },
        ),
        (Phase::Idle, Event::Catalog { models }) => Some(Response::Models { models }),
        (Phase::Generating, Event::Command(Command::Stop)) => Some(Response::Done),
        (Phase::Generating, Event::Command(command)) => Some(Response::Busy { command }),
        (Phase::Generating, Event::Produced { piece }) => Some(Response::Predicted { piece }),
        (Phase::Generating, Event::Finished) => Some(Response::Done),
        (Phase::Generating, Event::Failed { detail }) => Some(Response::Error { detail }),
        _ => None,
    }
}

/// What the thread does after `event` happened in `phase`.
pub open spec fn directive_after<O>(phase: Phase, event: Event<O>) -> Directive<O> {
    match (phase, event) {
        (Phase::Exited, _) => Directive::Exit,
        (_, Event::Disconnected) => Directive::Exit,
        (Phase::Idle, Event::Command(Command::Predict { text, opts })) => Directive::Generate {
            text,
            opts,
        },
        (Phase::Idle, Event::Command(Command::LoadModel { path })) => Directive::LoadModel {
            path,
        },
        (Phase::Idle, Event::Command(Command::FetchModels)) => Directive::FetchModels,
        (Phase::Idle, _) => Directive::Await,
        (Phase::Generating, _) => if next_phase(phase, event) == Phase::Generating {
            Directive::Proceed
        } else {
            Directive::Await
        },
    }
}

/// Whether the owner is asked to draw after `event` happened in `phase`:
/// after every response, and once more a little later when a request ends.
pub open spec fn redraw_after<O>(phase: Phase, event: Event<O>) -> Redraw {
    if response_to(phase, event) is None {
        Redraw::No
    } else if phase == Phase::Generating && next_phase(phase, event) == Phase::Idle {
        Redraw::NowAndAfter { millis: REDRAW_DELAY_MILLIS }
    } else {
        Redraw::Now
    }
}

/// The loop's whole answer to `event` in `phase`.
pub open spec fn answer<O>(phase: Phase, event: Event<O>) -> Step<O> {
    Step {
        response: response_to(phase, event),
        redraw: redraw_after(phase, event),
        directive: directive_after(phase, event),
    }
}

/// The state of one worker's generation loop.
#[derive(Debug, Clone, Copy, PartialEq, Eq)]
pub struct GenerationLoop {
    phase: Phase,
}

impl View for GenerationLoop {
    type V = Phase;

    closed spec fn view(&self) -> Phase {
        self.phase
    }
}

impl GenerationLoop {
    /// A loop that waits for its first command.
    pub fn new() -> (fresh: Self)
        ensures
            fresh@ == Phase::Idle,
    {
        GenerationLoop { phase: Phase::Idle }
    }

    /// Where the loop stands.
    pub fn phase(&self) -> (phase: Phase)
        ensures
            phase == self@,
    {
        self.phase
    }

    /// Whether a request is in progress.
    pub fn is_generating(&self) -> (r: bool)
        ensures
            r == (self@ == Phase::Generating),
    {
        self.phase == Phase::Generating
    }

    /// Takes in one event and says what to send, whether to redraw and
    /// what to do next.
    ///
    /// While generating, only `Stop` and a disconnected channel end the
    /// request early; every other command comes back in a `Busy`. Once the
    /// loop is idle again, units that the backend still hands over are
    /// dropped. An event that cannot happen in the current phase changes
    /// nothing.
    pub fn step<O>(&mut self, event: Event<O>) -> (out: Step<O>)
        ensures
            final(self)@ == next_phase(old(self)@, event),
            out == answer(old(self)@, event),
    {
        let phase = self.phase;
        match phase {
            Phase::Exited => Step {
                response: None,
                redraw: Redraw::No,
                directive: Directive::Exit,
            },
            Phase::Idle => match event {
                Event::Disconnected => {
                    self.phase = Phase::Exited;
                    Step { response: None, redraw: Redraw::No, directive: Directive::Exit }
                },
                Event::Command(Command::Stop) => Step {
                    response: Some(Response::Done),
                    redraw: Redraw::Now,
                    directive: Directive::Await,
                },
                Event::Command(Command::Predict { text, opts }) => {
                    self.phase = Phase::Generating;
                    Step {
                        response: None,
                        redraw: Redraw::No,
                        directive: Directive::Generate { text, opts },
                    }
                },
                Event::Command(Command::LoadModel { path }) => Step {
                    response: None,
                    redraw: Redraw::No,
                    directive: Directive::LoadModel { path },
                },
                Event::Command(Command::FetchModels) => Step {
                    response: None,
                    redraw: Redraw::No,
                    directive: Directive::FetchModels,
                },
                Event::Failed { detail } => Step {
                    response: Some(Response::Error { detail }),
                    redraw: Redraw::Now,
                    directive: Directive::Await,
                },
                Event::Loaded { path, capabilities } => Step {
                    response: Some(Response::LoadedModel { path, capabilities }),
                    redraw: Redraw::Now,
                    directive: Directive::Await,
                },
                Event::Catalog { models } => Step {
                    response: Some(Response::Models { models }),
                    redraw: Redraw::Now,
                    directive: Directive::Await,
                },
                Event::Produced { .. } => Step {
                    response: None,
                    redraw: Redraw::No,
                    directive: Directive::Await,
                },
                Event::Finished => Step {
                    response: None,
                    redraw: Redraw::No,
                    directive: Directive::Await,
                },
            },
            Phase::Generating => match event {
                Event::Disconnected => {
                    self.phase = Phase::Exited;
                    Step { response: None, redraw: Redraw::No, directive: Directive::Exit }
                },
                Event::Command(Command::Stop) => {
                    self.phase = Phase::Idle;
                    Step {
                        response: Some(Response::Done),
                        redraw: Redraw::NowAndAfter { millis: REDRAW_DELAY_MILLIS },
                        directive: Directive::Await,
                    }
                },
                Event::Command(command) => Step {
                    response: Some(Response::Busy { command }),
                    redraw: Redraw::Now,
                    directive: Directive::Proceed,
                },
                Event::Produced { piece } => Step {
                    response: Some(Response::Predicted { piece }),
                    redraw: Redraw::Now,
                    directive: Directive::Proceed,
                },
                Event::Finished => {
                    self.phase = Phase::Idle;
                    Step {
                        response: Some(Response::Done),
                        redraw: Redraw::NowAndAfter { millis: REDRAW_DELAY_MILLIS },
                        directive: Directive::Await,
                    }
                },
                Event::Failed { detail } => {
                    self.phase = Phase::Idle;
                    Step {
                        response: Some(Response::Error { detail }),
                        redraw: Redraw::NowAndAfter { millis: REDRAW_DELAY_MILLIS },
                        directive: Directive::Await,
                    }
                },
                Event::Loaded { .. } => Step {
                    response: None,
                    redraw: Redraw::No,
                    directive: Directive::Proceed,
                },
                Event::Catalog { .. } => Step {
                    response: None,
                    redraw: Redraw::No,
                    directive: Directive::Proceed,
                },
            },
        }
    }
}

/// The phase the loop is in after `events` happened, in order, starting
/// from `phase`.
pub open spec fn phase_after<O>(phase: Phase, events: Seq<Event<O>>) -> Phase
    decreases events.len(),
{
    if events.len() == 0 {
        phase
    } else {
        phase_after(next_phase(phase, events[0]), events.drop_first())
    }
}

/// Everything the loop sends to the caller while `events` happen, in the
/// order in which it is sent, starting from `phase`.
pub open spec fn sent_during<O>(phase: Phase, events: Seq<Event<O>>) -> Seq<Response<O>>
    decreases events.len(),
{
    if events.len() == 0 {
        Seq::empty()
    } else {
        let rest = sent_during(next_phase(phase, events[0]), events.drop_first());
        match response_to(phase, events[0]) {
            Some(response) => seq![response] + rest,
            None => rest,
        }
    }
}

/// Whether `event` is one that the command channel can bring.
pub open spec fn arrives<O>(event: Event<O>) -> bool {
    event is Command || event is Disconnected
}

/// Whether `event` is a command that opens a new request.
pub open spec fn opens_request<O>(event: Event<O>) -> bool {
    match event {
        Event::Command(Command::Predict { .. }) => true,
        _ => false,
    }
}

/// No event in `events` opens a new request.
pub open spec fn within_one_request<O>(events: Seq<Event<O>>) -> bool {
    forall|i: int| 0 <= i < events.len() ==> !opens_request(#[trigger] events[i])
}

/// The command channel stays connected throughout `events`.
pub open spec fn stays_connected<O>(events: Seq<Event<O>>) -> bool {
    forall|i: int| 0 <= i < events.len() ==> !(#[trigger] events[i] is Disconnected)
}

/// No response in `sent` carries generated text.
pub open spec fn nothing_predicted<O>(sent: Seq<Response<O>>) -> bool {
    forall|j: int| 0 <= j < sent.len() ==> !(#[trigger] sent[j] is Predicted)
}

/// No response in `sent` is a `Done`.
pub open spec fn nothing_done<O>(sent: Seq<Response<O>>) -> bool {
    forall|j: int| 0 <= j < sent.len() ==> !(#[trigger] sent[j] is Done)
}

/// No response in `sent` ends a request: none is a `Done` or an `Error`.
pub open spec fn nothing_terminal<O>(sent: Seq<Response<O>>) -> bool {
    forall|j: int| 0 <= j < sent.len() ==> !(#[trigger] sent[j] is Done) && !(sent[j] is Error)
}

/// The events of a backend that produces `pieces` one by one.
pub open spec fn produced<O>(pieces: Seq<String>) -> Seq<Event<O>> {
    Seq::new(pieces.len(), |i: int| Event::Produced { piece: pieces[i] })
}

/// One `Predicted` for each of `pieces`, in order.
pub open spec fn predicted<O>(pieces: Seq<String>) -> Seq<Response<O>> {
    Seq::new(pieces.len(), |i: int| Response::Predicted { piece: pieces[i] })
}

/// A run over a single event is one step.
pub proof fn lemma_run_single<O>(phase: Phase, event: Event<O>)
    ensures
        phase_after(phase, seq![event]) == next_phase(phase, event),
        sent_during(phase, seq![event]) == match response_to(phase, event) {
            Some(response) => seq![response],
            None => Seq::<Response<O>>::empty(),
        },
{
    reveal_with_fuel(phase_after, 2);
    reveal_with_fuel(sent_during, 2);
    let events = seq![event];
    assert(events[0] == event);
    assert(events.drop_first() =~= Seq::<Event<O>>::empty());
    match response_to(phase, event) {
        Some(response) => {
            assert(seq![response] + Seq::<Response<O>>::empty() =~= seq![response]);
        },
        None => {},
    }
}

/// A run over `head` followed by `tail` is the run over `head` continued
/// by the run over `tail` from where `head` left the loop.
pub proof fn lemma_run_split<O>(phase: Phase, head: Seq<Event<O>>, tail: Seq<Event<O>>)
    ensures
        phase_after(phase, head + tail) == phase_after(phase_after(phase, head), tail),
        sent_during(phase, head + tail) == sent_during(phase, head) + sent_during(
            phase_after(phase, head),
            tail,
        ),
    decreases head.len(),
{
    if head.len() == 0 {
        assert(head + tail =~= tail);
        assert(sent_during(phase, head) + sent_during(phase, tail) =~= sent_during(phase, tail));
    } else {
        let next = next_phase(phase, head[0]);
        assert((head + tail)[0] == head[0]);
        assert((head + tail).drop_first() =~= head.drop_first() + tail);
        lemma_run_split(next, head.drop_first(), tail);
        let first = sent_during(next, head.drop_first());
        let second = sent_during(phase_after(phase, head), tail);
        match response_to(phase, head[0]) {
            Some(response) => {
                assert(seq![response] + (first + second) =~= (seq![response] + first) + second);
            },
            None => {},
        }
    }
}

/// Outside a request the loop sends no text, and without a new request it
/// does not start generating.
pub proof fn lemma_quiet_outside_request<O>(phase: Phase, events: Seq<Event<O>>)
    requires
        phase != Phase::Generating,
        within_one_request(events),
    ensures
        phase_after(phase, events) != Phase::Generating,
        nothing_predicted(sent_during(phase, events)),
    decreases events.len(),
{
    if events.len() > 0 {
        let next = next_phase(phase, events[0]);
        assert(!opens_request(events[0]));
        assert forall|i: int| 0 <= i < events.drop_first().len() implies !opens_request(
            #[trigger] events.drop_first()[i],
        ) by {
            assert(events.drop_first()[i] == events[i + 1]);
        }
        lemma_quiet_outside_request(next, events.drop_first());
        let rest = sent_during(next, events.drop_first());
        match response_to(phase, events[0]) {
            Some(response) => {
                assert forall|j: int| 0 <= j < (seq![response] + rest).len() implies !(#[trigger] (
                seq![response] + rest)[j] is Predicted) by {
                    if j > 0 {
                        assert((seq![response] + rest)[j] == rest[j - 1]);
                    }
                }
            },
            None => {},
        }
    }
}

/// A loop that is still generating after `events` has sent no `Done` and
/// no `Error` on the way.
pub proof fn lemma_no_done_while_generating<O>(events: Seq<Event<O>>)
    requires
        within_one_request(events),
        phase_after(Phase::Generating, events) == Phase::Generating,
    ensures
        nothing_terminal(sent_during(Phase::Generating, events)),
        nothing_done(sent_during(Phase::Generating, events)),
    decreases events.len(),
{
    if events.len() > 0 {
        let next = next_phase(Phase::Generating, events[0]);
        assert(!opens_request(events[0]));
        assert forall|i: int| 0 <= i < events.drop_first().len() implies !opens_request(
            #[trigger] events.drop_first()[i],
        ) by {
            assert(events.drop_first()[i] == events[i + 1]);
        }
        if next != Phase::Generating {
            lemma_quiet_outside_request(next, events.drop_first());
        }
        lemma_no_done_while_generating(events.drop_first());
        let rest = sent_during(next, events.drop_first());
        match response_to(Phase::Generating, events[0]) {
            Some(response) => {
                assert forall|j: int| 0 <= j < (seq![response] + rest).len() implies !(#[trigger] (
                seq![response] + rest)[j] is Done) && !((seq![response] + rest)[j] is Error) by {
                    if j > 0 {
                        assert((seq![response] + rest)[j] == rest[j - 1]);
                    }
                }
            },
            None => {},
        }
    }
}

/// While the command channel stays connected the loop does not exit.
pub proof fn lemma_connected_loop_lives<O>(phase: Phase, events: Seq<Event<O>>)
    requires
        phase != Phase::Exited,
        stays_connected(events),
    ensures
        phase_after(phase, events) != Phase::Exited,
    decreases events.len(),
{
    if events.len() > 0 {
        assert(!(events[0] is Disconnected));
        assert forall|i: int| 0 <= i < events.drop_first().len() implies !(
        #[trigger] events.drop_first()[i] is Disconnected) by {
            assert(events.drop_first()[i] == events[i + 1]);
        }
        lemma_connected_loop_lives(next_phase(phase, events[0]), events.drop_first());
    }
}

/// Busy echo: a command other than `Stop` that arrives during a generation
/// comes back in a `Busy` exactly as it was sent, and the generation goes
/// on.
pub proof fn law_busy_echo<O>(command: Command<O>)
    requires
        !(command is Stop),
    ensures
        next_phase(Phase::Generating, Event::Command(command)) == Phase::Generating,
        answer(Phase::Generating, Event::Command(command)) == (Step {
            response: Some(Response::Busy { command }),
            redraw: Redraw::Now,
            directive: Directive::Proceed,
        }),
{
}

/// Ordering: a request whose backend produces `pieces` and finishes sends
/// one `Predicted` per piece, in the order produced, and one `Done` after
/// the last; nothing is sent twice and nothing else comes between.
pub proof fn law_pieces_in_order<O>(pieces: Seq<String>)
    ensures
        phase_after(Phase::Generating, produced::<O>(pieces).push(Event::Finished))
            == Phase::Idle,
        sent_during(Phase::Generating, produced::<O>(pieces).push(Event::Finished))
            == predicted::<O>(pieces).push(Response::Done),
    decreases pieces.len(),
{
    let events = produced::<O>(pieces).push(Event::Finished);
    let expected = predicted::<O>(pieces).push(Response::Done);
    if pieces.len() == 0 {
        assert(events =~= seq![Event::<O>::Finished]);
        lemma_run_single(Phase::Generating, Event::<O>::Finished);
        assert(expected =~= seq![Response::<O>::Done]);
    } else {
        let rest = pieces.drop_first();
        law_pieces_in_order::<O>(rest);
        assert(events[0] == Event::<O>::Produced { piece: pieces[0] });
        assert(events.drop_first() =~= produced::<O>(rest).push(Event::Finished));
        assert(seq![Response::<O>::Predicted { piece: pieces[0] }] + predicted::<O>(rest).push(
            Response::Done,
        ) =~= expected);
    }
}

/// Cancellation converges. Take a request in progress. Let `before` be
/// anything that happens next without the channel disconnecting, let a
/// `Stop` arrive, and let `after` be anything that follows short of a new
/// request. The `Stop` leaves the loop idle and the last thing sent for it
/// is a `Done`; if the request was still running when the `Stop` arrived,
/// that `Done` is the only one; and no text is sent afterwards.
pub proof fn law_stop_converges<O>(before: Seq<Event<O>>, after: Seq<Event<O>>)
    requires
        within_one_request(before),
        stays_connected(before),
        within_one_request(after),
    ensures
        phase_after(Phase::Generating, before.push(Event::Command(Command::Stop)))
            == Phase::Idle,
        sent_during(Phase::Generating, before.push(Event::Command(Command::Stop))).len() > 0,
        sent_during(Phase::Generating, before.push(Event::Command(Command::Stop))).last()
            == Response::<O>::Done,
        phase_after(Phase::Generating, before) == Phase::Generating ==> nothing_done(
            sent_during(Phase::Generating, before.push(Event::Command(Command::Stop))).drop_last(),
        ),
        nothing_predicted(sent_during(Phase::Idle, after)),
        sent_during(Phase::Generating, before.push(Event::Command(Command::Stop)) + after)
            == sent_during(Phase::Generating, before.push(Event::Command(Command::Stop)))
            + sent_during(Phase::Idle, after),
{
    let stop = seq![Event::<O>::Command(Command::Stop)];
    let reached = phase_after(Phase::Generating, before);
    assert(before.push(Event::Command(Command::Stop)) =~= before + stop);
    lemma_run_split(Phase::Generating, before, stop);
    lemma_connected_loop_lives(Phase::Generating, before);
    lemma_run_single(reached, Event::<O>::Command(Command::Stop));
    let sent = sent_during(Phase::Generating, before) + seq![Response::<O>::Done];
    assert(sent.last() == Response::<O>::Done);
    assert(sent.drop_last() =~= sent_during(Phase::Generating, before));
    if reached == Phase::Generating {
        lemma_no_done_while_generating(before);
    }
    lemma_quiet_outside_request(Phase::Idle, after);
    lemma_run_split(Phase::Generating, before + stop, after);
}

/// A `Done` is terminal, and so is an `Error`: once a request has sent
/// either, nothing that happens before the next request makes the loop
/// send text.
pub proof fn law_done_is_terminal<O>(head: Seq<Event<O>>, tail: Seq<Event<O>>)
    requires
        within_one_request(head),
        within_one_request(tail),
        !nothing_terminal(sent_during(Phase::Generating, head)),
    ensures
        phase_after(Phase::Generating, head) != Phase::Generating,
        nothing_predicted(sent_during(phase_after(Phase::Generating, head), tail)),
{
    if phase_after(Phase::Generating, head) == Phase::Generating {
        lemma_no_done_while_generating(head);
    }
    lemma_quiet_outside_request(phase_after(Phase::Generating, head), tail);
}

/// A disconnected command channel ends the loop at once and for good:
/// nothing is sent for the disconnection or for anything after it.
pub proof fn law_disconnect_is_silent<O>(phase: Phase, events: Seq<Event<O>>)
    ensures
        phase_after(phase, seq![Event::<O>::Disconnected] + events) == Phase::Exited,
        sent_during(phase, seq![Event::<O>::Disconnected] + events) =~= Seq::<
            Response<O>,
        >::empty(),
{
    let first = seq![Event::<O>::Disconnected];
    lemma_run_split(phase, first, events);
    lemma_run_single(phase, Event::<O>::Disconnected);
    lemma_exited_is_silent(events);
}

/// A loop that has exited sends nothing more.
pub proof fn lemma_exited_is_silent<O>(events: Seq<Event<O>>)
    ensures
        phase_after(Phase::Exited, events) == Phase::Exited,
        sent_during(Phase::Exited, events) =~= Seq::<Response<O>>::empty(),
    decreases events.len(),
{
    if events.len() > 0 {
        lemma_exited_is_silent(events.drop_first());
    }
}

} // verus!
