use weave_writer::generation::{Directive, Event, Redraw};
use weave_writer::lifecycle::{Disconnected, StartAction};
use weave_writer::openai::{
    clamp_max_tokens, classify_chunk, combine, open_channels, opening_messages, ChatArguments,
    FetchError, Link, Message, Settings, TrySendError, Worker, COMMAND_CAPACITY, DEFAULT_MODEL,
    RESPONSE_CAPACITY,
};
use weave_writer::protocol::{Command, Response};

type Options = ChatArguments<()>;

fn message(role: &str, content: &str) -> Message {
    Message { role: role.to_string(), content: content.to_string() }
}

fn arguments(messages: Vec<Message>) -> Options {
    ChatArguments::new(DEFAULT_MODEL.to_string(), messages, ())
}

fn roles(arguments: &Options) -> Vec<&str> {
    arguments.messages.iter().map(|m| m.role.as_str()).collect()
}

#[test]
fn chunks_with_text_are_pieces() {
    let event: Option<Event<Options>> = classify_chunk(None, Some("Hello".to_string()));
    assert_eq!(event, Some(Event::Produced { piece: "Hello".to_string() }));
    let event: Option<Event<Options>> = classify_chunk(None, Some(String::new()));
    assert_eq!(event, Some(Event::Produced { piece: String::new() }));
}

#[test]
fn chunks_with_nothing_are_passed_over() {
    let event: Option<Event<Options>> = classify_chunk(None, None);
    assert_eq!(event, None);
}

#[test]
fn stop_and_max_tokens_finish_the_request() {
    let event: Option<Event<Options>> = classify_chunk(Some("stop".to_string()), None);
    assert_eq!(event, Some(Event::Finished));
    let event: Option<Event<Options>> =
        classify_chunk(Some("max_tokens".to_string()), Some("ignored".to_string()));
    assert_eq!(event, Some(Event::Finished));
}

#[test]
fn any_other_finish_reason_is_a_failure() {
    for reason in ["content_filter", "", "Stop", "stop ", "length"] {
        let event: Option<Event<Options>> = classify_chunk(Some(reason.to_string()), None);
        assert_eq!(event, Some(Event::Failed { detail: reason.to_string() }));
    }
}

#[test]
fn the_next_role_alternates() {
    let mut chat = arguments(vec![]);
    assert_eq!(chat.next_role(), "system");
    chat.add_message();
    assert_eq!(chat.next_role(), "user");
    chat.add_message();
    assert_eq!(chat.next_role(), "assistant");
    chat.add_message();
    chat.add_message();
    assert_eq!(roles(&chat), vec!["system", "user", "assistant", "user"]);
    assert!(chat.messages.iter().all(|m| m.content.is_empty()));
    let chat = arguments(vec![message("tool", "…")]);
    assert_eq!(chat.next_role(), "user");
    let chat = arguments(vec![message("assistant", "…")]);
    assert_eq!(chat.next_role(), "user");
}

#[test]
fn removed_messages_leave_the_others_in_order() {
    let all = vec![message("a", "0"), message("b", "1"), message("c", "2"), message("d", "3")];
    let mut chat = arguments(all.clone());
    chat.remove_messages(&vec![1, 3, 7]);
    assert_eq!(chat.messages, vec![message("a", "0"), message("c", "2")]);
    chat.remove_messages(&vec![]);
    assert_eq!(chat.messages.len(), 2);
    chat.remove_messages(&vec![0, 0, 1]);
    assert!(chat.messages.is_empty());
    let mut chat = arguments(all.clone());
    chat.remove_messages(&vec![9]);
    assert_eq!(chat.messages, all);
}

#[test]
fn stop_at_newline_is_a_single_stop_string() {
    let mut chat = arguments(vec![]);
    assert!(!chat.stops_at_newline());
    chat.set_stop_at_newline(true);
    assert_eq!(chat.stop, Some("\n".to_string()));
    assert!(chat.stops_at_newline());
    chat.set_stop_at_newline(false);
    assert_eq!(chat.stop, None);
    chat.stop = Some("END".to_string());
    assert!(!chat.stops_at_newline());
}

#[test]
fn max_tokens_are_clamped() {
    assert_eq!(clamp_max_tokens(0), 1);
    assert_eq!(clamp_max_tokens(1), 1);
    assert_eq!(clamp_max_tokens(1024), 1024);
    assert_eq!(clamp_max_tokens(128000), 128000);
    assert_eq!(clamp_max_tokens(128001), 128000);
    assert_eq!(clamp_max_tokens(u32::MAX), 128000);
}

#[test]
fn a_conversation_opens_with_three_messages() {
    let messages = opening_messages();
    let roles: Vec<&str> = messages.iter().map(|m| m.role.as_str()).collect();
    assert_eq!(roles, vec!["system", "user", "assistant"]);
    assert_eq!(messages[1].content, "Hi, GPT! Let's write a story together.");
    assert!(messages[0].content.starts_with("A user and an assistant are collaborating"));
    assert!(messages[2].content.ends_with("match your tone and style."));
}

#[test]
fn models_cannot_be_fetched_without_a_key() {
    let settings = Settings::new(String::new(), arguments(vec![]));
    assert!(settings.models().is_empty());
    assert_eq!(settings.check_fetch_models(), Err(FetchError::MissingApiKey));
    assert_eq!(
        FetchError::MissingApiKey.message(),
        "OpenAI API key is empty. Can't fetch models."
    );
    let settings = Settings::new("SECRET-REDACTED".to_string(), arguments(vec![]));
    assert_eq!(settings.check_fetch_models(), Ok(()));
}

fn started() -> (
    Worker<u32, ()>,
    futures::channel::mpsc::Receiver<Command<Options>>,
    futures::channel::mpsc::Sender<Response<Options>>,
) {
    let mut worker: Worker<u32, ()> = Worker::new();
    assert_eq!(worker.start(), Ok(StartAction::Spawn));
    let channels = open_channels::<()>();
    assert!(worker.attach(5, channels.commands.sender, channels.responses.receiver).is_none());
    (worker, channels.commands.receiver, channels.responses.sender)
}

#[test]
fn the_channels_are_bounded() {
    assert_eq!(COMMAND_CAPACITY, 128);
    assert_eq!(RESPONSE_CAPACITY, 4096);
    let channels = open_channels::<()>();
    assert_eq!(channels.commands.buffer, 128);
    assert_eq!(channels.responses.buffer, 4096);
}

#[test]
fn a_refused_command_is_reported_whole() {
    use_try_report();
}

fn use_try_report() {
    let delivered: Result<(), weave_writer::openai::Refused<Command<Options>>> = Ok(());
    assert_eq!(weave_writer::openai::try_report(delivered), Ok(()));
    for full in [true, false] {
        let refused = weave_writer::openai::Refused { message: Command::<Options>::Stop, full };
        assert_eq!(
            weave_writer::openai::try_report(Err(refused)),
            Err(TrySendError { command: Command::Stop, full })
        );
    }
}

#[test]
fn the_remote_link_acts_on_each_outcome_of_a_look() {
    let (mut worker, mut link) = linked();
    assert_eq!(link.arrived(weave_writer::protocol::Polled::Empty), None);
    assert_eq!(
        link.arrived(weave_writer::protocol::Polled::Message(Command::Stop)),
        Some((Redraw::Now, Directive::Await))
    );
    assert_eq!(received(&mut worker), vec![Response::Done]);
    assert_eq!(
        link.arrived(weave_writer::protocol::Polled::Disconnected),
        Some((Redraw::No, Directive::Exit))
    );
    assert_eq!(
        link.arrived(weave_writer::protocol::Polled::Message(Command::Stop)),
        Some((Redraw::No, Directive::Exit))
    );
}

#[test]
fn a_remote_worker_starts_once() {
    let (mut worker, _from_main, _to_main) = started();
    assert!(worker.is_alive());
    assert_eq!(worker.start(), Ok(StartAction::AlreadyAlive));
    assert_eq!(worker.start(), Ok(StartAction::AlreadyAlive));
    let channels = open_channels::<()>();
    let refused = worker.attach(6, channels.commands.sender, channels.responses.receiver);
    assert_eq!(refused.map(|parts| parts.0), Some(6));
    assert_eq!(worker.shutdown(), Some(5));
    assert!(!worker.is_alive());
    assert_eq!(worker.shutdown(), None);
    assert_eq!(worker.start(), Ok(StartAction::Spawn));
}

#[test]
fn commands_arrive_in_the_order_sent() {
    let (mut worker, mut from_main, _to_main) = started();
    let chat = arguments(vec![message("user", "Once")]);
    assert_eq!(worker.predict(chat.clone()), Ok(()));
    assert_eq!(worker.fetch_models(), Ok(()));
    assert_eq!(worker.try_stop(), Ok(()));
    assert_eq!(worker.stop(), Ok(()));
    assert_eq!(
        from_main.try_recv().ok(),
        Some(Command::Predict { text: String::new(), opts: chat })
    );
    assert_eq!(from_main.try_recv().ok(), Some(Command::FetchModels));
    assert_eq!(from_main.try_recv().ok(), Some(Command::Stop));
    assert_eq!(from_main.try_recv().ok(), Some(Command::Stop));
    assert!(from_main.try_recv().is_err());
}

#[test]
fn predict_on_a_dead_remote_worker_returns_the_command() {
    let mut worker: Worker<u32, ()> = Worker::new();
    let chat = arguments(vec![message("user", "Once")]);
    let sent = worker.predict(chat.clone());
    let expected = Command::Predict { text: String::new(), opts: chat };
    assert_eq!(sent, Err(TrySendError { command: expected.clone(), full: false }));
    let error = sent.unwrap_err();
    assert!(error.is_disconnected());
    assert!(!error.is_full());
    assert_eq!(error.into_inner(), expected);
    assert_eq!(worker.try_stop(), Ok(()));
    assert!(worker.fetch_models().is_err());
}

#[test]
fn a_command_for_a_dead_thread_comes_back() {
    let (mut worker, from_main, to_main) = started();
    drop(from_main);
    drop(to_main);
    let chat = arguments(vec![message("user", "lost?")]);
    let sent = worker.predict(chat.clone());
    assert_eq!(
        sent,
        Err(TrySendError {
            command: Command::Predict { text: String::new(), opts: chat },
            full: false
        })
    );
    assert_eq!(worker.try_stop(), Err(TrySendError { command: Command::Stop, full: false }));
}

#[test]
fn a_full_command_channel_hands_the_command_back() {
    let (mut worker, from_main, _to_main) = started();
    let mut accepted = 0;
    let mut refused = None;
    for _ in 0..(COMMAND_CAPACITY + 8) {
        match worker.fetch_models() {
            Ok(()) => accepted += 1,
            Err(error) => {
                refused = Some(error);
                break;
            }
        }
    }
    let error = refused.unwrap();
    assert!(accepted >= COMMAND_CAPACITY);
    assert!(error.is_full());
    assert!(!error.is_disconnected());
    assert_eq!(error.into_inner(), Command::FetchModels);
    assert!(worker.is_alive());
    drop(from_main);
}

#[test]
fn remote_responses_are_received_in_the_order_sent() {
    let (mut worker, _from_main, mut to_main) = started();
    assert_eq!(worker.try_recv(), None);
    for piece in ["a", "b", "c"] {
        to_main.try_send(Response::Predicted { piece: piece.to_string() }).unwrap();
    }
    to_main.try_send(Response::Done).unwrap();
    assert_eq!(worker.try_recv(), Some(Ok(Response::Predicted { piece: "a".to_string() })));
    assert_eq!(worker.try_recv(), Some(Ok(Response::Predicted { piece: "b".to_string() })));
    assert_eq!(worker.try_recv(), Some(Ok(Response::Predicted { piece: "c".to_string() })));
    assert_eq!(worker.try_recv(), Some(Ok(Response::Done)));
    assert_eq!(worker.try_recv(), None);
    assert!(worker.is_alive());
}

#[test]
fn remote_disconnection_is_reported_once() {
    let (mut worker, from_main, to_main) = started();
    drop(to_main);
    drop(from_main);
    assert!(worker.is_alive());
    assert_eq!(worker.try_recv(), Some(Err(Disconnected { handle: 5 })));
    assert!(!worker.is_alive());
    assert_eq!(worker.try_recv(), None);
}

fn linked() -> (Worker<u32, ()>, Link<()>) {
    let mut worker: Worker<u32, ()> = Worker::new();
    let channels = open_channels::<()>();
    assert!(worker.attach(2, channels.commands.sender, channels.responses.receiver).is_none());
    (worker, Link::new(channels.commands.receiver, channels.responses.sender))
}

fn received(worker: &mut Worker<u32, ()>) -> Vec<Response<Options>> {
    let mut all = Vec::new();
    while let Some(Ok(response)) = worker.try_recv() {
        all.push(response);
    }
    all
}

/// Takes the next command off the channel, as the waiting thread would.
fn next_command(link: &mut Link<()>) -> Event<Options> {
    match link.commands().try_recv() {
        Ok(command) => Event::Command(command),
        Err(_) => Event::Disconnected,
    }
}

#[test]
fn the_remote_link_streams_a_completion() {
    let (mut worker, mut link) = linked();
    let chat = arguments(vec![message("user", "Once")]);
    assert_eq!(worker.predict(chat.clone()), Ok(()));
    let event = next_command(&mut link);
    assert_eq!(
        link.feed(event),
        (Redraw::No, Directive::Generate { text: String::new(), opts: chat })
    );
    assert!(link.is_generating());
    assert_eq!(link.checkpoint(), None);
    for delta in ["a", "b"] {
        let event = classify_chunk(None, Some(delta.to_string())).unwrap();
        assert_eq!(link.feed(event), (Redraw::Now, Directive::Proceed));
    }
    let event = classify_chunk(Some("stop".to_string()), None).unwrap();
    assert_eq!(link.feed(event), (Redraw::NowAndAfter { millis: 100 }, Directive::Await));
    assert!(!link.is_generating());
    assert_eq!(
        received(&mut worker),
        vec![
            Response::Predicted { piece: "a".to_string() },
            Response::Predicted { piece: "b".to_string() },
            Response::Done,
        ]
    );
}

#[test]
fn the_remote_checkpoint_takes_every_command_that_has_arrived() {
    let (mut worker, mut link) = linked();
    let chat = arguments(vec![]);
    assert_eq!(worker.predict(chat.clone()), Ok(()));
    let event = next_command(&mut link);
    link.feed(event);
    // Two commands that must wait, a stop, and one more behind it.
    assert_eq!(worker.fetch_models(), Ok(()));
    assert_eq!(worker.predict(chat.clone()), Ok(()));
    assert_eq!(worker.try_stop(), Ok(()));
    assert_eq!(worker.fetch_models(), Ok(()));
    assert_eq!(
        link.checkpoint(),
        Some((Redraw::NowAndAfter { millis: 100 }, Directive::Await))
    );
    assert!(!link.is_generating());
    // The request is over: the checkpoint leaves the rest for the idle loop.
    assert_eq!(link.checkpoint(), None);
    assert_eq!(
        received(&mut worker),
        vec![
            Response::Busy { command: Command::FetchModels },
            Response::Busy { command: Command::Predict { text: String::new(), opts: chat } },
            Response::Done,
        ]
    );
    let event = next_command(&mut link);
    assert_eq!(link.feed(event), (Redraw::No, Directive::FetchModels));
}

#[test]
fn the_remote_checkpoint_goes_on_after_a_busy_echo() {
    let (mut worker, mut link) = linked();
    assert_eq!(worker.predict(arguments(vec![])), Ok(()));
    let event = next_command(&mut link);
    link.feed(event);
    assert_eq!(worker.fetch_models(), Ok(()));
    assert_eq!(link.checkpoint(), Some((Redraw::Now, Directive::Proceed)));
    assert!(link.is_generating());
}

#[test]
fn the_remote_link_leaves_when_the_caller_is_gone() {
    let (mut worker, mut link) = linked();
    assert_eq!(worker.predict(arguments(vec![])), Ok(()));
    let event = next_command(&mut link);
    link.feed(event);
    assert_eq!(worker.shutdown(), Some(2));
    assert_eq!(link.checkpoint(), Some((Redraw::No, Directive::Exit)));
    assert!(!link.is_generating());
    // A response that nobody can read ends the loop as well.
    let (mut worker, mut link) = linked();
    assert_eq!(worker.try_stop(), Ok(()));
    let event = next_command(&mut link);
    drop(worker);
    assert_eq!(link.feed(event), (Redraw::No, Directive::Exit));
    assert_eq!(link.feed(Event::Finished), (Redraw::No, Directive::Exit));
}

#[test]
fn the_more_urgent_redraw_wins() {
    let late = Redraw::NowAndAfter { millis: 100 };
    assert_eq!(combine(Redraw::No, Redraw::No), Redraw::No);
    assert_eq!(combine(Redraw::No, Redraw::Now), Redraw::Now);
    assert_eq!(combine(Redraw::Now, Redraw::No), Redraw::Now);
    assert_eq!(combine(Redraw::Now, late), late);
    assert_eq!(combine(late, Redraw::Now), late);
    assert_eq!(combine(late, Redraw::No), late);
}
