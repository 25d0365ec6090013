use weave_writer::generation::{
    Directive, Event, GenerationLoop, Phase, Redraw, Step, REDRAW_DELAY_MILLIS,
};
use weave_writer::protocol::{Capabilities, Command, Response};

type Options = u32;

fn predict(text: &str, opts: Options) -> Event<Options> {
    Event::Command(Command::Predict { text: text.to_string(), opts })
}

fn produced(piece: &str) -> Event<Options> {
    Event::Produced { piece: piece.to_string() }
}

fn predicted(piece: &str) -> Response<Options> {
    Response::Predicted { piece: piece.to_string() }
}

/// Feeds the events to the loop and collects what it sends.
fn run(state: &mut GenerationLoop, events: Vec<Event<Options>>) -> Vec<Response<Options>> {
    let mut sent = Vec::new();
    for event in events {
        if let Some(response) = state.step(event).response {
            sent.push(response);
        }
    }
    sent
}

fn generating() -> GenerationLoop {
    let mut state = GenerationLoop::new();
    let step = state.step(predict("Once upon a time", 50));
    assert_eq!(
        step,
        Step {
            response: None,
            redraw: Redraw::No,
            directive: Directive::Generate { text: "Once upon a time".to_string(), opts: 50 },
        }
    );
    assert!(state.is_generating());
    state
}

#[test]
fn a_new_loop_is_idle() {
    let state = GenerationLoop::new();
    assert_eq!(state.phase(), Phase::Idle);
    assert!(!state.is_generating());
    assert_eq!(REDRAW_DELAY_MILLIS, 100);
}

#[test]
fn pieces_are_sent_in_the_order_produced_and_done_comes_last() {
    let mut state = generating();
    let sent = run(
        &mut state,
        vec![produced("a"), produced("b"), produced("c"), Event::Finished],
    );
    assert_eq!(sent, vec![predicted("a"), predicted("b"), predicted("c"), Response::Done]);
    assert_eq!(state.phase(), Phase::Idle);
}

#[test]
fn a_request_without_pieces_sends_only_done() {
    let mut state = generating();
    assert_eq!(run(&mut state, vec![Event::Finished]), vec![Response::Done]);
    assert_eq!(state.phase(), Phase::Idle);
}

#[test]
fn every_produced_piece_asks_for_a_redraw() {
    let mut state = generating();
    let step = state.step(produced("x"));
    assert_eq!(
        step,
        Step {
            response: Some(predicted("x")),
            redraw: Redraw::Now,
            directive: Directive::Proceed,
        }
    );
}

#[test]
fn the_end_of_a_request_asks_for_a_late_redraw() {
    let mut state = generating();
    let step = state.step(Event::<Options>::Finished);
    assert_eq!(
        step,
        Step {
            response: Some(Response::Done),
            redraw: Redraw::NowAndAfter { millis: 100 },
            directive: Directive::Await,
        }
    );
}

#[test]
fn stop_while_generating_sends_one_done_and_no_text_after_it() {
    let mut state = generating();
    let mut sent = run(&mut state, vec![produced("a"), produced("b")]);
    sent.extend(run(&mut state, vec![Event::Command(Command::Stop)]));
    assert_eq!(state.phase(), Phase::Idle);
    // The backend may still hand over what it had in flight.
    sent.extend(run(&mut state, vec![produced("late"), Event::Finished, produced("later")]));
    assert_eq!(sent, vec![predicted("a"), predicted("b"), Response::Done]);
    assert_eq!(sent.iter().filter(|r| **r == Response::Done).count(), 1);
    assert_eq!(state.phase(), Phase::Idle);
}

#[test]
fn stop_at_every_point_of_a_request_converges() {
    let pieces = ["a", "b", "c", "d"];
    for stop_after in 0..=pieces.len() {
        let mut state = generating();
        let mut events: Vec<Event<Options>> =
            pieces[..stop_after].iter().map(|p| produced(p)).collect();
        events.push(Event::Command(Command::Stop));
        events.extend(pieces[stop_after..].iter().map(|p| produced(p)));
        events.push(Event::Finished);
        let sent = run(&mut state, events);
        assert_eq!(sent.len(), stop_after + 1);
        assert_eq!(sent.last(), Some(&Response::Done));
        assert_eq!(sent.iter().filter(|r| **r == Response::Done).count(), 1);
        assert!(sent[..stop_after].iter().all(|r| r.is_predicted()));
        assert_eq!(state.phase(), Phase::Idle);
    }
}

#[test]
fn a_stop_that_loses_the_race_is_acknowledged_when_idle() {
    let mut state = generating();
    let sent = run(
        &mut state,
        vec![produced("a"), Event::Finished, Event::Command(Command::Stop)],
    );
    assert_eq!(sent, vec![predicted("a"), Response::Done, Response::Done]);
    assert_eq!(state.phase(), Phase::Idle);
}

#[test]
fn stop_when_idle_is_acknowledged_and_the_loop_goes_on() {
    let mut state = GenerationLoop::new();
    let step = state.step(Event::<Options>::Command(Command::Stop));
    assert_eq!(
        step,
        Step { response: Some(Response::Done), redraw: Redraw::Now, directive: Directive::Await }
    );
    assert_eq!(state.phase(), Phase::Idle);
}

#[test]
fn commands_during_a_generation_come_back_busy() {
    let commands: Vec<Command<Options>> = vec![
        Command::Predict { text: "again".to_string(), opts: 7 },
        Command::LoadModel { path: "/models/other.gguf".to_string() },
        Command::FetchModels,
    ];
    for command in commands {
        let mut state = generating();
        let step = state.step(Event::Command(command.clone()));
        assert_eq!(
            step,
            Step {
                response: Some(Response::Busy { command }),
                redraw: Redraw::Now,
                directive: Directive::Proceed,
            }
        );
        assert!(state.is_generating());
    }
}

#[test]
fn a_busy_echo_does_not_disturb_the_order_of_pieces() {
    let mut state = generating();
    let sent = run(
        &mut state,
        vec![
            produced("a"),
            Event::Command(Command::FetchModels),
            produced("b"),
            Event::Finished,
        ],
    );
    assert_eq!(
        sent,
        vec![
            predicted("a"),
            Response::Busy { command: Command::FetchModels },
            predicted("b"),
            Response::Done,
        ]
    );
}

#[test]
fn disconnection_ends_the_loop_without_a_word() {
    for start in [GenerationLoop::new(), generating()] {
        let mut state = start;
        let step = state.step(Event::<Options>::Disconnected);
        assert_eq!(
            step,
            Step { response: None, redraw: Redraw::No, directive: Directive::Exit }
        );
        assert_eq!(state.phase(), Phase::Exited);
        let sent = run(
            &mut state,
            vec![produced("a"), Event::Finished, Event::Command(Command::Stop), predict("x", 1)],
        );
        assert!(sent.is_empty());
        assert_eq!(state.phase(), Phase::Exited);
        assert_eq!(state.step(produced("z")).directive, Directive::Exit);
    }
}

#[test]
fn a_failure_while_generating_ends_the_request_with_an_error() {
    let mut state = generating();
    let step = state.step(Event::<Options>::Failed { detail: "context too large".to_string() });
    assert_eq!(
        step,
        Step {
            response: Some(Response::Error { detail: "context too large".to_string() }),
            redraw: Redraw::NowAndAfter { millis: 100 },
            directive: Directive::Await,
        }
    );
    assert_eq!(state.phase(), Phase::Idle);
    assert!(run(&mut state, vec![produced("late")]).is_empty());
    // The worker is alive and takes the next request.
    assert_eq!(
        state.step(predict("next", 3)).directive,
        Directive::Generate { text: "next".to_string(), opts: 3 }
    );
}

#[test]
fn load_and_fetch_are_handled_when_idle() {
    let mut state = GenerationLoop::new();
    let step = state.step(Event::<Options>::Command(Command::LoadModel {
        path: "/m.gguf".to_string(),
    }));
    assert_eq!(step.response, None);
    assert_eq!(step.directive, Directive::LoadModel { path: "/m.gguf".to_string() });
    let capabilities = Capabilities { max_context_size: 4096 };
    let step = state.step(Event::<Options>::Loaded { path: "/m.gguf".to_string(), capabilities });
    assert_eq!(
        step.response,
        Some(Response::LoadedModel { path: "/m.gguf".to_string(), capabilities })
    );
    assert_eq!(step.directive, Directive::Await);

    let step = state.step(Event::<Options>::Command(Command::FetchModels));
    assert_eq!(step.directive, Directive::FetchModels);
    let models = vec!["gpt-4".to_string(), "gpt-3.5-turbo".to_string()];
    let step = state.step(Event::<Options>::Catalog { models: models.clone() });
    assert_eq!(step.response, Some(Response::Models { models }));

    let step = state.step(Event::<Options>::Failed { detail: "no such file".to_string() });
    assert_eq!(step.response, Some(Response::Error { detail: "no such file".to_string() }));
    assert_eq!(step.redraw, Redraw::Now);
    assert_eq!(state.phase(), Phase::Idle);
}

#[test]
fn results_that_arrive_in_the_wrong_phase_change_nothing() {
    let mut state = generating();
    let step = state.step(Event::<Options>::Catalog { models: vec![] });
    assert_eq!(
        step,
        Step { response: None, redraw: Redraw::No, directive: Directive::Proceed }
    );
    assert!(state.is_generating());
    let mut idle = GenerationLoop::new();
    let step = idle.step(produced("stray"));
    assert_eq!(step, Step { response: None, redraw: Redraw::No, directive: Directive::Await });
}

#[test]
fn protocol_predicates() {
    assert!(Command::<Options>::Stop.is_stop());
    assert!(!Command::<Options>::FetchModels.is_stop());
    assert!(Command::Predict { text: String::new(), opts: 1u32 }.is_predict());
    assert!(!Command::<Options>::Stop.is_predict());
    assert!(Response::<Options>::Done.is_terminal());
    assert!(Response::<Options>::Error { detail: String::new() }.is_terminal());
    assert!(!predicted("x").is_terminal());
    assert!(predicted("x").is_predicted());
}
