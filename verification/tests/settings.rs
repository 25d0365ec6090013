use weave_writer::consts::{DEFAULT_AUTHOR, DEFAULT_MODEL_NAME, DEFAULT_TITLE};
use weave_writer::lifecycle::Disconnected;
use weave_writer::node::{Action, Meta};
use weave_writer::numbers::{int_vec_to_string, string_to_int_vec};
use weave_writer::openai::SettingsAction;
use weave_writer::protocol::{Capabilities, Command, Response};
use weave_writer::session::{story_action_needs, Reaction, Session, Stories};
use weave_writer::settings::{
    detected_context, name_or_default, Action as SettingsChange, BackendOptions,
    GenerativeBackend, Settings, DEFAULT_MAX_CONTEXT,
};
use weave_writer::sidebar::{RightSidebar, RightSidebarPage, SidebarPage};
use weave_writer::story::Story;
use weave_writer::text::{join_all, owned, reads, same_text};

fn by_std(s: &str) -> Vec<i32> {
    s.split(',').filter_map(|s| s.trim().parse().ok()).collect()
}

#[test]
fn numbers_are_listed_with_commas() {
    assert_eq!(int_vec_to_string(&[]), "");
    assert_eq!(int_vec_to_string(&[0]), "0");
    assert_eq!(int_vec_to_string(&[1, -2, 30]), "1, -2, 30");
    assert_eq!(int_vec_to_string(&[i32::MAX, i32::MIN]), "2147483647, -2147483648");
    assert_eq!(int_vec_to_string(&[10, 100, 1009, -10]), "10, 100, 1009, -10");
}

#[test]
fn numbers_are_read_back() {
    assert_eq!(string_to_int_vec("1, 2,3"), vec![1, 2, 3]);
    assert_eq!(string_to_int_vec(""), Vec::<i32>::new());
    assert_eq!(string_to_int_vec(" 12\t"), vec![12]);
    assert_eq!(string_to_int_vec("a, 5, , -7, +8, 99999999999"), vec![5, -7, 8]);
    assert_eq!(string_to_int_vec("-2147483648,2147483647"), vec![i32::MIN, i32::MAX]);
    assert_eq!(string_to_int_vec("2147483648, -2147483649"), Vec::<i32>::new());
    assert_eq!(string_to_int_vec("007, -0, +0"), vec![7, 0, 0]);
    assert_eq!(string_to_int_vec("1 2, 3"), vec![3]);
    assert_eq!(string_to_int_vec(",,"), Vec::<i32>::new());
    assert_eq!(string_to_int_vec("\u{2003}4\u{a0},5"), vec![4, 5]);
}

#[test]
fn numbers_are_read_as_the_standard_library_reads_them() {
    let inputs = [
        "", ",", "1", "1,", ",1", " 1 , 2 ", "+", "-", "+-1", "--1", "1-", "12a", "１２",
        "2147483647", "2147483648", "-2147483648", "-2147483649", "00000000000000000001",
        "99999999999999999999999", "3,\n4,\r\n5", "6 ,\t7", "+9,-9", "0x10", "1.5", "1e3",
        "٣", " , , ", "42",
    ];
    for input in inputs {
        assert_eq!(string_to_int_vec(input), by_std(input), "for {:?}", input);
    }
}

#[test]
fn a_written_list_reads_back_as_itself() {
    let lists: Vec<Vec<i32>> =
        vec![vec![], vec![0], vec![1, 2, 3], vec![-1, i32::MIN, i32::MAX, 0, 77]];
    for list in lists {
        assert_eq!(string_to_int_vec(&int_vec_to_string(&list)), list);
    }
}

#[test]
fn text_helpers() {
    assert!(same_text("", ""));
    assert!(same_text("wörld", "wörld"));
    assert!(!same_text("world", "wörld"));
    assert!(!same_text("a", "ab"));
    assert!(reads(&"user".to_string(), "user"));
    assert!(!reads(&"users".to_string(), "user"));
    assert_eq!(owned("x"), "x");
    assert_eq!(join_all(&vec!["a", "", "bc"]), "abc");
    assert_eq!(join_all(&vec![]), "");
}

#[test]
fn default_names() {
    assert_eq!(DEFAULT_TITLE, "Untitled");
    assert_eq!(DEFAULT_AUTHOR, "Anonymous");
    assert_eq!(DEFAULT_MODEL_NAME, "AI");
}

#[test]
fn backends() {
    assert_eq!(
        GenerativeBackend::all(),
        vec![GenerativeBackend::DramaLlama, GenerativeBackend::OpenAI]
    );
    assert_eq!(GenerativeBackend::default(), GenerativeBackend::DramaLlama);
    assert!(GenerativeBackend::DramaLlama.supports_model_view());
    assert!(!GenerativeBackend::OpenAI.supports_model_view());
    assert_eq!(GenerativeBackend::DramaLlama.name(), "DramaLlama");
    assert_eq!(GenerativeBackend::OpenAI.name(), "OpenAI");
}

#[test]
fn backend_options_start_with_defaults() {
    let local: BackendOptions<(), ()> = BackendOptions::default_for(GenerativeBackend::DramaLlama);
    assert_eq!(local.backend(), GenerativeBackend::DramaLlama);
    assert!(local.as_openai().is_none());
    match &local {
        BackendOptions::DramaLlama { model, predict_options, max_context_size } => {
            assert_eq!(model, "");
            assert_eq!(predict_options.n, 512);
            assert_eq!(*max_context_size, DEFAULT_MAX_CONTEXT);
            assert_eq!(*max_context_size, 128000);
        }
        _ => panic!("not the local engine's options"),
    }
    let remote: BackendOptions<(), ()> = BackendOptions::default_for(GenerativeBackend::OpenAI);
    assert_eq!(remote.backend(), GenerativeBackend::OpenAI);
    let settings = remote.as_openai().unwrap();
    assert_eq!(settings.chat_arguments.model, "gpt-3.5-turbo");
    assert_eq!(settings.chat_arguments.messages.len(), 3);
    assert_eq!(remote.model_name(), "gpt-3.5-turbo");
}

#[test]
fn a_local_model_goes_by_its_file_name() {
    let mut options: BackendOptions<(), ()> =
        BackendOptions::default_for(GenerativeBackend::DramaLlama);
    assert_eq!(options.model_name(), "AI");
    options.configure_for_new_local_model("/models/llama-7b.gguf".to_string(), Some(4096));
    assert_eq!(options.model_name(), "llama-7b.gguf");
    match &options {
        BackendOptions::DramaLlama { model, max_context_size, .. } => {
            assert_eq!(model, "/models/llama-7b.gguf");
            assert_eq!(*max_context_size, 4096);
        }
        _ => panic!("not the local engine's options"),
    }
    // A model that would not load, or reports nothing usable, keeps the size.
    options.configure_for_new_local_model("/models/broken.gguf".to_string(), None);
    options.configure_for_new_local_model("/models/odd.gguf".to_string(), Some(0));
    options.configure_for_new_local_model("/models/odd.gguf".to_string(), Some(-5));
    match &options {
        BackendOptions::DramaLlama { model, max_context_size, .. } => {
            assert_eq!(model, "/models/odd.gguf");
            assert_eq!(*max_context_size, 4096);
        }
        _ => panic!("not the local engine's options"),
    }
    assert_eq!(name_or_default(None), "AI");
    assert_eq!(name_or_default(Some("m.gguf".to_string())), "m.gguf");
    assert_eq!(detected_context(0), None);
    assert_eq!(detected_context(-1), None);
    assert_eq!(detected_context(1), Some(1));
    assert_eq!(detected_context(32768), Some(32768));
}

#[test]
fn options_of_the_chat_service_ignore_local_models() {
    let mut options: BackendOptions<(), ()> = BackendOptions::default_for(GenerativeBackend::OpenAI);
    let before = options.clone();
    options.configure_for_new_local_model("/models/llama.gguf".to_string(), Some(4096));
    assert_eq!(options, before);
}

#[test]
fn settings_keep_one_entry_for_each_backend() {
    let mut settings: Settings<(), ()> = Settings::new();
    assert_eq!(settings.default_author, "Anonymous");
    assert!(settings.prompt_include_authors);
    assert!(settings.prompt_include_title);
    assert!(settings.backend_options.is_empty());
    assert_eq!(settings.backend_options().backend(), GenerativeBackend::DramaLlama);
    assert_eq!(settings.backend_options.len(), 1);
    settings.backend_options().configure_for_new_local_model("/m/a.gguf".to_string(), None);
    settings.selected_generative_backend = GenerativeBackend::OpenAI;
    assert_eq!(settings.backend_options().backend(), GenerativeBackend::OpenAI);
    assert_eq!(settings.backend_options.len(), 2);
    settings.selected_generative_backend = GenerativeBackend::DramaLlama;
    assert_eq!(settings.backend_options().model_name(), "a.gguf");
    assert_eq!(settings.backend_options.len(), 2);
    assert_eq!(
        settings.switch_to(GenerativeBackend::OpenAI),
        SettingsChange::SwitchBackends {
            from: GenerativeBackend::DramaLlama,
            to: GenerativeBackend::OpenAI
        }
    );
    assert_ne!(
        SettingsChange::OpenAI(SettingsAction::FetchModels),
        settings.switch_to(GenerativeBackend::OpenAI)
    );
}

#[test]
fn sidebars() {
    assert_eq!(SidebarPage::default(), SidebarPage::Stories);
    assert_eq!(SidebarPage::Stories.as_str(), "Stories");
    assert_eq!(SidebarPage::Settings.as_str(), "Settings");
    assert_eq!(RightSidebarPage::default(), RightSidebarPage::Text);
    assert_eq!(RightSidebarPage::Text.as_str(), "Text");
    assert_eq!(RightSidebarPage::Tree.as_str(), "Tree");
    let mut sidebar = RightSidebar::default();
    sidebar.text = Some("old".to_string());
    sidebar.text_current = true;
    sidebar.visible = true;
    sidebar.refresh_story();
    assert!(!sidebar.text_current);
    assert_eq!(sidebar.text, Some("old".to_string()));
    assert!(sidebar.visible);
    assert_eq!(sidebar.includes(false, false), (true, true));
    sidebar.model_view = true;
    assert_eq!(sidebar.includes(false, true), (false, true));
    assert_eq!(sidebar.includes(true, false), (true, false));
}

#[test]
fn a_session_unlocks_when_the_generation_is_over() {
    type Answer = Option<Result<Response<u8>, Disconnected<u32>>>;
    let cases: Vec<(bool, Answer, Reaction<u8, u32>, bool)> = vec![
        (true, None, Reaction::Wait, true),
        (false, None, Reaction::Gone, false),
        (
            true,
            Some(Ok(Response::Predicted { piece: "a".to_string() })),
            Reaction::Append { piece: "a".to_string() },
            true,
        ),
        (true, Some(Ok(Response::Done)), Reaction::Finish, false),
        (
            true,
            Some(Ok(Response::Busy { command: Command::FetchModels })),
            Reaction::Rejected { command: Command::FetchModels },
            true,
        ),
        (
            true,
            Some(Ok(Response::Error { detail: "oops".to_string() })),
            Reaction::Report { detail: "oops".to_string() },
            false,
        ),
        (
            true,
            Some(Ok(Response::Models { models: vec!["m".to_string()] })),
            Reaction::Models { models: vec!["m".to_string()] },
            true,
        ),
        (
            true,
            Some(Ok(Response::LoadedModel {
                path: "/m".to_string(),
                capabilities: Capabilities { max_context_size: 8 },
            })),
            Reaction::LoadedModel {
                path: "/m".to_string(),
                capabilities: Capabilities { max_context_size: 8 },
            },
            true,
        ),
        (true, Some(Err(Disconnected { handle: 3 })), Reaction::Join { handle: 3 }, false),
    ];
    for (alive, answer, reaction, locked) in cases {
        let mut session = Session::new();
        assert!(!session.generation_in_progress);
        session.requested(true);
        assert!(session.generation_in_progress);
        assert_eq!(session.absorb(alive, answer), reaction);
        assert_eq!(session.generation_in_progress, locked);
    }
    let mut session = Session::new();
    session.requested(false);
    assert!(!session.generation_in_progress);
}

#[test]
fn story_actions() {
    assert_eq!(story_action_needs(&Action::default()), (false, false));
    assert_eq!(
        story_action_needs(&Action { continue_: true, modified: true, ..Action::default() }),
        (true, true)
    );
    assert_eq!(
        story_action_needs(&Action { generate: Some(0), ..Action::default() }),
        (true, false)
    );
}

#[test]
fn the_shelf_keeps_the_open_story_open() {
    let mut shelf: Stories<Meta> = Stories::new();
    assert_eq!(shelf.len(), 0);
    assert!(shelf.story().is_none());
    assert!(shelf.story_mut().is_none());
    shelf.new_story("A".to_string(), "Alice".to_string());
    shelf.new_story("B".to_string(), "Bob".to_string());
    shelf.push(Story::new("C".to_string(), "Carol".to_string()));
    assert_eq!(shelf.len(), 3);
    assert_eq!(shelf.active_story(), Some(1));
    assert_eq!(shelf.story().map(|s| s.title.as_str()), Some("B"));
    assert!(!shelf.select(3));
    assert!(shelf.select(2));
    shelf.story_mut().unwrap().extend_paragraph(&["x"]);
    assert_eq!(shelf.story().unwrap().head().text, "x");
    // Removing an earlier story keeps the open one open.
    assert_eq!(shelf.remove(0).map(|s| s.title), Some("A".to_string()));
    assert_eq!(shelf.active_story(), Some(1));
    assert_eq!(shelf.story().map(|s| s.title.as_str()), Some("C"));
    // Removing a later one too.
    assert!(shelf.select(0));
    assert_eq!(shelf.remove(1).map(|s| s.title), Some("C".to_string()));
    assert_eq!(shelf.active_story(), Some(0));
    assert!(shelf.remove(5).is_none());
    // Removing the open one closes it.
    assert_eq!(shelf.get(0).map(|s| s.title.as_str()), Some("B"));
    assert!(shelf.get(1).is_none());
    assert_eq!(shelf.remove(0).map(|s| s.title), Some("B".to_string()));
    assert_eq!(shelf.active_story(), None);
    assert_eq!(shelf.len(), 0);
    shelf.new_story("D".to_string(), "Dan".to_string());
    assert_eq!(shelf.active_story(), Some(0));
    shelf.close();
    assert_eq!(shelf.active_story(), None);
    assert_eq!(shelf.len(), 1);
}
