//! What the user has set: who writes, what the model is shown, and which
//! backend generates with which options.

use vstd::prelude::*;
use crate::consts::{DEFAULT_AUTHOR, DEFAULT_MODEL_NAME};
use crate::drama_llama::PredictOptions;
use crate::openai::{opening_messages, ChatArguments, SettingsAction, DEFAULT_MODEL};
use crate::text::owned;

verus! {

/// The largest context that is offered before a model has told its own.
pub const DEFAULT_MAX_CONTEXT: usize = 128000;

/// A backend that generates text.
#[derive(Debug, Clone, Copy, PartialEq, Eq, Hash, Structural)]
pub enum GenerativeBackend {
    /// The local inference engine.
    DramaLlama,
    /// The remote chat service.
    OpenAI,
}

impl Default for GenerativeBackend {
    /// The backend that is preferred: the first of all.
    fn default() -> (backend: Self)
        ensures
            backend == GenerativeBackend::DramaLlama,
    {
        GenerativeBackend::DramaLlama
    }
}

impl GenerativeBackend {
    /// All the backends, in order of preference.
    pub fn all() -> (backends: Vec<GenerativeBackend>)
        ensures
            backends@ == seq![GenerativeBackend::DramaLlama, GenerativeBackend::OpenAI],
    {
        let mut backends: Vec<GenerativeBackend> = Vec::new();
        backends.push(GenerativeBackend::DramaLlama);
        backends.push(GenerativeBackend::OpenAI);
        proof {
            assert(backends@ =~= seq![GenerativeBackend::DramaLlama, GenerativeBackend::OpenAI]);
        }
        backends
    }

    /// The name of the backend.
    pub fn name(&self) -> (name: &'static str)
        ensures
            name@ == (match self {
                GenerativeBackend::DramaLlama => "DramaLlama"@,
                GenerativeBackend::OpenAI => "OpenAI"@,
            }),
    {
        match self {
            GenerativeBackend::DramaLlama => "DramaLlama",
            GenerativeBackend::OpenAI => "OpenAI",
        }
    }

    /// Whether the story can be shown as the model is prompted with it.
    /// The local engine is fed the text as it stands; what the chat
    /// service makes of its messages is not known.
    pub fn supports_model_view(&self) -> (supported: bool)
        ensures
            supported == (self is DramaLlama),
    {
        match self {
            GenerativeBackend::DramaLlama => true,
            GenerativeBackend::OpenAI => false,
        }
    }
}

/// Something the settings ask their owner to do.
#[derive(Debug, Clone, Copy, PartialEq, Eq, Structural)]
pub enum Action {
    /// Shut down the backend `from` and start the backend `to`.
    SwitchBackends { from: GenerativeBackend, to: GenerativeBackend },
    /// Something the chat service's settings ask for.
    OpenAI(SettingsAction),
}

/// The options of one backend. `S` and `C` are the sampling
/// configurations of the local engine and of the chat service.
#[derive(Debug, Clone, PartialEq, Eq)]
pub enum BackendOptions<S, C> {
    DramaLlama {
        /// The path of the model file.
        model: String,
        /// The options of every request.
        predict_options: PredictOptions<S>,
        /// The largest context the model can be run with.
        max_context_size: usize,
    },
    OpenAI {
        settings: crate::openai::Settings<C>,
    },
}

/// `Path::file_name`, as text: the last component of the path, where it
/// has one that is valid Unicode. What counts as a component depends on
/// the platform, so nothing is claimed of the result.
#[verifier::external_body]
fn file_name(path: &str) -> (name: Option<String>) {
    std::path::Path::new(path).file_name().and_then(|name| name.to_str()).map(|name| name.to_owned())
}

/// The context size that a model reports, if it reports one that can be
/// used.
pub open spec fn usable_context(reported: i64) -> Option<usize> {
    if 0 < reported <= usize::MAX {
        Some(reported as usize)
    } else {
        None
    }
}

/// Tells whether the context size that a model reports can be used.
pub fn detected_context(reported: i64) -> (context: Option<usize>)
    ensures
        context == usable_context(reported),
{
    if reported <= 0 {
        None
    } else if reported as u64 > usize::MAX as u64 {
        None
    } else {
        Some(reported as usize)
    }
}

/// The name a local model goes by: the name of its file, or the default
/// where the path has none.
pub open spec fn local_name(file_name: Option<String>) -> Seq<char> {
    match file_name {
        Some(found) => found@,
        None => DEFAULT_MODEL_NAME@,
    }
}

/// The name a local model goes by: the name of its file, or the default
/// where the path has none.
pub fn name_or_default(file_name: Option<String>) -> (name: String)
    ensures
        name@ == local_name(file_name),
{
    match file_name {
        Some(found) => found,
        None => owned(DEFAULT_MODEL_NAME),
    }
}

impl<S, C> BackendOptions<S, C> {
    /// The backend that the options are for.
    pub fn backend(&self) -> (backend: GenerativeBackend)
        ensures
            backend == (match self {
                BackendOptions::DramaLlama { .. } => GenerativeBackend::DramaLlama,
                BackendOptions::OpenAI { .. } => GenerativeBackend::OpenAI,
            }),
    {
        match self {
            BackendOptions::DramaLlama { .. } => GenerativeBackend::DramaLlama,
            BackendOptions::OpenAI { .. } => GenerativeBackend::OpenAI,
        }
    }

    /// The name of the model. For the chat service it is the model that
    /// is asked. For the local engine it is the file name of the model,
    /// as the platform tells it, or the default name.
    pub fn model_name(&self) -> (name: String)
        ensures
            match self {
                BackendOptions::OpenAI { settings } => name@ == settings.chat_arguments.model@,
                BackendOptions::DramaLlama { .. } => exists|found: Option<String>|
                    name@ == #[trigger] local_name(found),
            },
    {
        match self {
            BackendOptions::DramaLlama { model, .. } => name_or_default(
                file_name(model.as_str()),
            ),
            BackendOptions::OpenAI { settings } => settings.chat_arguments.model.clone(),
        }
    }

    /// The options a backend starts with.
    pub fn default_for(backend: GenerativeBackend) -> (options: Self) where S: Default, C: Default
        ensures
            match options {
                BackendOptions::DramaLlama { model, predict_options, max_context_size } => {
                    &&& backend == GenerativeBackend::DramaLlama
                    &&& model@.len() == 0
                    &&& predict_options.n == crate::drama_llama::DEFAULT_CONTEXT
                    &&& predict_options.seed == Some(crate::drama_llama::DEFAULT_SEED)
                    &&& predict_options.stop_sequences@.len() == 0
                    &&& predict_options.stop_strings@.len() == 0
                    &&& max_context_size == DEFAULT_MAX_CONTEXT
                },
                BackendOptions::OpenAI { settings } => {
                    &&& backend == GenerativeBackend::OpenAI
                    &&& settings.models@.len() == 0
                    &&& settings.openai_api_key@.len() == 0
                    &&& settings.chat_arguments.model@ == DEFAULT_MODEL@
                    &&& settings.chat_arguments.messages@.len() == 3
                    &&& settings.chat_arguments.n is None
                    &&& settings.chat_arguments.stop is None
                    &&& settings.chat_arguments.max_tokens is None
                    &&& settings.chat_arguments.user is None
                },
            },
    {
        match backend {
            GenerativeBackend::DramaLlama => BackendOptions::DramaLlama {
                model: String::new(),
                predict_options: PredictOptions::new(S::default()),
                max_context_size: DEFAULT_MAX_CONTEXT,
            },
            GenerativeBackend::OpenAI => BackendOptions::OpenAI {
                settings: crate::openai::Settings::new(
                    String::new(),
                    ChatArguments::new(owned(DEFAULT_MODEL), opening_messages(), C::default()),
                ),
            },
        }
    }

    /// The chat service's settings, if the options are for it.
    pub fn as_openai(&self) -> (settings: Option<&crate::openai::Settings<C>>)
        ensures
            match self {
                BackendOptions::OpenAI { settings: held } => settings == Some(held),
                BackendOptions::DramaLlama { .. } => settings is None,
            },
    {
        match self {
            BackendOptions::OpenAI { settings } => Some(settings),
            BackendOptions::DramaLlama { .. } => None,
        }
    }

    /// Takes note of a new local model: its path, and the context size it
    /// reports where that can be used. Options of the chat service stay as
    /// they are.
    pub fn configure_for_new_local_model(&mut self, path: String, reported: Option<i64>)
        ensures
            match *old(self) {
                BackendOptions::OpenAI { .. } => *final(self) == *old(self),
                BackendOptions::DramaLlama { model, predict_options, max_context_size } => {
                    *final(self) == (BackendOptions::<S, C>::DramaLlama {
                        model: path,
                        predict_options,
                        max_context_size: match reported {
                            Some(size) => match usable_context(size) {
                                Some(context) => context,
                                None => max_context_size,
                            },
                            None => max_context_size,
                        },
                    })
                },
            },
    {
        match self {
            BackendOptions::DramaLlama { model, max_context_size, .. } => {
                *model = path;
                match reported {
                    Some(size) => match detected_context(size) {
                        Some(context) => {
                            *max_context_size = context;
                        },
                        None => {},
                    },
                    None => {},
                }
            },
            BackendOptions::OpenAI { .. } => {},
        }
    }
}

/// The settings of the application.
pub struct Settings<S, C> {
    /// The author of new paragraphs.
    pub default_author: String,
    /// Whether the model is shown the authors.
    pub prompt_include_authors: bool,
    /// Whether the model is shown the title.
    pub prompt_include_title: bool,
    /// The backend that generates.
    pub selected_generative_backend: GenerativeBackend,
    /// The options of the backends that were used so far, at most one
    /// entry for each.
    pub backend_options: Vec<BackendOptions<S, C>>,
    /// The backend that is being switched to.
    pub pending_backend_switch: Option<GenerativeBackend>,
}

/// The backend that the options `options` are for.
pub open spec fn backend_of<S, C>(options: BackendOptions<S, C>) -> GenerativeBackend {
    match options {
        BackendOptions::DramaLlama { .. } => GenerativeBackend::DramaLlama,
        BackendOptions::OpenAI { .. } => GenerativeBackend::OpenAI,
    }
}

/// The index of the first entry of `options` that is for `backend`, or
/// the number of entries if there is none.
pub open spec fn position_of<S, C>(
    options: Seq<BackendOptions<S, C>>,
    backend: GenerativeBackend,
    from: int,
) -> int
    decreases options.len() - from,
{
    if from < 0 || from >= options.len() || backend_of(options[from]) == backend {
        from
    } else {
        position_of(options, backend, from + 1)
    }
}

impl<S, C> Settings<S, C> {
    /// The settings of a new user.
    pub fn new() -> (settings: Self)
        ensures
            settings.default_author@ == DEFAULT_AUTHOR@,
            settings.prompt_include_authors,
            settings.prompt_include_title,
            settings.selected_generative_backend == GenerativeBackend::DramaLlama,
            settings.backend_options@.len() == 0,
            settings.pending_backend_switch is None,
    {
        Settings {
            default_author: owned(DEFAULT_AUTHOR),
            prompt_include_authors: true,
            prompt_include_title: true,
            selected_generative_backend: GenerativeBackend::DramaLlama,
            backend_options: Vec::new(),
            pending_backend_switch: None,
        }
    }

    /// The options of the selected backend, for changing. A backend that
    /// was not used before gets the options it starts with.
    pub fn backend_options(&mut self) -> (options: &mut BackendOptions<S, C>) where
        S: Default,
        C: Default,

        ensures
            backend_of(*options) == old(self).selected_generative_backend,
            position_of(
                old(self).backend_options@,
                old(self).selected_generative_backend,
                0,
            ) < old(self).backend_options@.len() ==> *options == old(self).backend_options@[position_of(
                old(self).backend_options@,
                old(self).selected_generative_backend,
                0,
            )] && final(self).backend_options@ == old(self).backend_options@.update(
                position_of(
                    old(self).backend_options@,
                    old(self).selected_generative_backend,
                    0,
                ),
                *final(options),
            ),
            position_of(
                old(self).backend_options@,
                old(self).selected_generative_backend,
                0,
            ) >= old(self).backend_options@.len() ==> final(self).backend_options@ == old(
                self,
            ).backend_options@.push(*final(options)),
            final(self).selected_generative_backend == old(self).selected_generative_backend,
            final(self).default_author == old(self).default_author,
            final(self).prompt_include_authors == old(self).prompt_include_authors,
            final(self).prompt_include_title == old(self).prompt_include_title,
            final(self).pending_backend_switch == old(self).pending_backend_switch,
    {
        let selected = self.selected_generative_backend;
        let mut index: usize = 0;
        while index < self.backend_options.len() && self.backend_options[index].backend()
            != selected
            invariant
                index <= self.backend_options@.len(),
                *self == *old(self),
                selected == self.selected_generative_backend,
                position_of(self.backend_options@, selected, 0) == position_of(
                    self.backend_options@,
                    selected,
                    index as int,
                ),
            decreases self.backend_options@.len() - index,
        {
            index += 1;
        }
        if index == self.backend_options.len() {
            self.backend_options.push(BackendOptions::default_for(selected));
            proof {
                assert(self.backend_options@.update(index as int, self.backend_options@[index as int])
                    =~= self.backend_options@);
            }
        }
        &mut self.backend_options[index]
    }

    /// What a click on `backend` in the list of backends asks for: a
    /// switch to it from the selected one.
    pub fn switch_to(&self, backend: GenerativeBackend) -> (action: Action)
        ensures
            action == (Action::SwitchBackends {
                from: self.selected_generative_backend,
                to: backend,
            }),
    {
        Action::SwitchBackends { from: self.selected_generative_backend, to: backend }
    }
}

} // verus!
