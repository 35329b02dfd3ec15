//! The settings of the assistant: what a settings file may hold, in each of its
//! versions, and what the settings in force are once the files are laid over one
//! another.

use crate::text::same_text;
use vstd::prelude::*;

verus! {

/// Where the assistant is docked.
#[derive(Clone, Copy, Debug, PartialEq, Eq, Structural)]
pub enum AssistantDockPosition {
    Left,
    Right,
    Bottom,
}

impl Default for AssistantDockPosition {
    fn default() -> (dock: Self)
        ensures
            dock == AssistantDockPosition::Right,
    {
        AssistantDockPosition::Right
    }
}

/// A model, by the names of its provider and of itself.
#[derive(Clone, Debug, PartialEq, Eq)]
pub struct LanguageModelSelection {
    pub provider: String,
    pub model: String,
}

/// A `LanguageModelSelection` as a value of mathematics.
pub struct SelectionView {
    pub provider: Seq<char>,
    pub model: Seq<char>,
}

impl View for LanguageModelSelection {
    type V = SelectionView;

    open spec fn view(&self) -> SelectionView {
        SelectionView { provider: self.provider@, model: self.model@ }
    }
}

impl Default for LanguageModelSelection {
    fn default() -> (selection: Self)
        ensures
            selection@ == (SelectionView { provider: "openai"@, model: "gpt-4"@ }),
    {
        LanguageModelSelection { provider: "openai".to_owned(), model: "gpt-4".to_owned() }
    }
}

/// The provider of a settings file of version 1, with the model to use by default. A
/// model is held by its name.
#[derive(Clone, Debug, PartialEq, Eq)]
pub enum AssistantProviderContentV1 {
    ZedDotDev { default_model: Option<String> },
    OpenAi {
        default_model: Option<String>,
        api_url: Option<String>,
        available_models: Option<Vec<String>>,
    },
    Anthropic { default_model: Option<String>, api_url: Option<String> },
    Ollama { default_model: Option<String>, api_url: Option<String> },
    LmStudio { default_model: Option<String>, api_url: Option<String> },
    DeepSeek { default_model: Option<String>, api_url: Option<String> },
}

/// A profile of the agent, as a settings file holds it: its name, and for each tool
/// whether it is on.
#[derive(Clone, Debug, PartialEq, Eq)]
pub struct AgentProfileContent {
    pub name: String,
    pub tools: Vec<(String, bool)>,
}

/// A settings file of version 1. `W` is the type of a length on screen.
#[derive(Clone, Debug, PartialEq)]
pub struct AssistantSettingsContentV1<W> {
    pub enabled: Option<bool>,
    pub button: Option<bool>,
    pub dock: Option<AssistantDockPosition>,
    pub default_width: Option<W>,
    pub default_height: Option<W>,
    pub provider: Option<AssistantProviderContentV1>,
}

/// A settings file of version 2.
#[derive(Clone, Debug, PartialEq)]
pub struct AssistantSettingsContentV2<W> {
    pub enabled: Option<bool>,
    pub button: Option<bool>,
    pub dock: Option<AssistantDockPosition>,
    pub default_width: Option<W>,
    pub default_height: Option<W>,
    pub default_model: Option<LanguageModelSelection>,
    pub editor_model: Option<LanguageModelSelection>,
    pub inline_alternatives: Option<Vec<LanguageModelSelection>>,
    pub enable_experimental_live_diffs: Option<bool>,
    pub profiles: Option<Vec<(String, AgentProfileContent)>>,
}

/// A settings file from before the versions.
#[derive(Clone, Debug, PartialEq)]
pub struct LegacyAssistantSettingsContent<W> {
    pub button: Option<bool>,
    pub dock: Option<AssistantDockPosition>,
    pub default_width: Option<W>,
    pub default_height: Option<W>,
    pub default_open_ai_model: Option<String>,
    pub openai_api_url: Option<String>,
}

/// A settings file that says which version it is.
#[derive(Clone, Debug, PartialEq)]
pub enum VersionedAssistantSettingsContent<W> {
    V1(AssistantSettingsContentV1<W>),
    V2(AssistantSettingsContentV2<W>),
}

/// A settings file.
#[derive(Clone, Debug, PartialEq)]
pub enum AssistantSettingsContent<W> {
    Versioned(VersionedAssistantSettingsContent<W>),
    Legacy(LegacyAssistantSettingsContent<W>),
}

/// The settings in force.
#[derive(Clone, Debug, PartialEq)]
pub struct AssistantSettings<W> {
    pub enabled: bool,
    pub button: bool,
    pub dock: AssistantDockPosition,
    pub default_width: W,
    pub default_height: W,
    pub default_model: LanguageModelSelection,
    pub editor_model: LanguageModelSelection,
    pub inline_alternatives: Vec<LanguageModelSelection>,
    pub using_outdated_settings_version: bool,
    pub enable_experimental_live_diffs: bool,
    pub profiles: Vec<(String, AgentProfileContent)>,
}

/// Puts `value` in the place of `target`, where there is one.
pub fn merge<T>(target: &mut T, value: Option<T>)
    ensures
        *final(target) == match value {
            Some(value) => value,
            None => *old(target),
        },
{
    if let Some(value) = value {
        *target = value;
    }
}

impl<W> AssistantSettings<W> {
    /// Whether changes are shown as they come in: for the staff always, for others
    /// where the settings say so.
    pub fn are_live_diffs_enabled(&self, is_staff: bool) -> (enabled: bool)
        ensures
            enabled == (is_staff || self.enable_experimental_live_diffs),
    {
        is_staff || self.enable_experimental_live_diffs
    }
}

impl<W> Default for VersionedAssistantSettingsContent<W> {
    fn default() -> (content: Self)
        ensures
            content == VersionedAssistantSettingsContent::V2(
                AssistantSettingsContentV2::<W> {
                    enabled: None,
                    button: None,
                    dock: None,
                    default_width: None,
                    default_height: None,
                    default_model: None,
                    editor_model: None,
                    inline_alternatives: None,
                    enable_experimental_live_diffs: None,
                    profiles: None,
                },
            ),
    {
        VersionedAssistantSettingsContent::V2(
            AssistantSettingsContentV2 {
                enabled: None,
                button: None,
                dock: None,
                default_width: None,
                default_height: None,
                default_model: None,
                editor_model: None,
                inline_alternatives: None,
                enable_experimental_live_diffs: None,
                profiles: None,
            },
        )
    }
}

impl<W> Default for AssistantSettingsContent<W> {
    fn default() -> (content: Self)
        ensures
            content matches AssistantSettingsContent::Versioned(
                VersionedAssistantSettingsContent::V2(settings),
            ) && settings.enabled is None && settings.button is None && settings.dock is None
                && settings.default_width is None && settings.default_height is None
                && settings.default_model is None && settings.editor_model is None
                && settings.inline_alternatives is None
                && settings.enable_experimental_live_diffs is None && settings.profiles is None,
    {
        AssistantSettingsContent::Versioned(VersionedAssistantSettingsContent::default())
    }
}

impl<W> AssistantSettingsContent<W> {
    /// Whether the file is of another version than the newest.
    pub open spec fn outdated(&self) -> bool {
        !(self matches AssistantSettingsContent::Versioned(
            VersionedAssistantSettingsContent::V2(_),
        ))
    }

    /// The file with `dock` as its dock position.
    pub open spec fn with_dock(self, dock: AssistantDockPosition) -> Self {
        match self {
            AssistantSettingsContent::Versioned(VersionedAssistantSettingsContent::V1(settings)) =>
                AssistantSettingsContent::Versioned(
                    VersionedAssistantSettingsContent::V1(
                        AssistantSettingsContentV1 { dock: Some(dock), ..settings },
                    ),
                ),
            AssistantSettingsContent::Versioned(VersionedAssistantSettingsContent::V2(settings)) =>
                AssistantSettingsContent::Versioned(
                    VersionedAssistantSettingsContent::V2(
                        AssistantSettingsContentV2 { dock: Some(dock), ..settings },
                    ),
                ),
            AssistantSettingsContent::Legacy(settings) => AssistantSettingsContent::Legacy(
                LegacyAssistantSettingsContent { dock: Some(dock), ..settings },
            ),
        }
    }

    /// Whether the file is of another version than the newest.
    pub fn is_version_outdated(&self) -> (outdated: bool)
        ensures
            outdated == self.outdated(),
    {
        match self {
            AssistantSettingsContent::Versioned(settings) => match settings {
                VersionedAssistantSettingsContent::V1(_) => true,
                VersionedAssistantSettingsContent::V2(_) => false,
            },
            AssistantSettingsContent::Legacy(_) => true,
        }
    }

    /// Sets the dock position, whatever the version of the file.
    pub fn set_dock(&mut self, dock: AssistantDockPosition)
        ensures
            *final(self) == old(self).with_dock(dock),
    {
        match self {
            AssistantSettingsContent::Versioned(settings) => match settings {
                VersionedAssistantSettingsContent::V1(settings) => {
                    settings.dock = Some(dock);
                },
                VersionedAssistantSettingsContent::V2(settings) => {
                    settings.dock = Some(dock);
                },
            },
            AssistantSettingsContent::Legacy(settings) => {
                settings.dock = Some(dock);
            },
        }
    }
}

/// The selection of the model `model` of `provider`, where there is a model.
pub open spec fn selection_of(provider: Seq<char>, model: Option<String>) -> Option<
    SelectionView,
> {
    match model {
        Some(model) => Some(SelectionView { provider, model: model@ }),
        None => None,
    }
}

/// The view of a selection, where there is one.
pub open spec fn opt_selection(selection: Option<LanguageModelSelection>) -> Option<
    SelectionView,
> {
    match selection {
        Some(selection) => Some(selection@),
        None => None,
    }
}

/// The default model that a provider of version 1 stands for in version 2: the model
/// it names, under the provider's name.
pub open spec fn provider_selection(provider: AssistantProviderContentV1) -> Option<
    SelectionView,
> {
    match provider {
        AssistantProviderContentV1::ZedDotDev { default_model } => selection_of(
            "zed.dev"@,
            default_model,
        ),
        AssistantProviderContentV1::OpenAi { default_model, .. } => selection_of(
            "openai"@,
            default_model,
        ),
        AssistantProviderContentV1::Anthropic { default_model, .. } => selection_of(
            "anthropic"@,
            default_model,
        ),
        AssistantProviderContentV1::Ollama { default_model, .. } => selection_of(
            "ollama"@,
            default_model,
        ),
        AssistantProviderContentV1::LmStudio { default_model, .. } => selection_of(
            "lmstudio"@,
            default_model,
        ),
        AssistantProviderContentV1::DeepSeek { default_model, .. } => selection_of(
            "deepseek"@,
            default_model,
        ),
    }
}

/// A settings file of version 2 as a value of mathematics.
pub struct ContentView<W> {
    pub enabled: Option<bool>,
    pub button: Option<bool>,
    pub dock: Option<AssistantDockPosition>,
    pub default_width: Option<W>,
    pub default_height: Option<W>,
    pub default_model: Option<SelectionView>,
    pub editor_model: Option<LanguageModelSelection>,
    pub inline_alternatives: Option<Vec<LanguageModelSelection>>,
    pub enable_experimental_live_diffs: Option<bool>,
    pub profiles: Option<Vec<(String, AgentProfileContent)>>,
}

impl<W> View for AssistantSettingsContentV2<W> {
    type V = ContentView<W>;

    open spec fn view(&self) -> ContentView<W> {
        ContentView {
            enabled: self.enabled,
            button: self.button,
            dock: self.dock,
            default_width: self.default_width,
            default_height: self.default_height,
            default_model: opt_selection(self.default_model),
            editor_model: self.editor_model,
            inline_alternatives: self.inline_alternatives,
            enable_experimental_live_diffs: self.enable_experimental_live_diffs,
            profiles: self.profiles,
        }
    }
}

impl<W> AssistantSettingsContent<W> {
    /// What the file says, in terms of version 2. `fallback` names the model that a
    /// file from before the versions means where it names none. A file of version 1
    /// gives its width for the height too, and its provider's model as the default
    /// model.
    pub open spec fn upgraded(self, fallback: Seq<char>) -> ContentView<W> {
        match self {
            AssistantSettingsContent::Versioned(VersionedAssistantSettingsContent::V1(settings)) =>
                ContentView {
                    enabled: settings.enabled,
                    button: settings.button,
                    dock: settings.dock,
                    default_width: settings.default_width,
                    default_height: settings.default_width,
                    default_model: match settings.provider {
                        Some(provider) => provider_selection(provider),
                        None => None,
                    },
                    editor_model: None,
                    inline_alternatives: None,
                    enable_experimental_live_diffs: None,
                    profiles: None,
                },
            AssistantSettingsContent::Versioned(VersionedAssistantSettingsContent::V2(settings)) =>
                settings@,
            AssistantSettingsContent::Legacy(settings) => ContentView {
                enabled: None,
                button: settings.button,
                dock: settings.dock,
                default_width: settings.default_width,
                default_height: settings.default_height,
                default_model: Some(
                    SelectionView {
                        provider: "openai"@,
                        model: match settings.default_open_ai_model {
                            Some(model) => model@,
                            None => fallback,
                        },
                    },
                ),
                editor_model: None,
                inline_alternatives: None,
                enable_experimental_live_diffs: None,
                profiles: None,
            },
        }
    }
}

/// The selection of the model `model` of `provider`, where there is a model.
fn select(provider: &str, model: Option<String>) -> (selection: Option<LanguageModelSelection>)
    ensures
        opt_selection(selection) == selection_of(provider@, model),
{
    match model {
        Some(model) => Some(LanguageModelSelection { provider: provider.to_owned(), model }),
        None => None,
    }
}

impl<W: Copy> AssistantSettingsContent<W> {
    /// What the file says, as a file of version 2. `default_open_ai_model` names the
    /// model that a file from before the versions means where it names none.
    pub fn upgrade(self, default_open_ai_model: String) -> (content: AssistantSettingsContentV2<W>)
        ensures
            content@ == self.upgraded(default_open_ai_model@),
    {
        match self {
            AssistantSettingsContent::Versioned(settings) => match settings {
                VersionedAssistantSettingsContent::V1(settings) => AssistantSettingsContentV2 {
                    enabled: settings.enabled,
                    button: settings.button,
                    dock: settings.dock,
                    default_width: settings.default_width,
                    default_height: settings.default_width,
                    default_model: match settings.provider {
                        Some(provider) => match provider {
                            AssistantProviderContentV1::ZedDotDev { default_model } => select(
                                "zed.dev",
                                default_model,
                            ),
                            AssistantProviderContentV1::OpenAi { default_model, .. } => select(
                                "openai",
                                default_model,
                            ),
                            AssistantProviderContentV1::Anthropic { default_model, .. } => select(
                                "anthropic",
                                default_model,
                            ),
                            AssistantProviderContentV1::Ollama { default_model, .. } => select(
                                "ollama",
                                default_model,
                            ),
                            AssistantProviderContentV1::LmStudio { default_model, .. } => select(
                                "lmstudio",
                                default_model,
                            ),
                            AssistantProviderContentV1::DeepSeek { default_model, .. } => select(
                                "deepseek",
                                default_model,
                            ),
                        },
                        None => None,
                    },
                    editor_model: None,
                    inline_alternatives: None,
                    enable_experimental_live_diffs: None,
                    profiles: None,
                },
                VersionedAssistantSettingsContent::V2(settings) => settings,
            },
            AssistantSettingsContent::Legacy(settings) => AssistantSettingsContentV2 {
                enabled: None,
                button: settings.button,
                dock: settings.dock,
                default_width: settings.default_width,
                default_height: settings.default_height,
                default_model: Some(
                    LanguageModelSelection {
                        provider: "openai".to_owned(),
                        model: match settings.default_open_ai_model {
                            Some(model) => model,
                            None => default_open_ai_model,
                        },
                    },
                ),
                editor_model: None,
                inline_alternatives: None,
                enable_experimental_live_diffs: None,
                profiles: None,
            },
        }
    }
}

/// The names of the providers that a settings file may name.
pub open spec fn provider_names() -> Seq<Seq<char>> {
    seq![
        "anthropic"@,
        "bedrock"@,
        "google"@,
        "lmstudio"@,
        "ollama"@,
        "openai"@,
        "zed.dev"@,
        "copilot_chat"@,
        "deepseek"@,
    ]
}

/// The texts of `names`, in order.
pub open spec fn texts_of(names: Seq<&'static str>) -> Seq<Seq<char>> {
    Seq::new(names.len(), |i: int| names[i]@)
}

/// The names of the providers that a settings file may name.
pub fn providers() -> (names: Vec<&'static str>)
    ensures
        texts_of(names@) == provider_names(),
{
    let mut names: Vec<&'static str> = Vec::new();
    names.push("anthropic");
    names.push("bedrock");
    names.push("google");
    names.push("lmstudio");
    names.push("ollama");
    names.push("openai");
    names.push("zed.dev");
    names.push("copilot_chat");
    names.push("deepseek");
    assert(texts_of(names@) =~= provider_names());
    names
}

/// The catalogues of models that tell whether a model of a given name exists.
#[derive(Clone, Copy, Debug, PartialEq, Eq, Structural)]
pub enum ModelCatalogue {
    Anthropic,
    OpenAi,
    DeepSeek,
}

/// The text of a string, where there is one.
pub open spec fn opt_text(text: Option<String>) -> Option<Seq<char>> {
    match text {
        Some(text) => Some(text@),
        None => None,
    }
}

/// The address of the provider, where it is Anthropic.
pub open spec fn anthropic_url(provider: Option<AssistantProviderContentV1>) -> Option<String> {
    match provider {
        Some(AssistantProviderContentV1::Anthropic { api_url, .. }) => api_url,
        _ => None,
    }
}

/// The address of the provider, where it is Ollama.
pub open spec fn ollama_url(provider: Option<AssistantProviderContentV1>) -> Option<String> {
    match provider {
        Some(AssistantProviderContentV1::Ollama { api_url, .. }) => api_url,
        _ => None,
    }
}

/// The address of the provider, where it is LM Studio.
pub open spec fn lmstudio_url(provider: Option<AssistantProviderContentV1>) -> Option<String> {
    match provider {
        Some(AssistantProviderContentV1::LmStudio { api_url, .. }) => api_url,
        _ => None,
    }
}

/// The address of the provider, where it is OpenAI.
pub open spec fn open_ai_url(provider: Option<AssistantProviderContentV1>) -> Option<String> {
    match provider {
        Some(AssistantProviderContentV1::OpenAi { api_url, .. }) => api_url,
        _ => None,
    }
}

/// The models that the provider offers, where it is OpenAI and lists them.
pub open spec fn open_ai_models(provider: Option<AssistantProviderContentV1>) -> Option<
    Vec<String>,
> {
    match provider {
        Some(AssistantProviderContentV1::OpenAi { available_models, .. }) => available_models,
        _ => None,
    }
}

/// The address of the provider, where it is DeepSeek.
pub open spec fn deepseek_url(provider: Option<AssistantProviderContentV1>) -> Option<String> {
    match provider {
        Some(AssistantProviderContentV1::DeepSeek { api_url, .. }) => api_url,
        _ => None,
    }
}

/// The provider of a file of version 1 after the model `model` of `provider` has been
/// set, where `known` says whether the provider's catalogue has the model. A model of
/// `zed.dev` or of a provider that version 1 does not know changes nothing. Else the
/// provider is the one named, with the address it had if it was that provider before;
/// its model is `model`, but none where the provider has a catalogue that lacks it.
pub open spec fn is_provider_set(
    before: Option<AssistantProviderContentV1>,
    after: Option<AssistantProviderContentV1>,
    provider: Seq<char>,
    model: Seq<char>,
    known: bool,
) -> bool {
    let listed = if known {
        Some(model)
    } else {
        None
    };
    if provider == "zed.dev"@ {
        after == before
    } else if provider == "anthropic"@ {
        after matches Some(AssistantProviderContentV1::Anthropic { default_model, api_url })
            && opt_text(default_model) == listed && api_url == anthropic_url(before)
    } else if provider == "ollama"@ {
        after matches Some(AssistantProviderContentV1::Ollama { default_model, api_url })
            && opt_text(default_model) == Some(model) && api_url == ollama_url(before)
    } else if provider == "lmstudio"@ {
        after matches Some(AssistantProviderContentV1::LmStudio { default_model, api_url })
            && opt_text(default_model) == Some(model) && api_url == lmstudio_url(before)
    } else if provider == "openai"@ {
        after matches Some(
            AssistantProviderContentV1::OpenAi { default_model, api_url, available_models },
        ) && opt_text(default_model) == listed && api_url == open_ai_url(before)
            && available_models == open_ai_models(before)
    } else if provider == "deepseek"@ {
        after matches Some(AssistantProviderContentV1::DeepSeek { default_model, api_url })
            && opt_text(default_model) == listed && api_url == deepseek_url(before)
    } else {
        after == before
    }
}

impl<W> AssistantSettingsContent<W> {
    /// The catalogue that is asked whether a model exists when a model of `provider`
    /// is set in this file: in version 1 that of the provider, if it has one; before
    /// the versions that of OpenAI; none in version 2.
    pub open spec fn catalogue_asked(&self, provider: Seq<char>) -> Option<ModelCatalogue> {
        match self {
            AssistantSettingsContent::Versioned(VersionedAssistantSettingsContent::V1(_)) =>
                if provider == "zed.dev"@ {
                    None
                } else if provider == "anthropic"@ {
                    Some(ModelCatalogue::Anthropic)
                } else if provider == "ollama"@ || provider == "lmstudio"@ {
                    None
                } else if provider == "openai"@ {
                    Some(ModelCatalogue::OpenAi)
                } else if provider == "deepseek"@ {
                    Some(ModelCatalogue::DeepSeek)
                } else {
                    None
                },
            AssistantSettingsContent::Versioned(VersionedAssistantSettingsContent::V2(_)) => None,
            AssistantSettingsContent::Legacy(_) => Some(ModelCatalogue::OpenAi),
        }
    }

    /// Whether `after` is `self` with the model `model` of `provider` set, where `known`
    /// says whether the catalogue asked has the model. A file of version 2 holds the
    /// two names as its default model. A file of version 1 holds the model with its
    /// provider. A file from before the versions holds the model as its OpenAI model if
    /// OpenAI's catalogue has it, and else stays as it is. Nothing else changes.
    pub open spec fn is_model_set(
        self,
        after: Self,
        provider: Seq<char>,
        model: Seq<char>,
        known: bool,
    ) -> bool {
        match self {
            AssistantSettingsContent::Versioned(VersionedAssistantSettingsContent::V1(before)) => {
                &&& after matches AssistantSettingsContent::Versioned(
                    VersionedAssistantSettingsContent::V1(settings),
                )
                &&& is_provider_set(before.provider, settings.provider, provider, model, known)
                &&& before == (AssistantSettingsContentV1 { provider: before.provider, ..settings })
            },
            AssistantSettingsContent::Versioned(VersionedAssistantSettingsContent::V2(before)) => {
                &&& after matches AssistantSettingsContent::Versioned(
                    VersionedAssistantSettingsContent::V2(settings),
                )
                &&& opt_selection(settings.default_model) == Some(
                    SelectionView { provider, model },
                )
                &&& before == (AssistantSettingsContentV2 {
                    default_model: before.default_model,
                    ..settings
                })
            },
            AssistantSettingsContent::Legacy(before) => if known {
                &&& after matches AssistantSettingsContent::Legacy(settings)
                &&& opt_text(settings.default_open_ai_model) == Some(model)
                &&& before == (LegacyAssistantSettingsContent {
                    default_open_ai_model: before.default_open_ai_model,
                    ..settings
                })
            } else {
                after == self
            },
        }
    }

    /// The catalogue to ask whether a model exists, before a model of `provider` is set
    /// in this file.
    pub fn model_catalogue(&self, provider: &str) -> (catalogue: Option<ModelCatalogue>)
        ensures
            catalogue == self.catalogue_asked(provider@),
    {
        match self {
            AssistantSettingsContent::Versioned(settings) => match settings {
                VersionedAssistantSettingsContent::V1(_) => {
                    if same_text(provider, "zed.dev") {
                        None
                    } else if same_text(provider, "anthropic") {
                        Some(ModelCatalogue::Anthropic)
                    } else if same_text(provider, "ollama") || same_text(provider, "lmstudio") {
                        None
                    } else if same_text(provider, "openai") {
                        Some(ModelCatalogue::OpenAi)
                    } else if same_text(provider, "deepseek") {
                        Some(ModelCatalogue::DeepSeek)
                    } else {
                        None
                    }
                },
                VersionedAssistantSettingsContent::V2(_) => None,
            },
            AssistantSettingsContent::Legacy(_) => Some(ModelCatalogue::OpenAi),
        }
    }

    /// Sets the model `model` of `provider`. `known` says whether the catalogue that
    /// `model_catalogue` names has the model; it is not read where that names none.
    pub fn set_model(&mut self, provider: String, model: String, known: bool)
        ensures
            old(self).is_model_set(*final(self), provider@, model@, known),
    {
        match self {
            AssistantSettingsContent::Versioned(settings) => match settings {
                VersionedAssistantSettingsContent::V1(settings) => {
                    let listed = if known {
                        Some(model.clone())
                    } else {
                        None
                    };
                    if same_text(provider.as_str(), "zed.dev") {
                    } else if same_text(provider.as_str(), "anthropic") {
                        let api_url = match settings.provider.take() {
                            Some(AssistantProviderContentV1::Anthropic { api_url, .. }) => api_url,
                            _ => None,
                        };
                        settings.provider = Some(
                            AssistantProviderContentV1::Anthropic { default_model: listed, api_url },
                        );
                    } else if same_text(provider.as_str(), "ollama") {
                        let api_url = match settings.provider.take() {
                            Some(AssistantProviderContentV1::Ollama { api_url, .. }) => api_url,
                            _ => None,
                        };
                        settings.provider = Some(
                            AssistantProviderContentV1::Ollama {
                                default_model: Some(model),
                                api_url,
                            },
                        );
                    } else if same_text(provider.as_str(), "lmstudio") {
                        let api_url = match settings.provider.take() {
                            Some(AssistantProviderContentV1::LmStudio { api_url, .. }) => api_url,
                            _ => None,
                        };
                        settings.provider = Some(
                            AssistantProviderContentV1::LmStudio {
                                default_model: Some(model),
                                api_url,
                            },
                        );
                    } else if same_text(provider.as_str(), "openai") {
                        let (api_url, available_models) = match settings.provider.take() {
                            Some(
                                AssistantProviderContentV1::OpenAi {
                                    api_url,
                                    available_models,
                                    ..
                                },
                            ) => (api_url, available_models),
                            _ => (None, None),
                        };
                        settings.provider = Some(
                            AssistantProviderContentV1::OpenAi {
                                default_model: listed,
                                api_url,
                                available_models,
                            },
                        );
                    } else if same_text(provider.as_str(), "deepseek") {
                        let api_url = match settings.provider.take() {
                            Some(AssistantProviderContentV1::DeepSeek { api_url, .. }) => api_url,
                            _ => None,
                        };
                        settings.provider = Some(
                            AssistantProviderContentV1::DeepSeek { default_model: listed, api_url },
                        );
                    }
                },
                VersionedAssistantSettingsContent::V2(settings) => {
                    settings.default_model = Some(LanguageModelSelection { provider, model });
                },
            },
            AssistantSettingsContent::Legacy(settings) => {
                if known {
                    settings.default_open_ai_model = Some(model);
                }
            },
        }
    }
}

/// The settings in force as a value of mathematics.
pub struct SettingsView<W> {
    pub enabled: bool,
    pub button: bool,
    pub dock: AssistantDockPosition,
    pub default_width: W,
    pub default_height: W,
    pub default_model: SelectionView,
    pub editor_model: LanguageModelSelection,
    pub inline_alternatives: Vec<LanguageModelSelection>,
    pub using_outdated_settings_version: bool,
    pub enable_experimental_live_diffs: bool,
    pub profiles: Vec<(String, AgentProfileContent)>,
}

impl<W> View for AssistantSettings<W> {
    type V = SettingsView<W>;

    open spec fn view(&self) -> SettingsView<W> {
        SettingsView {
            enabled: self.enabled,
            button: self.button,
            dock: self.dock,
            default_width: self.default_width,
            default_height: self.default_height,
            default_model: self.default_model@,
            editor_model: self.editor_model,
            inline_alternatives: self.inline_alternatives,
            using_outdated_settings_version: self.using_outdated_settings_version,
            enable_experimental_live_diffs: self.enable_experimental_live_diffs,
            profiles: self.profiles,
        }
    }
}

/// `value`, where there is one; else `kept`.
pub open spec fn value_or<T>(value: Option<T>, kept: T) -> T {
    match value {
        Some(value) => value,
        None => kept,
    }
}

/// `settings` with the file `content` laid over them: what the file sets takes the
/// place of what was in force, and a file of an older version is taken note of.
pub open spec fn layered<W>(
    settings: SettingsView<W>,
    content: AssistantSettingsContent<W>,
    fallback: Seq<char>,
) -> SettingsView<W> {
    let file = content.upgraded(fallback);
    SettingsView {
        enabled: value_or(file.enabled, settings.enabled),
        button: value_or(file.button, settings.button),
        dock: value_or(file.dock, settings.dock),
        default_width: value_or(file.default_width, settings.default_width),
        default_height: value_or(file.default_height, settings.default_height),
        default_model: value_or(file.default_model, settings.default_model),
        editor_model: value_or(file.editor_model, settings.editor_model),
        inline_alternatives: value_or(file.inline_alternatives, settings.inline_alternatives),
        using_outdated_settings_version: settings.using_outdated_settings_version
            || content.outdated(),
        enable_experimental_live_diffs: value_or(
            file.enable_experimental_live_diffs,
            settings.enable_experimental_live_diffs,
        ),
        profiles: value_or(file.profiles, settings.profiles),
    }
}

/// `initial` with the files `sources` laid over them, one after the other.
pub open spec fn loaded<W>(
    initial: SettingsView<W>,
    sources: Seq<AssistantSettingsContent<W>>,
    fallback: Seq<char>,
) -> SettingsView<W>
    decreases sources.len(),
{
    if sources.len() == 0 {
        initial
    } else {
        layered(loaded(initial, sources.drop_last(), fallback), sources.last(), fallback)
    }
}

impl<W: Copy> AssistantSettings<W> {
    /// Lays the file `content` over the settings.
    pub fn apply(&mut self, content: AssistantSettingsContent<W>, default_open_ai_model: &str)
        ensures
            final(self)@ == layered(old(self)@, content, default_open_ai_model@),
    {
        if content.is_version_outdated() {
            self.using_outdated_settings_version = true;
        }
        let value = content.upgrade(default_open_ai_model.to_owned());
        merge(&mut self.enabled, value.enabled);
        merge(&mut self.button, value.button);
        merge(&mut self.dock, value.dock);
        merge(&mut self.default_width, value.default_width);
        merge(&mut self.default_height, value.default_height);
        merge(&mut self.default_model, value.default_model);
        merge(&mut self.editor_model, value.editor_model);
        merge(&mut self.inline_alternatives, value.inline_alternatives);
        merge(&mut self.enable_experimental_live_diffs, value.enable_experimental_live_diffs);
        merge(&mut self.profiles, value.profiles);
    }

    /// The settings in force: `initial`, with the files `sources` laid over them, one
    /// after the other. `default_open_ai_model` names the model that a file from before
    /// the versions means where it names none.
    pub fn load(
        initial: AssistantSettings<W>,
        sources: Vec<AssistantSettingsContent<W>>,
        default_open_ai_model: &str,
    ) -> (settings: AssistantSettings<W>)
        ensures
            settings@ == loaded(initial@, sources@, default_open_ai_model@),
    {
        let mut settings = initial;
        let mut rest = sources;
        let ghost all = rest@;
        let ghost mut done: int = 0;
        assert(all.subrange(0, 0) =~= Seq::empty());
        while rest.len() > 0
            invariant
                0 <= done <= all.len(),
                rest@ == all.subrange(done, all.len() as int),
                settings@ == loaded(initial@, all.subrange(0, done), default_open_ai_model@),
            decreases rest.len(),
        {
            let content = rest.remove(0);
            proof {
                assert(content == all[done]);
                assert(all.subrange(0, done + 1).drop_last() =~= all.subrange(0, done));
                assert(all.subrange(0, done + 1).last() == all[done]);
                assert(rest@ =~= all.subrange(done + 1, all.len() as int));
                done = done + 1;
            }
            settings.apply(content, default_open_ai_model);
        }
        assert(all.subrange(0, done) =~= all);
        settings
    }
}

} // verus!
