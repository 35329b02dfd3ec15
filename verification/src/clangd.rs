//! The adapter for clangd, the language server for C and C++.

use crate::capabilities::{prepared_experimental, with_experimental_capabilities, InitializeParams};
use crate::completion::{completion_label_plan, CompletionItem};
use crate::fetch::{
    fetch_step, is_action, next_state, start_fetch, step_of, FetchAction, FetchEvent, FetchState,
};
use crate::label::{finished_label, CodeLabel, HighlightId, HighlightRun, Highlighter};
use crate::provision::{
    get_cached_server_binary, is_plain_binary, select_version, selected_version,
    user_installed_binary, GitHubLspBinaryVersion, GithubRelease, LanguageServerBinary,
    ProvisionError, SERVER_NAME,
};
use crate::symbol::{symbol_label_plan, symbol_plan, symbol_template, SymbolKind};
use vstd::prelude::*;

verus! {

/// The adapter for clangd.
#[derive(Clone, Copy, Debug, Default, PartialEq, Eq)]
pub struct CLspAdapter;

impl CLspAdapter {
    /// The name of the server.
    pub fn name(&self) -> (name: &'static str)
        ensures
            name@ == SERVER_NAME@,
    {
        SERVER_NAME
    }

    /// The binary that the user has installed, where a search of the command path for
    /// the server's name found one at `found`. It is started without arguments, in the
    /// caller's environment.
    pub fn check_if_user_installed(&self, found: Option<String>) -> (binary: Option<
        LanguageServerBinary,
    >)
        ensures
            match found {
                Some(path) => binary matches Some(binary) && is_plain_binary(binary, path@),
                None => binary is None,
            },
    {
        user_installed_binary(found)
    }

    /// The version to fetch, given the latest release and the name of the operating
    /// system: the release's tag, and the address of the first asset named
    /// `clangd-<os>-<tag>.zip`. There is none for an operating system without archives,
    /// nor in a release without that asset.
    pub fn fetch_latest_server_version(&self, release: &GithubRelease, os: &str) -> (version:
        Result<GitHubLspBinaryVersion, ProvisionError>)
        ensures
            match version {
                Ok(version) => selected_version(*release, os@) == Ok::<_, ProvisionError>(
                    (version.name@, version.url@),
                ),
                Err(error) => selected_version(*release, os@) == Err::<
                    (Seq<char>, Seq<char>),
                    _,
                >(error),
            },
    {
        select_version(release, os)
    }

    /// The next step in fetching `version` into `container_dir`. `progress` is `None`
    /// to start; after a step it holds the state that asked for the step and what came
    /// of it.
    pub fn fetch_server_binary(
        &self,
        version: &GitHubLspBinaryVersion,
        container_dir: &str,
        progress: Option<(FetchState, FetchEvent)>,
    ) -> (stepped: (FetchState, FetchAction))
        ensures
            stepped.0 == match progress {
                Some((state, event)) => next_state(state, event),
                None => FetchState::Checking,
            },
            is_action(stepped.1, step_of(container_dir@, version.name@, version.url@, stepped.0)),
    {
        match progress {
            Some((state, event)) => fetch_step(version, container_dir, state, event),
            None => start_fetch(version, container_dir),
        }
    }

    /// The binary that was fetched earlier, given where it would stand and whether a
    /// file is there.
    pub fn cached_server_binary(&self, candidate: Option<String>, exists: bool) -> (binary:
        Option<LanguageServerBinary>)
        ensures
            match candidate {
                Some(path) => if exists {
                    binary matches Some(binary) && is_plain_binary(binary, path@)
                } else {
                    binary is None
                },
                None => binary is None,
            },
    {
        get_cached_server_binary(candidate, exists)
    }

    /// The label of a completion item, with the runs that `highlighter` gives for it.
    /// Every item has a label. Its text and filter range are those of the item's plan;
    /// its runs are what the highlighter answered to the plan's question.
    pub fn label_for_completion<H: Highlighter>(
        &self,
        completion: &CompletionItem,
        highlighter: &H,
    ) -> (label: Option<CodeLabel>)
        ensures
            label matches Some(label) && exists|
                runs: Seq<HighlightRun>,
                resolved: Option<HighlightId>,
            |
                label@ == finished_label(completion.label_plan(), runs, resolved),
            label matches Some(label) && label.wf(),
    {
        let plan = completion_label_plan(completion);
        Some(plan.highlight(highlighter))
    }

    /// The label of the symbol `name` of `kind`, with the runs that `highlighter` gives
    /// for it; `None` for a kind that gets no label.
    pub fn label_for_symbol<H: Highlighter>(&self, name: &str, kind: SymbolKind, highlighter: &H) -> (label:
        Option<CodeLabel>)
        ensures
            label is Some <==> symbol_template(kind) is Some,
            label matches Some(label) ==> label.wf() && exists|
                runs: Seq<HighlightRun>,
                resolved: Option<HighlightId>,
            |
                label@ == finished_label(symbol_plan(name@, kind)->0, runs, resolved),
    {
        match symbol_label_plan(name, kind) {
            Some(plan) => {
                let ghost planned = plan@;
                let label = plan.highlight(highlighter);
                proof {
                    let (runs, resolved) = choose|
                        runs: Seq<HighlightRun>,
                        resolved: Option<HighlightId>,
                    |
                        label@ == finished_label(planned, runs, resolved);
                    assert(label@ == finished_label(
                        symbol_plan(name@, kind)->0,
                        runs,
                        resolved,
                    ));
                }
                Some(label)
            },
            None => None,
        }
    }

    /// The parameters that open a session, with the adapter's experimental
    /// capabilities merged into those that the client announces.
    pub fn prepare_initialize_params(&self, params: InitializeParams) -> (prepared:
        InitializeParams)
        ensures
            prepared.capabilities.experimental matches Some(experimental) && experimental@
                == prepared_experimental(params.capabilities.experimental),
    {
        with_experimental_capabilities(params)
    }
}

} // verus!
