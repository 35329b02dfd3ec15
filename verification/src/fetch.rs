//! Fetching a version of the server's binary into the container directory, step by step.
//! The steps touch the disk and the network, so the caller takes them; what follows
//! from each is decided here.

use crate::provision::{
    binary_below, is_plain_binary, join_path, joined_path, plain_binary, version_dir_name,
    GitHubLspBinaryVersion, LanguageServerBinary, ProvisionError,
};
use crate::text::{concat2, concat3};
use vstd::prelude::*;

verus! {

/// How far a fetch has come.
#[derive(Clone, Copy, Debug, PartialEq, Eq, Structural)]
pub enum FetchState {
    /// It is not known yet whether the binary is on disk.
    Checking,
    /// The binary is missing; its archive is being asked for.
    Downloading,
    /// The archive is there; it is being unpacked.
    Extracting,
    /// The archive is unpacked; other versions are being removed.
    Evicting,
    /// The binary is on disk.
    Done,
    /// The fetch has failed.
    Failed(ProvisionError),
}

/// What came of a step.
#[derive(Clone, Copy, Debug, PartialEq, Eq, Structural)]
pub enum FetchEvent {
    /// Whether a file stands where the binary is expected.
    BinaryChecked { exists: bool },
    /// The status that the download was answered with.
    Downloaded { status: u16 },
    /// Whether the archive could be unpacked.
    Extracted { ok: bool },
    /// The other versions have been removed, as far as they could be.
    Evicted,
}

/// The step to take next.
#[derive(Debug, PartialEq, Eq)]
pub enum FetchAction {
    /// See whether a file stands at `path`.
    CheckBinary { path: String },
    /// Ask for the archive at `url`.
    Download { url: String },
    /// Unpack the archive into the directory `into`.
    Extract { into: String },
    /// Remove what the directory `container_dir` holds, but for the entry named `keep`.
    Evict { container_dir: String, keep: String },
    /// None: this is the binary.
    Finish(LanguageServerBinary),
    /// None: the fetch has failed.
    Fail(ProvisionError),
}

/// A step as a value of mathematics.
pub enum FetchActionView {
    CheckBinary { path: Seq<char> },
    Download { url: Seq<char> },
    Extract { into: Seq<char> },
    Evict { container_dir: Seq<char>, keep: Seq<char> },
    Finish { path: Seq<char> },
    Fail(ProvisionError),
}

/// Whether `action` is the step `view`; a binary handed out takes no arguments and
/// runs in the caller's environment.
pub open spec fn is_action(action: FetchAction, view: FetchActionView) -> bool {
    match (action, view) {
        (FetchAction::CheckBinary { path }, FetchActionView::CheckBinary { path: p }) => path@ == p,
        (FetchAction::Download { url }, FetchActionView::Download { url: u }) => url@ == u,
        (FetchAction::Extract { into }, FetchActionView::Extract { into: i }) => into@ == i,
        (
            FetchAction::Evict { container_dir, keep },
            FetchActionView::Evict { container_dir: c, keep: k },
        ) => container_dir@ == c && keep@ == k,
        (FetchAction::Finish(binary), FetchActionView::Finish { path }) => is_plain_binary(
            binary,
            path,
        ),
        (FetchAction::Fail(error), FetchActionView::Fail(e)) => error == e,
        _ => false,
    }
}

/// Whether `status` says that a request succeeded.
pub open spec fn is_success(status: u16) -> bool {
    200 <= status < 300
}

/// The state that follows `state` on `event`. An event that does not answer the step of
/// `state` changes nothing.
pub open spec fn next_state(state: FetchState, event: FetchEvent) -> FetchState {
    match (state, event) {
        (FetchState::Checking, FetchEvent::BinaryChecked { exists }) => if exists {
            FetchState::Done
        } else {
            FetchState::Downloading
        },
        (FetchState::Downloading, FetchEvent::Downloaded { status }) => if is_success(status) {
            FetchState::Extracting
        } else {
            FetchState::Failed(ProvisionError::DownloadFailed(status))
        },
        (FetchState::Extracting, FetchEvent::Extracted { ok }) => if ok {
            FetchState::Evicting
        } else {
            FetchState::Failed(ProvisionError::ExtractionFailed)
        },
        (FetchState::Evicting, FetchEvent::Evicted) => FetchState::Done,
        _ => state,
    }
}

/// The step that `state` waits for, in a fetch of the version `tag` from `url` into
/// `container_dir`.
pub open spec fn step_of(
    container_dir: Seq<char>,
    tag: Seq<char>,
    url: Seq<char>,
    state: FetchState,
) -> FetchActionView {
    let path = joined_path(container_dir, binary_below(tag));
    match state {
        FetchState::Checking => FetchActionView::CheckBinary { path },
        FetchState::Downloading => FetchActionView::Download { url },
        FetchState::Extracting => FetchActionView::Extract { into: container_dir },
        FetchState::Evicting => FetchActionView::Evict {
            container_dir,
            keep: version_dir_name(tag),
        },
        FetchState::Done => FetchActionView::Finish { path },
        FetchState::Failed(error) => FetchActionView::Fail(error),
    }
}

/// The state after `events`, one after the other, from `state` on.
pub open spec fn state_after(state: FetchState, events: Seq<FetchEvent>) -> FetchState
    decreases events.len(),
{
    if events.len() == 0 {
        state
    } else {
        next_state(state_after(state, events.drop_last()), events.last())
    }
}

/// Whether `status` says that a request succeeded.
pub fn status_is_success(status: u16) -> (success: bool)
    ensures
        success == is_success(status),
{
    200 <= status && status < 300
}

/// The state that follows `state` on `event`.
pub fn advance(state: FetchState, event: FetchEvent) -> (next: FetchState)
    ensures
        next == next_state(state, event),
{
    match state {
        FetchState::Checking => match event {
            FetchEvent::BinaryChecked { exists } => if exists {
                FetchState::Done
            } else {
                FetchState::Downloading
            },
            _ => state,
        },
        FetchState::Downloading => match event {
            FetchEvent::Downloaded { status } => if status_is_success(status) {
                FetchState::Extracting
            } else {
                FetchState::Failed(ProvisionError::DownloadFailed(status))
            },
            _ => state,
        },
        FetchState::Extracting => match event {
            FetchEvent::Extracted { ok } => if ok {
                FetchState::Evicting
            } else {
                FetchState::Failed(ProvisionError::ExtractionFailed)
            },
            _ => state,
        },
        FetchState::Evicting => match event {
            FetchEvent::Evicted => FetchState::Done,
            _ => state,
        },
        _ => state,
    }
}

/// The step that `state` waits for, in a fetch of `version` into `container_dir`.
pub fn pending_step(version: &GitHubLspBinaryVersion, container_dir: &str, state: FetchState) -> (action:
    FetchAction)
    ensures
        is_action(action, step_of(container_dir@, version.name@, version.url@, state)),
{
    match state {
        FetchState::Checking => FetchAction::CheckBinary {
            path: binary_path(version, container_dir),
        },
        FetchState::Downloading => FetchAction::Download { url: version.url.clone() },
        FetchState::Extracting => FetchAction::Extract { into: container_dir.to_owned() },
        FetchState::Evicting => FetchAction::Evict {
            container_dir: container_dir.to_owned(),
            keep: concat2("clangd_", version.name.as_str()),
        },
        FetchState::Done => FetchAction::Finish(
            plain_binary(binary_path(version, container_dir)),
        ),
        FetchState::Failed(error) => FetchAction::Fail(error),
    }
}

/// Where the binary of `version` stands once it is in `container_dir`.
pub fn binary_path(version: &GitHubLspBinaryVersion, container_dir: &str) -> (path: String)
    ensures
        path@ == joined_path(container_dir@, binary_below(version.name@)),
{
    let below = concat3("clangd_", version.name.as_str(), "/bin/clangd");
    join_path(container_dir, below.as_str())
}

/// A fetch starts by seeing whether the binary is on disk.
pub fn start_fetch(version: &GitHubLspBinaryVersion, container_dir: &str) -> (started: (
    FetchState,
    FetchAction,
))
    ensures
        started.0 == FetchState::Checking,
        is_action(
            started.1,
            step_of(container_dir@, version.name@, version.url@, FetchState::Checking),
        ),
{
    (FetchState::Checking, pending_step(version, container_dir, FetchState::Checking))
}

/// What follows in a fetch of `version` into `container_dir` that is in `state`, when
/// `event` comes in: the next state, and the step that it waits for.
pub fn fetch_step(
    version: &GitHubLspBinaryVersion,
    container_dir: &str,
    state: FetchState,
    event: FetchEvent,
) -> (stepped: (FetchState, FetchAction))
    ensures
        stepped.0 == next_state(state, event),
        is_action(stepped.1, step_of(container_dir@, version.name@, version.url@, stepped.0)),
{
    let next = advance(state, event);
    (next, pending_step(version, container_dir, next))
}

/// A fetch that has ended stays as it is.
pub proof fn lemma_ended_stays(state: FetchState, events: Seq<FetchEvent>)
    requires
        state is Done || state is Failed,
    ensures
        state_after(state, events) == state,
    decreases events.len(),
{
    if events.len() > 0 {
        lemma_ended_stays(state, events.drop_last());
    }
}

/// Where the binary is on disk already, a fetch is done after the one look at the
/// disk, whatever comes after: nothing is downloaded, unpacked or removed.
pub proof fn lemma_present_binary_is_kept(events: Seq<FetchEvent>)
    requires
        events.len() > 0,
        events[0] == (FetchEvent::BinaryChecked { exists: true }),
    ensures
        state_after(FetchState::Checking, events) == FetchState::Done,
    decreases events.len(),
{
    if events.len() == 1 {
        assert(events.drop_last().len() == 0);
        assert(state_after(FetchState::Checking, events.drop_last()) == FetchState::Checking);
    } else {
        let shorter = events.drop_last();
        assert(shorter[0] == events[0]);
        lemma_present_binary_is_kept(shorter);
    }
}

/// Other versions are removed only once an archive has been unpacked: a download or an
/// unpacking that fails leaves the container directory as it was.
pub proof fn lemma_eviction_follows_extraction(state: FetchState, event: FetchEvent)
    requires
        next_state(state, event) is Evicting,
        !(state is Evicting),
    ensures
        state is Extracting,
        event == (FetchEvent::Extracted { ok: true }),
{
}

} // verus!
