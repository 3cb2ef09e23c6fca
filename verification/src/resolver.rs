//! The mod resolver: a state machine that brings the mods of a manifest into
//! the working directory, through a cache.
//!
//! The resolver never touches a file or the network. It hands out one
//! action at a time; the caller performs it and hands back what came of it.
//! Mods are taken strictly one after the other, in the manifest's order.

use vstd::prelude::*;
use vstd::string::*;
use vstd::pervasive::unreached;
use crate::error::{LauncherError, LauncherErrorView};
use crate::manifest::{LaunchManifest, ModEntry};
use crate::progress::{
    download_progress,
    spec_download_progress,
    ProgressUpdate,
    ProgressUpdateView,
};
use crate::search::{first_index, lemma_first_index};

verus! {

/// Where the resolver stands: which answer it waits for, and for which mod.
#[derive(Debug, Clone, Copy, PartialEq, Eq, Structural)]
pub enum Phase {
    /// The two directories are being made.
    EnsuringDirectories,
    /// The working directory is being cleared of files.
    Clearing,
    /// The label of the mod at this position is being shown.
    Labelling(usize),
    /// The cache is being asked for the mod at this position.
    Probing(usize),
    /// The directory of the mod's cache entry is being made.
    PreparingEntry(usize),
    /// The mod at this position is being downloaded.
    Downloading(usize),
    /// The mod's bytes are being written to the cache.
    Storing(usize),
    /// The mod's cache entry is being copied to the working directory.
    Copying(usize),
    /// Every selected mod is in the working directory.
    Finished,
    /// The run has failed.
    Failed,
}

/// What came of the action that the resolver handed out last.
#[derive(Debug, Clone, PartialEq, Eq)]
pub enum ResolverEvent {
    /// The action is done.
    Done,
    /// The answer to `ProbeCache`: there is an entry, or none.
    CacheProbed(bool),
    /// The answer to `Download`: the bytes.
    Downloaded(Vec<u8>),
    /// The action failed.
    Failed(LauncherError),
}

/// An event, as plain values.
pub enum ResolverEventView {
    Done,
    CacheProbed(bool),
    Downloaded(Seq<u8>),
    Failed(LauncherErrorView),
}

impl View for ResolverEvent {
    type V = ResolverEventView;

    open spec fn view(&self) -> ResolverEventView {
        match self {
            ResolverEvent::Done => ResolverEventView::Done,
            ResolverEvent::CacheProbed(found) => ResolverEventView::CacheProbed(*found),
            ResolverEvent::Downloaded(bytes) => ResolverEventView::Downloaded(bytes@),
            ResolverEvent::Failed(e) => ResolverEventView::Failed(e@),
        }
    }
}

/// What the caller is to do next. Paths of cache entries are relative to
/// the cache directory, file names to the working directory.
#[derive(Debug, Clone, PartialEq, Eq)]
pub enum ResolverAction {
    /// Make the cache directory and the working directory, with parents.
    EnsureDirectories,
    /// Remove every regular file from the working directory.
    ClearWorkingDirectory,
    /// Pass the message on to whoever shows progress.
    Report(ProgressUpdate),
    /// Tell whether the cache has an entry at `path`.
    ProbeCache { path: String },
    /// Make the directory that the entry at `path` goes into.
    CreateParentDirectory { path: String },
    /// Fetch the bytes behind `url`.
    Download { url: String },
    /// Write `bytes` as the cache entry at `path`.
    WriteCache { path: String, bytes: Vec<u8> },
    /// Copy the cache entry at `path` to `file_name` in the working
    /// directory, over whatever is there.
    CopyToWorkingDirectory { path: String, file_name: String },
    /// Nothing is left to do.
    Finish,
    /// Give up with this failure.
    Fail(LauncherError),
}

/// An action, as plain values.
pub enum ResolverActionView {
    EnsureDirectories,
    ClearWorkingDirectory,
    Report(ProgressUpdateView),
    ProbeCache { path: Seq<char> },
    CreateParentDirectory { path: Seq<char> },
    Download { url: Seq<char> },
    WriteCache { path: Seq<char>, bytes: Seq<u8> },
    CopyToWorkingDirectory { path: Seq<char>, file_name: Seq<char> },
    Finish,
    Fail(LauncherErrorView),
}

impl View for ResolverAction {
    type V = ResolverActionView;

    open spec fn view(&self) -> ResolverActionView {
        match self {
            ResolverAction::EnsureDirectories => ResolverActionView::EnsureDirectories,
            ResolverAction::ClearWorkingDirectory => ResolverActionView::ClearWorkingDirectory,
            ResolverAction::Report(update) => ResolverActionView::Report(update@),
            ResolverAction::ProbeCache { path } => ResolverActionView::ProbeCache { path: path@ },
            ResolverAction::CreateParentDirectory { path } => {
                ResolverActionView::CreateParentDirectory { path: path@ }
            },
            ResolverAction::Download { url } => ResolverActionView::Download { url: url@ },
            ResolverAction::WriteCache { path, bytes } => ResolverActionView::WriteCache {
                path: path@,
                bytes: bytes@,
            },
            ResolverAction::CopyToWorkingDirectory { path, file_name } => {
                ResolverActionView::CopyToWorkingDirectory { path: path@, file_name: file_name@ }
            },
            ResolverAction::Finish => ResolverActionView::Finish,
            ResolverAction::Fail(e) => ResolverActionView::Fail(e@),
        }
    }
}

/// The state of a resolver: its phase, and the failure once it has failed.
pub struct ResolverState {
    pub phase: Phase,
    pub failure: Option<LauncherErrorView>,
}

impl Phase {
    /// The mod that the phase is about, if it is about one.
    pub open spec fn index(self) -> Option<usize> {
        match self {
            Phase::Labelling(i) => Some(i),
            Phase::Probing(i) => Some(i),
            Phase::PreparingEntry(i) => Some(i),
            Phase::Downloading(i) => Some(i),
            Phase::Storing(i) => Some(i),
            Phase::Copying(i) => Some(i),
            _ => None,
        }
    }

    /// The run is over.
    pub open spec fn is_final(self) -> bool {
        self is Finished || self is Failed
    }
}

impl ResolverState {
    /// The state is one that a run over `m` can be in: a phase about a mod
    /// is about one of the mods of `m`, and the run holds a failure exactly
    /// when it has failed.
    pub open spec fn fits(self, m: LaunchManifest) -> bool {
        &&& (self.phase is Failed) == (self.failure is Some)
        &&& self.phase.index() matches Some(i) ==> i < m.mods@.len()
    }
}

/// The text of the failure for an answer that the download did not call for.
pub open spec fn unexpected_download_answer() -> Seq<char> {
    "unexpected answer to a download"@
}

/// The text of the failure for an answer that a file operation did not call
/// for.
pub open spec fn unexpected_file_answer() -> Seq<char> {
    "unexpected answer to a file operation"@
}

/// The failure for an event that is no answer to what `phase` waits for.
pub open spec fn unexpected(phase: Phase) -> LauncherErrorView {
    if phase is Downloading {
        LauncherErrorView::Transport(unexpected_download_answer())
    } else {
        LauncherErrorView::Filesystem(unexpected_file_answer())
    }
}

/// The run goes on in `phase` with `action`.
pub open spec fn goes_on(phase: Phase, action: ResolverActionView) -> (
    ResolverState,
    ResolverActionView,
) {
    (ResolverState { phase, failure: None }, action)
}

/// The run ends with the failure `e`.
pub open spec fn gives_up(e: LauncherErrorView) -> (ResolverState, ResolverActionView) {
    (ResolverState { phase: Phase::Failed, failure: Some(e) }, ResolverActionView::Fail(e))
}

/// The first selected mod at or behind position `from`.
pub open spec fn next_selected(mods: Seq<ModEntry>, from: int) -> Option<int> {
    first_index(|i: int| mods[i].spec_is_selected(), from, mods.len() as int)
}

/// `next_selected` finds a selected mod at or behind `from`, before which
/// none is selected; it finds none only where none is left.
pub proof fn lemma_next_selected(mods: Seq<ModEntry>, from: int)
    ensures
        match next_selected(mods, from) {
            Some(i) => {
                &&& from <= i < mods.len()
                &&& mods[i].spec_is_selected()
                &&& forall|j: int| from <= j < i ==> !(#[trigger] mods[j]).spec_is_selected()
            },
            None => forall|j: int| from <= j < mods.len() ==> !(#[trigger] mods[j]).spec_is_selected(),
        },
{
    let selected = |i: int| mods[i].spec_is_selected();
    lemma_first_index(selected, from, mods.len() as int);
    match next_selected(mods, from) {
        Some(i) => {
            assert forall|j: int| from <= j < i implies !(#[trigger] mods[j]).spec_is_selected() by {
                assert(!selected(j));
            }
        },
        None => {
            assert forall|j: int| from <= j < mods.len() implies !(#[trigger] mods[j]).spec_is_selected() by {
                assert(!selected(j));
            }
        },
    }
}

/// The resolver turns to the first selected mod at or behind `from` and
/// shows its label; with none left it finishes.
pub open spec fn turn_to(m: LaunchManifest, from: int) -> (ResolverState, ResolverActionView) {
    match next_selected(m.mods@, from) {
        Some(i) => goes_on(
            Phase::Labelling(i as usize),
            ResolverActionView::Report(ProgressUpdateView::SetLabel(m.mods@[i].spec_label())),
        ),
        None => goes_on(Phase::Finished, ResolverActionView::Finish),
    }
}

/// The resolver asks the cache for mod `i`.
pub open spec fn probe(m: LaunchManifest, i: usize) -> (ResolverState, ResolverActionView) {
    match m.mods@[i as int].source.spec_get_path() {
        Err(e) => gives_up(e),
        Ok(path) => goes_on(Phase::Probing(i), ResolverActionView::ProbeCache { path }),
    }
}

/// The resolver has the directory of the cache entry of mod `i` made.
pub open spec fn prepare(m: LaunchManifest, i: usize) -> (ResolverState, ResolverActionView) {
    match m.mods@[i as int].source.spec_get_path() {
        Err(e) => gives_up(e),
        Ok(path) => goes_on(
            Phase::PreparingEntry(i),
            ResolverActionView::CreateParentDirectory { path },
        ),
    }
}

/// The resolver has mod `i` downloaded.
pub open spec fn fetch(m: LaunchManifest, i: usize) -> (ResolverState, ResolverActionView) {
    match m.spec_download_url(m.mods@[i as int].source) {
        Err(e) => gives_up(e),
        Ok(url) => goes_on(Phase::Downloading(i), ResolverActionView::Download { url }),
    }
}

/// The resolver has what came of `downloaded` written as the cache entry of
/// mod `i`.
pub open spec fn store(m: LaunchManifest, i: usize, downloaded: Seq<u8>) -> (
    ResolverState,
    ResolverActionView,
) {
    match m.mods@[i as int].source.spec_get_path() {
        Err(e) => gives_up(e),
        Ok(path) => match m.mods@[i as int].source.spec_final_bytes(downloaded) {
            Err(e) => gives_up(e),
            Ok(bytes) => goes_on(Phase::Storing(i), ResolverActionView::WriteCache { path, bytes }),
        },
    }
}

/// The resolver has the cache entry of mod `i` copied to the working
/// directory.
pub open spec fn copy(m: LaunchManifest, i: usize) -> (ResolverState, ResolverActionView) {
    match m.mods@[i as int].source.spec_get_path() {
        Err(e) => gives_up(e),
        Ok(path) => goes_on(
            Phase::Copying(i),
            ResolverActionView::CopyToWorkingDirectory {
                path,
                file_name: m.mods@[i as int].spec_file_name(),
            },
        ),
    }
}

/// How a run begins.
pub open spec fn spec_start() -> (ResolverState, ResolverActionView) {
    goes_on(Phase::EnsuringDirectories, ResolverActionView::EnsureDirectories)
}

/// The next state and action of a resolver for `m` that is in state `s`
/// when `event` arrives.
///
/// A run that is over stays over. A failed action ends the run with its
/// failure; so does an event that is no answer to the action handed out.
pub open spec fn spec_step(m: LaunchManifest, s: ResolverState, event: ResolverEventView) -> (
    ResolverState,
    ResolverActionView,
) {
    match s.phase {
        Phase::Finished => goes_on(Phase::Finished, ResolverActionView::Finish),
        Phase::Failed => (s, ResolverActionView::Fail(s.failure->0)),
        Phase::EnsuringDirectories => match event {
            ResolverEventView::Failed(e) => gives_up(e),
            ResolverEventView::Done => goes_on(
                Phase::Clearing,
                ResolverActionView::ClearWorkingDirectory,
            ),
            _ => gives_up(unexpected(s.phase)),
        },
        Phase::Clearing => match event {
            ResolverEventView::Failed(e) => gives_up(e),
            ResolverEventView::Done => turn_to(m, 0),
            _ => gives_up(unexpected(s.phase)),
        },
        Phase::Labelling(i) => match event {
            ResolverEventView::Failed(e) => gives_up(e),
            ResolverEventView::Done => probe(m, i),
            _ => gives_up(unexpected(s.phase)),
        },
        Phase::Probing(i) => match event {
            ResolverEventView::Failed(e) => gives_up(e),
            ResolverEventView::CacheProbed(found) => if found {
                copy(m, i)
            } else {
                prepare(m, i)
            },
            _ => gives_up(unexpected(s.phase)),
        },
        Phase::PreparingEntry(i) => match event {
            ResolverEventView::Failed(e) => gives_up(e),
            ResolverEventView::Done => fetch(m, i),
            _ => gives_up(unexpected(s.phase)),
        },
        Phase::Downloading(i) => match event {
            ResolverEventView::Failed(e) => gives_up(e),
            ResolverEventView::Downloaded(bytes) => store(m, i, bytes),
            _ => gives_up(unexpected(s.phase)),
        },
        Phase::Storing(i) => match event {
            ResolverEventView::Failed(e) => gives_up(e),
            ResolverEventView::Done => copy(m, i),
            _ => gives_up(unexpected(s.phase)),
        },
        Phase::Copying(i) => match event {
            ResolverEventView::Failed(e) => gives_up(e),
            ResolverEventView::Done => turn_to(m, i + 1),
            _ => gives_up(unexpected(s.phase)),
        },
    }
}

/// The progress message for a download callback that arrives in state `s`:
/// none unless a download is under way.
pub open spec fn spec_progress_message(m: LaunchManifest, s: ResolverState, downloaded: u64, total: u64) -> Option<
    ProgressUpdate,
> {
    match s.phase {
        Phase::Downloading(i) => match spec_download_progress(
            i as int,
            m.mods@.len() as int,
            downloaded as int,
            total as int,
        ) {
            Some(v) => Some(ProgressUpdate::SetProgress(v)),
            None => None,
        },
        _ => None,
    }
}

/// A run of the mod resolver over one manifest.
pub struct Resolver<'a> {
    manifest: &'a LaunchManifest,
    phase: Phase,
    failure: Option<LauncherError>,
}

impl<'a> Resolver<'a> {
    #[verifier::type_invariant]
    spec fn consistent(self) -> bool {
        &&& (self.phase is Failed) == (self.failure is Some)
        &&& self.phase.index() matches Some(i) ==> i < self.manifest.mods.len()
    }

    /// The manifest that the run is about.
    pub closed spec fn manifest(self) -> LaunchManifest {
        *self.manifest
    }

    /// Where the run stands.
    pub closed spec fn state(self) -> ResolverState {
        ResolverState {
            phase: self.phase,
            failure: match self.failure {
                Some(e) => Some(e@),
                None => None,
            },
        }
    }

    fn in_phase(manifest: &'a LaunchManifest, phase: Phase, action: ResolverAction) -> (r: (
        Self,
        ResolverAction,
    ))
        requires
            !(phase is Failed),
            phase.index() matches Some(i) ==> i < manifest.mods.len(),
        ensures
            r.0.manifest() == *manifest,
            (r.0.state(), r.1@) == goes_on(phase, action@),
    {
        (Resolver { manifest, phase, failure: None }, action)
    }

    fn failed_with(manifest: &'a LaunchManifest, e: LauncherError) -> (r: (Self, ResolverAction))
        ensures
            r.0.manifest() == *manifest,
            (r.0.state(), r.1@) == gives_up(e@),
    {
        let again: LauncherError = e.duplicate();
        (Resolver { manifest, phase: Phase::Failed, failure: Some(e) }, ResolverAction::Fail(again))
    }

    fn turning_to(manifest: &'a LaunchManifest, from: usize) -> (r: (Self, ResolverAction))
        requires
            from <= manifest.mods.len(),
        ensures
            r.0.manifest() == *manifest,
            (r.0.state(), r.1@) == turn_to(*manifest, from as int),
    {
        let ghost selected = |i: int| manifest.mods@[i].spec_is_selected();
        let n: usize = manifest.mods.len();
        let mut i: usize = from;
        while i < n
            invariant
                from <= i <= n,
                n == manifest.mods.len(),
                selected == (|i: int| manifest.mods@[i].spec_is_selected()),
                first_index(selected, from as int, n as int) == first_index(
                    selected,
                    i as int,
                    n as int,
                ),
            decreases n - i,
        {
            if manifest.mods[i].is_selected() {
                assert(selected(i as int));
                let label: String = manifest.mods[i].label();
                return Self::in_phase(
                    manifest,
                    Phase::Labelling(i),
                    ResolverAction::Report(ProgressUpdate::SetLabel(label)),
                );
            }
            assert(!selected(i as int));
            i += 1;
        }
        Self::in_phase(manifest, Phase::Finished, ResolverAction::Finish)
    }

    fn probing(manifest: &'a LaunchManifest, i: usize) -> (r: (Self, ResolverAction))
        requires
            i < manifest.mods.len(),
        ensures
            r.0.manifest() == *manifest,
            (r.0.state(), r.1@) == probe(*manifest, i),
    {
        match manifest.mods[i].source.get_path() {
            Err(e) => Self::failed_with(manifest, e),
            Ok(path) => Self::in_phase(
                manifest,
                Phase::Probing(i),
                ResolverAction::ProbeCache { path },
            ),
        }
    }

    fn preparing(manifest: &'a LaunchManifest, i: usize) -> (r: (Self, ResolverAction))
        requires
            i < manifest.mods.len(),
        ensures
            r.0.manifest() == *manifest,
            (r.0.state(), r.1@) == prepare(*manifest, i),
    {
        match manifest.mods[i].source.get_path() {
            Err(e) => Self::failed_with(manifest, e),
            Ok(path) => Self::in_phase(
                manifest,
                Phase::PreparingEntry(i),
                ResolverAction::CreateParentDirectory { path },
            ),
        }
    }

    fn fetching(manifest: &'a LaunchManifest, i: usize) -> (r: (Self, ResolverAction))
        requires
            i < manifest.mods.len(),
        ensures
            r.0.manifest() == *manifest,
            (r.0.state(), r.1@) == fetch(*manifest, i),
    {
        match manifest.download_url(&manifest.mods[i].source) {
            Err(e) => Self::failed_with(manifest, e),
            Ok(url) => Self::in_phase(
                manifest,
                Phase::Downloading(i),
                ResolverAction::Download { url },
            ),
        }
    }

    fn storing(manifest: &'a LaunchManifest, i: usize, downloaded: Vec<u8>) -> (r: (
        Self,
        ResolverAction,
    ))
        requires
            i < manifest.mods.len(),
        ensures
            r.0.manifest() == *manifest,
            (r.0.state(), r.1@) == store(*manifest, i, downloaded@),
    {
        match manifest.mods[i].source.get_path() {
            Err(e) => Self::failed_with(manifest, e),
            Ok(path) => match manifest.mods[i].source.final_bytes(downloaded) {
                Err(e) => Self::failed_with(manifest, e),
                Ok(bytes) => Self::in_phase(
                    manifest,
                    Phase::Storing(i),
                    ResolverAction::WriteCache { path, bytes },
                ),
            },
        }
    }

    fn copying(manifest: &'a LaunchManifest, i: usize) -> (r: (Self, ResolverAction))
        requires
            i < manifest.mods.len(),
        ensures
            r.0.manifest() == *manifest,
            (r.0.state(), r.1@) == copy(*manifest, i),
    {
        match manifest.mods[i].source.get_path() {
            Err(e) => Self::failed_with(manifest, e),
            Ok(path) => {
                let file_name: String = manifest.mods[i].file_name();
                Self::in_phase(
                    manifest,
                    Phase::Copying(i),
                    ResolverAction::CopyToWorkingDirectory { path, file_name },
                )
            },
        }
    }

    fn unexpected_answer(manifest: &'a LaunchManifest, phase: Phase) -> (r: (Self, ResolverAction))
        ensures
            r.0.manifest() == *manifest,
            (r.0.state(), r.1@) == gives_up(unexpected(phase)),
    {
        let e: LauncherError = match phase {
            Phase::Downloading(_) => LauncherError::Transport(
                "unexpected answer to a download".to_owned(),
            ),
            _ => LauncherError::Filesystem("unexpected answer to a file operation".to_owned()),
        };
        Self::failed_with(manifest, e)
    }

    /// Begins a run over `manifest`: the new resolver and its first action.
    pub fn new(manifest: &'a LaunchManifest) -> (r: (Self, ResolverAction))
        ensures
            r.0.manifest() == *manifest,
            (r.0.state(), r.1@) == spec_start(),
            r.0.state().fits(*manifest),
    {
        let r: (Self, ResolverAction) = Self::in_phase(
            manifest,
            Phase::EnsuringDirectories,
            ResolverAction::EnsureDirectories,
        );
        proof {
            use_type_invariant(&r.0);
        }
        r
    }

    /// Takes what came of the last action and says what is to be done next.
    pub fn step(self, event: ResolverEvent) -> (r: (Self, ResolverAction))
        ensures
            r.0.manifest() == self.manifest(),
            (r.0.state(), r.1@) == spec_step(self.manifest(), self.state(), event@),
            self.state().fits(self.manifest()),
            r.0.state().fits(self.manifest()),
    {
        proof {
            use_type_invariant(&self);
        }
        let manifest: &'a LaunchManifest = self.manifest;
        let phase: Phase = self.phase;
        match phase {
            Phase::Finished => {
                let r: (Self, ResolverAction) = Self::in_phase(
                    manifest,
                    Phase::Finished,
                    ResolverAction::Finish,
                );
                proof {
                    use_type_invariant(&r.0);
                }
                return r;
            },
            Phase::Failed => {
                let again: LauncherError = match &self.failure {
                    Some(e) => e.duplicate(),
                    None => unreached(),
                };
                return (self, ResolverAction::Fail(again));
            },
            _ => {},
        }
        let r: (Self, ResolverAction) = match event {
            ResolverEvent::Failed(e) => Self::failed_with(manifest, e),
            ResolverEvent::Done => match phase {
                Phase::EnsuringDirectories => Self::in_phase(
                    manifest,
                    Phase::Clearing,
                    ResolverAction::ClearWorkingDirectory,
                ),
                Phase::Clearing => Self::turning_to(manifest, 0),
                Phase::Labelling(i) => Self::probing(manifest, i),
                Phase::PreparingEntry(i) => Self::fetching(manifest, i),
                Phase::Storing(i) => Self::copying(manifest, i),
                Phase::Copying(i) => Self::turning_to(manifest, i + 1),
                _ => Self::unexpected_answer(manifest, phase),
            },
            ResolverEvent::CacheProbed(found) => match phase {
                Phase::Probing(i) => if found {
                    Self::copying(manifest, i)
                } else {
                    Self::preparing(manifest, i)
                },
                _ => Self::unexpected_answer(manifest, phase),
            },
            ResolverEvent::Downloaded(bytes) => match phase {
                Phase::Downloading(i) => Self::storing(manifest, i, bytes),
                _ => Self::unexpected_answer(manifest, phase),
            },
        };
        proof {
            use_type_invariant(&r.0);
        }
        r
    }

    /// Where the run stands.
    pub fn phase(&self) -> (r: Phase)
        ensures
            r == self.state().phase,
    {
        self.phase
    }

    /// Tells whether the run is over.
    pub fn is_done(&self) -> (r: bool)
        ensures
            r == self.state().phase.is_final(),
    {
        match self.phase {
            Phase::Finished => true,
            Phase::Failed => true,
            _ => false,
        }
    }

    /// The progress message for a download callback: `downloaded` out of
    /// `total` bytes of the mod that is being downloaded have arrived.
    ///
    /// There is none unless a download is under way, and none where the
    /// value does not fit.
    pub fn download_progress(&self, downloaded: u64, total: u64) -> (r: Option<ProgressUpdate>)
        ensures
            r == spec_progress_message(self.manifest(), self.state(), downloaded, total),
    {
        match self.phase {
            Phase::Downloading(i) => download_progress(
                i,
                self.manifest.mods.len(),
                downloaded,
                total,
            ),
            _ => None,
        }
    }
}

/// Every state that a run reaches fits its manifest: the first one does,
/// and a step from one that does leads to one that does.
pub proof fn lemma_step_keeps_fit(m: LaunchManifest, s: ResolverState, event: ResolverEventView)
    requires
        s.fits(m),
    ensures
        spec_start().0.fits(m),
        spec_step(m, s, event).0.fits(m),
{
    lemma_next_selected(m.mods@, 0);
    match s.phase {
        Phase::Copying(i) => {
            lemma_next_selected(m.mods@, i + 1);
        },
        _ => {},
    }
}

/// The resolver asks for the cache, for a download or for a copy only on
/// behalf of a mod that is selected: whenever a step leads to a phase about
/// a mod, that mod is required or on by default.
pub proof fn lemma_only_selected_mods(m: LaunchManifest, s: ResolverState, event: ResolverEventView)
    requires
        s.fits(m),
        s.phase.index() matches Some(i) ==> m.mods@[i as int].spec_is_selected(),
    ensures
        spec_step(m, s, event).0.phase.index() matches Some(i) ==> m.mods@[i as int].spec_is_selected(),
{
    assert(m.mods.len() == m.mods@.len());
    lemma_next_selected(m.mods@, 0);
    match s.phase {
        Phase::Copying(i) => {
            lemma_next_selected(m.mods@, i + 1);
        },
        _ => {},
    }
}

/// Mods are taken one after the other, in the manifest's order: a step
/// never leads back to an earlier mod, and it leads on to a later one only
/// from the copy that completes the mod in hand.
pub proof fn lemma_mods_in_order(m: LaunchManifest, s: ResolverState, event: ResolverEventView)
    requires
        s.fits(m),
    ensures
        s.phase.index() is Some && spec_step(m, s, event).0.phase.index() is Some ==> {
            let i = s.phase.index()->0;
            let j = spec_step(m, s, event).0.phase.index()->0;
            i <= j && (i < j ==> s.phase is Copying)
        },
{
    assert(m.mods.len() == m.mods@.len());
    match s.phase {
        Phase::Copying(i) => {
            lemma_next_selected(m.mods@, i + 1);
        },
        _ => {},
    }
}

} // verus!
