//! The launch sequence: catalog, manifest, mods, version descriptor, launch.
//!
//! Like the mod resolver, the launcher decides and does nothing itself: it
//! hands out one action at a time and takes back what came of it.

use vstd::prelude::*;
use vstd::string::*;
use vstd::pervasive::unreached;
use crate::error::{LauncherError, LauncherErrorView};
use crate::manifest::{Build, LaunchManifest};
use crate::progress::{ProgressUpdate, ProgressUpdateView};
use crate::version::{
    find_inherited_url,
    spec_find_inherited_url,
    spec_merge,
    CatalogEntry,
    VersionDescriptor,
    VersionDescriptorView,
};

verus! {

/// Where a launch stands: which answer it waits for.
#[derive(Debug, Clone, Copy, PartialEq, Eq, Structural)]
pub enum LaunchPhase {
    /// The catalog of known versions is being fetched.
    FetchingCatalog,
    /// The manifest of the build is being fetched.
    FetchingManifest,
    /// The value of "everything done" is being announced.
    AnnouncingScale,
    /// Progress is being put back to nothing.
    ResettingProgress,
    /// The mods are being brought into the working directory.
    RetrievingMods,
    /// The root version descriptor is being loaded.
    LoadingDescriptor,
    /// The descriptor that the root builds on is being loaded.
    LoadingParent,
    /// The game is being launched.
    Launching,
    /// The game has been launched.
    Finished,
    /// The launch has failed.
    Failed,
}

/// What came of the action that the launcher handed out last.
#[derive(Debug, Clone, PartialEq, Eq)]
pub enum LaunchEvent {
    /// The action is done.
    Done,
    /// The answer to `FetchCatalog`.
    CatalogFetched(Vec<CatalogEntry>),
    /// The answer to `FetchManifest`.
    ManifestFetched(LaunchManifest),
    /// The answer to `LoadDescriptor`.
    DescriptorLoaded(VersionDescriptor),
    /// The action failed.
    Failed(LauncherError),
}

/// What the caller is to do next.
#[derive(Debug, Clone, PartialEq, Eq)]
pub enum LaunchAction {
    /// Fetch the catalog of known versions.
    FetchCatalog,
    /// Fetch the manifest of the build with this id.
    FetchManifest { build_id: u32 },
    /// Pass the message on to whoever shows progress.
    Report(ProgressUpdate),
    /// Bring the mods of `manifest` into the working directory.
    RetrieveMods { manifest: LaunchManifest },
    /// Load the version descriptor behind `url`.
    LoadDescriptor { url: String },
    /// Launch the game as `descriptor` says.
    Launch { descriptor: VersionDescriptor },
    /// Nothing is left to do.
    Finish,
    /// Give up with this failure.
    Fail(LauncherError),
}

/// An action, as plain values.
pub enum LaunchActionView {
    FetchCatalog,
    FetchManifest { build_id: u32 },
    Report(ProgressUpdateView),
    RetrieveMods { manifest: LaunchManifest },
    LoadDescriptor { url: Seq<char> },
    Launch { descriptor: VersionDescriptorView },
    Finish,
    Fail(LauncherErrorView),
}

impl View for LaunchAction {
    type V = LaunchActionView;

    open spec fn view(&self) -> LaunchActionView {
        match self {
            LaunchAction::FetchCatalog => LaunchActionView::FetchCatalog,
            LaunchAction::FetchManifest { build_id } => LaunchActionView::FetchManifest {
                build_id: *build_id,
            },
            LaunchAction::Report(update) => LaunchActionView::Report(update@),
            LaunchAction::RetrieveMods { manifest } => LaunchActionView::RetrieveMods {
                manifest: *manifest,
            },
            LaunchAction::LoadDescriptor { url } => LaunchActionView::LoadDescriptor { url: url@ },
            LaunchAction::Launch { descriptor } => LaunchActionView::Launch {
                descriptor: descriptor@,
            },
            LaunchAction::Finish => LaunchActionView::Finish,
            LaunchAction::Fail(e) => LaunchActionView::Fail(e@),
        }
    }
}

/// The state of a launch: its phase and what it has learnt so far.
pub struct LaunchState {
    pub phase: LaunchPhase,
    /// The catalog, once it has been fetched.
    pub catalog: Seq<CatalogEntry>,
    /// The manifest, from when it has been fetched until it is handed out.
    pub manifest: Option<LaunchManifest>,
    /// The URL of the root descriptor, once the manifest has been fetched.
    pub descriptor_url: Seq<char>,
    /// The root descriptor, while its parent is being loaded.
    pub child: Option<VersionDescriptorView>,
    /// The failure, once the launch has failed.
    pub failure: Option<LauncherErrorView>,
}

impl LaunchPhase {
    /// The place of the phase in the sequence of a launch.
    pub open spec fn rank(self) -> int {
        match self {
            LaunchPhase::FetchingCatalog => 0,
            LaunchPhase::FetchingManifest => 1,
            LaunchPhase::AnnouncingScale => 2,
            LaunchPhase::ResettingProgress => 3,
            LaunchPhase::RetrievingMods => 4,
            LaunchPhase::LoadingDescriptor => 5,
            LaunchPhase::LoadingParent => 6,
            LaunchPhase::Launching => 7,
            LaunchPhase::Finished => 8,
            LaunchPhase::Failed => 9,
        }
    }
}

impl LaunchState {
    /// The state is one that a launch can be in: it holds what its phase
    /// needs, and a failure exactly when it has failed.
    pub open spec fn fits(self) -> bool {
        &&& (self.phase is Failed) == (self.failure is Some)
        &&& (self.phase is AnnouncingScale || self.phase is ResettingProgress)
            ==> self.manifest is Some
        &&& self.phase is LoadingParent ==> self.child is Some
    }

    /// The state in another phase.
    pub open spec fn in_phase(self, phase: LaunchPhase) -> LaunchState {
        LaunchState { phase, ..self }
    }

    /// The state after the failure `e`.
    pub open spec fn failed(self, e: LauncherErrorView) -> LaunchState {
        LaunchState { phase: LaunchPhase::Failed, failure: Some(e), ..self }
    }
}

/// The text of the failure for an event that is no answer to the action
/// handed out.
pub open spec fn unexpected_answer() -> Seq<char> {
    "unexpected answer"@
}

/// The launch ends with the failure `e`.
pub open spec fn launch_gives_up(s: LaunchState, e: LauncherErrorView) -> (
    LaunchState,
    LaunchActionView,
) {
    (s.failed(e), LaunchActionView::Fail(e))
}

/// How a launch begins.
pub open spec fn spec_launch_start() -> (LaunchState, LaunchActionView) {
    (
        LaunchState {
            phase: LaunchPhase::FetchingCatalog,
            catalog: Seq::<CatalogEntry>::empty(),
            manifest: None,
            descriptor_url: Seq::<char>::empty(),
            child: None,
            failure: None,
        },
        LaunchActionView::FetchCatalog,
    )
}

/// What follows the arrival of the root descriptor: the launch if it
/// builds on nothing, else the loading of its parent, whose URL the catalog
/// gives.
pub open spec fn after_root(s: LaunchState, root: VersionDescriptor) -> (
    LaunchState,
    LaunchActionView,
) {
    match root.inherits_from {
        None => (
            s.in_phase(LaunchPhase::Launching),
            LaunchActionView::Launch { descriptor: root@ },
        ),
        Some(parent_id) => match spec_find_inherited_url(s.catalog, parent_id@) {
            Err(e) => launch_gives_up(s, e),
            Ok(url) => (
                LaunchState { phase: LaunchPhase::LoadingParent, child: Some(root@), ..s },
                LaunchActionView::LoadDescriptor { url },
            ),
        },
    }
}

/// What follows the arrival of the parent: the launch of the two composed.
pub open spec fn after_parent(s: LaunchState, parent: VersionDescriptor) -> (
    LaunchState,
    LaunchActionView,
) {
    match spec_merge(s.child->0, parent@) {
        Err(e) => launch_gives_up(s, e),
        Ok(composed) => (
            LaunchState { phase: LaunchPhase::Launching, child: None, ..s },
            LaunchActionView::Launch { descriptor: composed },
        ),
    }
}

/// The next state and action of a launch of `build` that is in state `s`
/// when `event` arrives.
///
/// A launch that is over stays over. A failed action ends the launch with
/// its failure; an event that is no answer to the action handed out ends it
/// with a `Transport` failure.
pub open spec fn spec_launch_step(build: Build, s: LaunchState, event: LaunchEvent) -> (
    LaunchState,
    LaunchActionView,
) {
    match s.phase {
        LaunchPhase::Finished => (s, LaunchActionView::Finish),
        LaunchPhase::Failed => (s, LaunchActionView::Fail(s.failure->0)),
        _ => match (s.phase, event) {
            (_, LaunchEvent::Failed(e)) => launch_gives_up(s, e@),
            (LaunchPhase::FetchingCatalog, LaunchEvent::CatalogFetched(catalog)) => (
                LaunchState { phase: LaunchPhase::FetchingManifest, catalog: catalog@, ..s },
                LaunchActionView::FetchManifest { build_id: build.build_id },
            ),
            (LaunchPhase::FetchingManifest, LaunchEvent::ManifestFetched(manifest)) => (
                LaunchState {
                    phase: LaunchPhase::AnnouncingScale,
                    manifest: Some(manifest),
                    descriptor_url: manifest.loader.spec_manifest_url(build),
                    ..s
                },
                LaunchActionView::Report(ProgressUpdateView::SetMax(4096)),
            ),
            (LaunchPhase::AnnouncingScale, LaunchEvent::Done) => (
                s.in_phase(LaunchPhase::ResettingProgress),
                LaunchActionView::Report(ProgressUpdateView::SetProgress(0)),
            ),
            (LaunchPhase::ResettingProgress, LaunchEvent::Done) => (
                LaunchState { phase: LaunchPhase::RetrievingMods, manifest: None, ..s },
                LaunchActionView::RetrieveMods { manifest: s.manifest->0 },
            ),
            (LaunchPhase::RetrievingMods, LaunchEvent::Done) => (
                s.in_phase(LaunchPhase::LoadingDescriptor),
                LaunchActionView::LoadDescriptor { url: s.descriptor_url },
            ),
            (LaunchPhase::LoadingDescriptor, LaunchEvent::DescriptorLoaded(root)) => after_root(
                s,
                root,
            ),
            (LaunchPhase::LoadingParent, LaunchEvent::DescriptorLoaded(parent)) => after_parent(
                s,
                parent,
            ),
            (LaunchPhase::Launching, LaunchEvent::Done) => (
                s.in_phase(LaunchPhase::Finished),
                LaunchActionView::Finish,
            ),
            _ => launch_gives_up(s, LauncherErrorView::Transport(unexpected_answer())),
        },
    }
}

/// One launch of one build.
pub struct Launcher {
    build: Build,
    phase: LaunchPhase,
    catalog: Vec<CatalogEntry>,
    manifest: Option<LaunchManifest>,
    descriptor_url: String,
    child: Option<VersionDescriptor>,
    failure: Option<LauncherError>,
}

impl Launcher {
    #[verifier::type_invariant]
    spec fn consistent(self) -> bool {
        self.state().fits()
    }

    /// The build that is being launched.
    pub closed spec fn build(self) -> Build {
        self.build
    }

    /// Where the launch stands.
    pub closed spec fn state(self) -> LaunchState {
        LaunchState {
            phase: self.phase,
            catalog: self.catalog@,
            manifest: self.manifest,
            descriptor_url: self.descriptor_url@,
            child: match self.child {
                Some(d) => Some(d@),
                None => None,
            },
            failure: match self.failure {
                Some(e) => Some(e@),
                None => None,
            },
        }
    }

    /// Begins the launch of `build`: the new launcher and its first action.
    pub fn new(build: Build) -> (r: (Self, LaunchAction))
        ensures
            r.0.build() == build,
            (r.0.state(), r.1@) == spec_launch_start(),
            r.0.state().fits(),
    {
        let launcher = Launcher {
            build,
            phase: LaunchPhase::FetchingCatalog,
            catalog: Vec::new(),
            manifest: None,
            descriptor_url: String::new(),
            child: None,
            failure: None,
        };
        (launcher, LaunchAction::FetchCatalog)
    }

    /// Takes what came of the last action and says what is to be done next.
    pub fn step(self, event: LaunchEvent) -> (r: (Self, LaunchAction))
        ensures
            r.0.build() == self.build(),
            (r.0.state(), r.1@) == spec_launch_step(self.build(), self.state(), event),
            self.state().fits(),
            r.0.state().fits(),
    {
        proof {
            use_type_invariant(&self);
        }
        let Launcher { build, phase, catalog, manifest, descriptor_url, child, failure } = self;
        match phase {
            LaunchPhase::Finished => {
                return (
                    Launcher { build, phase, catalog, manifest, descriptor_url, child, failure },
                    LaunchAction::Finish,
                );
            },
            LaunchPhase::Failed => {
                let again: LauncherError = match &failure {
                    Some(e) => e.duplicate(),
                    None => unreached(),
                };
                return (
                    Launcher { build, phase, catalog, manifest, descriptor_url, child, failure },
                    LaunchAction::Fail(again),
                );
            },
            _ => {},
        }
        match (phase, event) {
            (_, LaunchEvent::Failed(e)) => {
                let again: LauncherError = e.duplicate();
                (
                    Launcher {
                        build,
                        phase: LaunchPhase::Failed,
                        catalog,
                        manifest,
                        descriptor_url,
                        child,
                        failure: Some(e),
                    },
                    LaunchAction::Fail(again),
                )
            },
            (LaunchPhase::FetchingCatalog, LaunchEvent::CatalogFetched(fetched)) => {
                let build_id: u32 = build.build_id;
                (
                    Launcher {
                        build,
                        phase: LaunchPhase::FetchingManifest,
                        catalog: fetched,
                        manifest,
                        descriptor_url,
                        child,
                        failure,
                    },
                    LaunchAction::FetchManifest { build_id },
                )
            },
            (LaunchPhase::FetchingManifest, LaunchEvent::ManifestFetched(fetched)) => {
                let url: String = fetched.loader.manifest_url(&build);
                (
                    Launcher {
                        build,
                        phase: LaunchPhase::AnnouncingScale,
                        catalog,
                        manifest: Some(fetched),
                        descriptor_url: url,
                        child,
                        failure,
                    },
                    LaunchAction::Report(ProgressUpdate::set_max()),
                )
            },
            (LaunchPhase::AnnouncingScale, LaunchEvent::Done) => {
                (
                    Launcher {
                        build,
                        phase: LaunchPhase::ResettingProgress,
                        catalog,
                        manifest,
                        descriptor_url,
                        child,
                        failure,
                    },
                    LaunchAction::Report(ProgressUpdate::SetProgress(0)),
                )
            },
            (LaunchPhase::ResettingProgress, LaunchEvent::Done) => {
                let handed: LaunchManifest = match manifest {
                    Some(m) => m,
                    None => unreached(),
                };
                (
                    Launcher {
                        build,
                        phase: LaunchPhase::RetrievingMods,
                        catalog,
                        manifest: None,
                        descriptor_url,
                        child,
                        failure,
                    },
                    LaunchAction::RetrieveMods { manifest: handed },
                )
            },
            (LaunchPhase::RetrievingMods, LaunchEvent::Done) => {
                let url: String = descriptor_url.clone();
                (
                    Launcher {
                        build,
                        phase: LaunchPhase::LoadingDescriptor,
                        catalog,
                        manifest,
                        descriptor_url,
                        child,
                        failure,
                    },
                    LaunchAction::LoadDescriptor { url },
                )
            },
            (LaunchPhase::LoadingDescriptor, LaunchEvent::DescriptorLoaded(root)) => {
                let found: Option<Result<String, LauncherError>> = match &root.inherits_from {
                    None => None,
                    Some(parent_id) => Some(find_inherited_url(&catalog, parent_id.as_str())),
                };
                match found {
                    None => (
                        Launcher {
                            build,
                            phase: LaunchPhase::Launching,
                            catalog,
                            manifest,
                            descriptor_url,
                            child,
                            failure,
                        },
                        LaunchAction::Launch { descriptor: root },
                    ),
                    Some(Err(e)) => {
                        let again: LauncherError = e.duplicate();
                        (
                            Launcher {
                                build,
                                phase: LaunchPhase::Failed,
                                catalog,
                                manifest,
                                descriptor_url,
                                child,
                                failure: Some(e),
                            },
                            LaunchAction::Fail(again),
                        )
                    },
                    Some(Ok(url)) => (
                        Launcher {
                            build,
                            phase: LaunchPhase::LoadingParent,
                            catalog,
                            manifest,
                            descriptor_url,
                            child: Some(root),
                            failure,
                        },
                        LaunchAction::LoadDescriptor { url },
                    ),
                }
            },
            (LaunchPhase::LoadingParent, LaunchEvent::DescriptorLoaded(parent)) => {
                let mut composed: VersionDescriptor = match child {
                    Some(root) => root,
                    None => unreached(),
                };
                match composed.merge(parent) {
                    Ok(()) => (
                        Launcher {
                            build,
                            phase: LaunchPhase::Launching,
                            catalog,
                            manifest,
                            descriptor_url,
                            child: None,
                            failure,
                        },
                        LaunchAction::Launch { descriptor: composed },
                    ),
                    Err(e) => {
                        let again: LauncherError = e.duplicate();
                        (
                            Launcher {
                                build,
                                phase: LaunchPhase::Failed,
                                catalog,
                                manifest,
                                descriptor_url,
                                child: Some(composed),
                                failure: Some(e),
                            },
                            LaunchAction::Fail(again),
                        )
                    },
                }
            },
            (LaunchPhase::Launching, LaunchEvent::Done) => {
                (
                    Launcher {
                        build,
                        phase: LaunchPhase::Finished,
                        catalog,
                        manifest,
                        descriptor_url,
                        child,
                        failure,
                    },
                    LaunchAction::Finish,
                )
            },
            _ => {
                let e: LauncherError = LauncherError::Transport("unexpected answer".to_owned());
                let again: LauncherError = e.duplicate();
                (
                    Launcher {
                        build,
                        phase: LaunchPhase::Failed,
                        catalog,
                        manifest,
                        descriptor_url,
                        child,
                        failure: Some(e),
                    },
                    LaunchAction::Fail(again),
                )
            },
        }
    }

    /// Where the launch stands.
    pub fn phase(&self) -> (r: LaunchPhase)
        ensures
            r == self.state().phase,
    {
        self.phase
    }
}

/// Every state that a launch reaches fits: the first one does, and a step
/// from one that does leads to one that does.
pub proof fn lemma_launch_step_keeps_fit(build: Build, s: LaunchState, event: LaunchEvent)
    requires
        s.fits(),
    ensures
        spec_launch_start().0.fits(),
        spec_launch_step(build, s, event).0.fits(),
{
}

/// A root descriptor whose parent the catalog does not have ends the launch
/// with `InvalidDescriptor`.
pub proof fn lemma_unknown_parent_fails(build: Build, s: LaunchState, root: VersionDescriptor)
    requires
        s.phase is LoadingDescriptor,
        root.inherits_from matches Some(id) && spec_find_inherited_url(s.catalog, id@) is Err,
    ensures
        spec_launch_step(build, s, LaunchEvent::DescriptorLoaded(root)).0.phase is Failed,
        spec_launch_step(build, s, LaunchEvent::DescriptorLoaded(root)).1 matches LaunchActionView::Fail(
            LauncherErrorView::InvalidDescriptor(_),
        ),
{
}

/// Whatever descriptor the launcher hands out for the launch builds on
/// nothing: it came without a parent, or has been composed with it.
pub proof fn lemma_launched_descriptor_is_resolved(build: Build, s: LaunchState, event: LaunchEvent)
    ensures
        spec_launch_step(build, s, event).1 matches LaunchActionView::Launch { descriptor }
            ==> descriptor.inherits_from is None,
{
}

/// The sequence of a launch is fixed: a step leads to the phase that
/// follows, or to failure. The one phase that can be left out is the loading
/// of a parent, for a root that has none.
pub proof fn lemma_launch_order(build: Build, s: LaunchState, event: LaunchEvent)
    requires
        !(s.phase is Finished),
        !(s.phase is Failed),
    ensures
        ({
            let next = spec_launch_step(build, s, event).0.phase;
            ||| next is Failed
            ||| next.rank() == s.phase.rank() + 1
            ||| (s.phase is LoadingDescriptor && next is Launching)
        }),
{
}

} // verus!
