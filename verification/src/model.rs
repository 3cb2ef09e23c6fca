//! What a run of the mod resolver does to its surroundings.
//!
//! The surroundings are modelled as plain maps: the cache and the working
//! directory map names to bytes, and the network maps URLs to bytes. A run
//! is the resolver's steps, each action performed on the model. The run is
//! then shown to do what the plain description says, mod by mod, and what
//! holds of every retrieval is proved of that description.

use vstd::prelude::*;
use crate::error::LauncherErrorView;
use crate::manifest::LaunchManifest;
use crate::resolver::{
    copy,
    fetch,
    lemma_next_selected,
    next_selected,
    prepare,
    probe,
    spec_start,
    spec_step,
    turn_to,
    Phase,
    ResolverActionView,
    ResolverEventView,
    ResolverState,
};

verus! {

/// The surroundings of a run.
pub struct World {
    /// The cache: the bytes stored under each relative path.
    pub cache: Map<Seq<char>, Seq<u8>>,
    /// The working directory: the bytes of each file.
    pub working: Map<Seq<char>, Seq<u8>>,
    /// How many downloads have been made.
    pub downloads: nat,
}

/// The text of the failure for a URL that the network does not serve.
pub open spec fn not_served_message() -> Seq<char> {
    "nothing is served at this URL"@
}

/// The text of the failure for a copy of a cache entry that is not there.
pub open spec fn no_entry_message() -> Seq<char> {
    "no such cache entry"@
}

/// The world with the cache entry at `path` copied to `file_name` in the
/// working directory.
pub open spec fn copied(w: World, path: Seq<char>, file_name: Seq<char>) -> World {
    World { working: w.working.insert(file_name, w.cache[path]), ..w }
}

/// What performing `action` answers and does to the world, on a network
/// that serves `remote`.
pub open spec fn perform(action: ResolverActionView, w: World, remote: Map<Seq<char>, Seq<u8>>) -> (
    ResolverEventView,
    World,
) {
    match action {
        ResolverActionView::ClearWorkingDirectory => (
            ResolverEventView::Done,
            World { working: Map::<Seq<char>, Seq<u8>>::empty(), ..w },
        ),
        ResolverActionView::ProbeCache { path } => (
            ResolverEventView::CacheProbed(w.cache.contains_key(path)),
            w,
        ),
        ResolverActionView::Download { url } => if remote.contains_key(url) {
            (
                ResolverEventView::Downloaded(remote[url]),
                World { downloads: w.downloads + 1, ..w },
            )
        } else {
            (ResolverEventView::Failed(LauncherErrorView::Transport(not_served_message())), w)
        },
        ResolverActionView::WriteCache { path, bytes } => (
            ResolverEventView::Done,
            World { cache: w.cache.insert(path, bytes), ..w },
        ),
        ResolverActionView::CopyToWorkingDirectory { path, file_name } => if w.cache.contains_key(
            path,
        ) {
            (ResolverEventView::Done, copied(w, path, file_name))
        } else {
            (ResolverEventView::Failed(LauncherErrorView::Filesystem(no_entry_message())), w)
        },
        _ => (ResolverEventView::Done, w),
    }
}

/// The state and the world after at most `fuel` actions of a run that is in
/// state `s` and has `action` to perform.
pub open spec fn run(
    m: LaunchManifest,
    s: ResolverState,
    action: ResolverActionView,
    w: World,
    remote: Map<Seq<char>, Seq<u8>>,
    fuel: nat,
) -> (ResolverState, World)
    decreases fuel,
{
    if fuel == 0 || s.phase.is_final() {
        (s, w)
    } else {
        let (event, after) = perform(action, w, remote);
        let (next, then) = spec_step(m, s, event);
        run(m, next, then, after, remote, (fuel - 1) as nat)
    }
}

/// What bringing mod `i` into the working directory does to the world, and
/// the failure if it fails: a cache entry that is there is copied; one that
/// is not is downloaded first, made into its final bytes and stored.
pub open spec fn materialize(m: LaunchManifest, i: int, w: World, remote: Map<Seq<char>, Seq<u8>>) -> (
    World,
    Option<LauncherErrorView>,
) {
    let entry = m.mods@[i];
    match entry.source.spec_get_path() {
        Err(e) => (w, Some(e)),
        Ok(path) => if w.cache.contains_key(path) {
            (copied(w, path, entry.spec_file_name()), None)
        } else {
            match m.spec_download_url(entry.source) {
                Err(e) => (w, Some(e)),
                Ok(url) => if !remote.contains_key(url) {
                    (w, Some(LauncherErrorView::Transport(not_served_message())))
                } else {
                    let fetched = World { downloads: w.downloads + 1, ..w };
                    match entry.source.spec_final_bytes(remote[url]) {
                        Err(e) => (fetched, Some(e)),
                        Ok(bytes) => (
                            copied(
                                World { cache: fetched.cache.insert(path, bytes), ..fetched },
                                path,
                                entry.spec_file_name(),
                            ),
                            None,
                        ),
                    }
                },
            }
        },
    }
}

/// What bringing the selected mods from position `from` on does, one after
/// the other, up to the first failure.
pub open spec fn materialize_from(
    m: LaunchManifest,
    from: int,
    w: World,
    remote: Map<Seq<char>, Seq<u8>>,
) -> (World, Option<LauncherErrorView>)
    decreases m.mods@.len() - from,
{
    if from < 0 || from >= m.mods@.len() {
        (w, None)
    } else if !m.mods@[from].spec_is_selected() {
        materialize_from(m, from + 1, w, remote)
    } else {
        let (after, failure) = materialize(m, from, w, remote);
        if failure is Some {
            (after, failure)
        } else {
            materialize_from(m, from + 1, after, remote)
        }
    }
}

/// What a retrieval does: the working directory is cleared, then the
/// selected mods are brought in.
pub open spec fn retrieve(m: LaunchManifest, w: World, remote: Map<Seq<char>, Seq<u8>>) -> (
    World,
    Option<LauncherErrorView>,
) {
    materialize_from(m, 0, World { working: Map::<Seq<char>, Seq<u8>>::empty(), ..w }, remote)
}

/// The state in which a run ends that has failed with `failure`, or has not
/// failed.
pub open spec fn final_state(failure: Option<LauncherErrorView>) -> ResolverState {
    ResolverState {
        phase: if failure is Some {
            Phase::Failed
        } else {
            Phase::Finished
        },
        failure,
    }
}

/// The number of actions within which every run over `m` ends.
pub open spec fn enough_steps(m: LaunchManifest) -> nat {
    6 * m.mods@.len() + 3
}

/// Mods that are not selected are passed over.
pub proof fn lemma_pass_over(
    m: LaunchManifest,
    from: int,
    to: int,
    w: World,
    remote: Map<Seq<char>, Seq<u8>>,
)
    requires
        0 <= from <= to <= m.mods@.len(),
        forall|j: int| from <= j < to ==> !(#[trigger] m.mods@[j]).spec_is_selected(),
    ensures
        materialize_from(m, from, w, remote) == materialize_from(m, to, w, remote),
    decreases to - from,
{
    if from < to {
        assert(!m.mods@[from].spec_is_selected());
        lemma_pass_over(m, from + 1, to, w, remote);
    }
}

/// A run that turns to the mods from position `from` on ends as bringing
/// them in one after the other ends.
pub proof fn lemma_run_materializes(
    m: LaunchManifest,
    from: int,
    w: World,
    remote: Map<Seq<char>, Seq<u8>>,
    fuel: nat,
)
    requires
        0 <= from <= m.mods@.len(),
        fuel >= 6 * (m.mods@.len() - from) + 1,
    ensures
        run(m, turn_to(m, from).0, turn_to(m, from).1, w, remote, fuel) == (
            final_state(materialize_from(m, from, w, remote).1),
            materialize_from(m, from, w, remote).0,
        ),
    decreases m.mods@.len() - from,
{
    assert(m.mods.len() == m.mods@.len());
    lemma_next_selected(m.mods@, from);
    let (s0, a0) = turn_to(m, from);
    match next_selected(m.mods@, from) {
        None => {
            lemma_pass_over(m, from, m.mods@.len() as int, w, remote);
        },
        Some(i) => {
            lemma_pass_over(m, from, i, w, remote);
            let idx = i as usize;
            let entry = m.mods@[i];
            let (goal_world, goal_failure) = materialize_from(m, i, w, remote);
            let (done_world, done_failure) = materialize(m, i, w, remote);
            // The label is shown, then the cache is asked.
            let (s1, a1) = probe(m, idx);
            assert(run(m, s0, a0, w, remote, fuel) == run(m, s1, a1, w, remote, (fuel - 1) as nat));
            match entry.source.spec_get_path() {
                Err(e) => {},
                Ok(path) => {
                    if w.cache.contains_key(path) {
                        let (s2, a2) = copy(m, idx);
                        assert(run(m, s1, a1, w, remote, (fuel - 1) as nat) == run(
                            m,
                            s2,
                            a2,
                            w,
                            remote,
                            (fuel - 2) as nat,
                        ));
                        let (s3, a3) = turn_to(m, i + 1);
                        assert(run(m, s2, a2, w, remote, (fuel - 2) as nat) == run(
                            m,
                            s3,
                            a3,
                            done_world,
                            remote,
                            (fuel - 3) as nat,
                        ));
                        lemma_run_materializes(m, i + 1, done_world, remote, (fuel - 3) as nat);
                    } else {
                        let (s2, a2) = prepare(m, idx);
                        assert(run(m, s1, a1, w, remote, (fuel - 1) as nat) == run(
                            m,
                            s2,
                            a2,
                            w,
                            remote,
                            (fuel - 2) as nat,
                        ));
                        let (s3, a3) = fetch(m, idx);
                        assert(run(m, s2, a2, w, remote, (fuel - 2) as nat) == run(
                            m,
                            s3,
                            a3,
                            w,
                            remote,
                            (fuel - 3) as nat,
                        ));
                        match m.spec_download_url(entry.source) {
                            Err(e) => {},
                            Ok(url) => {
                                let (event, fetched) = perform(a3, w, remote);
                                let (s4, a4) = spec_step(m, s3, event);
                                assert(run(m, s3, a3, w, remote, (fuel - 3) as nat) == run(
                                    m,
                                    s4,
                                    a4,
                                    fetched,
                                    remote,
                                    (fuel - 4) as nat,
                                ));
                                if remote.contains_key(url) {
                                    match entry.source.spec_final_bytes(remote[url]) {
                                        Err(e) => {},
                                        Ok(bytes) => {
                                            let stored = World {
                                                cache: fetched.cache.insert(path, bytes),
                                                ..fetched
                                            };
                                            let (s5, a5) = copy(m, idx);
                                            assert(run(
                                                m,
                                                s4,
                                                a4,
                                                fetched,
                                                remote,
                                                (fuel - 4) as nat,
                                            ) == run(m, s5, a5, stored, remote, (fuel - 5) as nat));
                                            let (s6, a6) = turn_to(m, i + 1);
                                            assert(run(
                                                m,
                                                s5,
                                                a5,
                                                stored,
                                                remote,
                                                (fuel - 5) as nat,
                                            ) == run(
                                                m,
                                                s6,
                                                a6,
                                                done_world,
                                                remote,
                                                (fuel - 6) as nat,
                                            ));
                                            lemma_run_materializes(
                                                m,
                                                i + 1,
                                                done_world,
                                                remote,
                                                (fuel - 6) as nat,
                                            );
                                        },
                                    }
                                }
                            },
                        }
                    }
                },
            }
        },
    }
}

/// A run of the resolver does what a retrieval is said to do: it ends
/// within `enough_steps`, finished or failed, with the world that
/// `retrieve` describes.
pub proof fn lemma_run_retrieves(
    m: LaunchManifest,
    w: World,
    remote: Map<Seq<char>, Seq<u8>>,
    fuel: nat,
)
    requires
        fuel >= enough_steps(m),
    ensures
        run(m, spec_start().0, spec_start().1, w, remote, fuel) == (
            final_state(retrieve(m, w, remote).1),
            retrieve(m, w, remote).0,
        ),
{
    let (s0, a0) = spec_start();
    let (s1, a1) = spec_step(m, s0, ResolverEventView::Done);
    assert(run(m, s0, a0, w, remote, fuel) == run(m, s1, a1, w, remote, (fuel - 1) as nat));
    let cleared = World { working: Map::<Seq<char>, Seq<u8>>::empty(), ..w };
    let (s2, a2) = turn_to(m, 0);
    assert(run(m, s1, a1, w, remote, (fuel - 1) as nat) == run(
        m,
        s2,
        a2,
        cleared,
        remote,
        (fuel - 2) as nat,
    ));
    lemma_run_materializes(m, 0, cleared, remote, (fuel - 2) as nat);
}

/// Everything in `a` is in `b`, with the same bytes.
pub open spec fn kept(a: Map<Seq<char>, Seq<u8>>, b: Map<Seq<char>, Seq<u8>>) -> bool {
    forall|k: Seq<char>| #[trigger] a.contains_key(k) ==> b.contains_key(k) && b[k] == a[k]
}

/// Mod `k` is selected, stands at or behind `from`, and its file in the
/// working directory is called `name`.
pub open spec fn is_file_of(m: LaunchManifest, from: int, k: int, name: Seq<char>) -> bool {
    &&& from <= k < m.mods@.len()
    &&& m.mods@[k].spec_is_selected()
    &&& m.mods@[k].spec_file_name() == name
}

/// Bringing one mod in never changes or removes a cache entry. Where it
/// succeeds, the mod's entry is in the cache and has been copied to the
/// mod's file; where the entry was there before, nothing else has changed.
pub proof fn lemma_materialize(m: LaunchManifest, i: int, w: World, remote: Map<Seq<char>, Seq<u8>>)
    ensures
        kept(w.cache, materialize(m, i, w, remote).0.cache),
        materialize(m, i, w, remote).1 is None ==> {
            let after = materialize(m, i, w, remote).0;
            let entry = m.mods@[i];
            &&& entry.source.spec_get_path() matches Ok(path)
            &&& after.cache.contains_key(path)
            &&& after.working == w.working.insert(entry.spec_file_name(), after.cache[path])
            &&& w.cache.contains_key(path) ==> after.cache == w.cache && after.downloads
                == w.downloads
        },
{
}

/// A retrieval never changes or removes a cache entry.
pub proof fn lemma_cache_only_grows(
    m: LaunchManifest,
    from: int,
    w: World,
    remote: Map<Seq<char>, Seq<u8>>,
)
    ensures
        kept(w.cache, materialize_from(m, from, w, remote).0.cache),
    decreases m.mods@.len() - from,
{
    if from < 0 || from >= m.mods@.len() {
    } else if !m.mods@[from].spec_is_selected() {
        lemma_cache_only_grows(m, from + 1, w, remote);
    } else {
        lemma_materialize(m, from, w, remote);
        let (after, failure) = materialize(m, from, w, remote);
        if failure is None {
            lemma_cache_only_grows(m, from + 1, after, remote);
        }
    }
}

/// Selection: after a retrieval that succeeded, the working directory
/// holds a file exactly where it held one before or where the file is that
/// of a selected mod.
pub proof fn lemma_working_directory_from(
    m: LaunchManifest,
    from: int,
    w: World,
    remote: Map<Seq<char>, Seq<u8>>,
    name: Seq<char>,
)
    requires
        0 <= from,
        materialize_from(m, from, w, remote).1 is None,
    ensures
        materialize_from(m, from, w, remote).0.working.contains_key(name) <==> (
        w.working.contains_key(name) || exists|k: int| #[trigger] is_file_of(m, from, k, name)),
    decreases m.mods@.len() - from,
{
    let next = from + 1;
    if from >= m.mods@.len() {
    } else if !m.mods@[from].spec_is_selected() {
        lemma_working_directory_from(m, from + 1, w, remote, name);
        if exists|k: int| #[trigger] is_file_of(m, next, k, name) {
            let k = choose|k: int| #[trigger] is_file_of(m, next, k, name);
            assert(is_file_of(m, from, k, name));
        }
        if exists|k: int| #[trigger] is_file_of(m, from, k, name) {
            let k = choose|k: int| #[trigger] is_file_of(m, from, k, name);
            assert(is_file_of(m, next, k, name));
        }
    } else {
        lemma_materialize(m, from, w, remote);
        let after = materialize(m, from, w, remote).0;
        lemma_working_directory_from(m, from + 1, after, remote, name);
        if exists|k: int| #[trigger] is_file_of(m, next, k, name) {
            let k = choose|k: int| #[trigger] is_file_of(m, next, k, name);
            assert(is_file_of(m, from, k, name));
        }
        if m.mods@[from].spec_file_name() == name {
            assert(is_file_of(m, from, from, name));
        }
        if exists|k: int| #[trigger] is_file_of(m, from, k, name) {
            let k = choose|k: int| #[trigger] is_file_of(m, from, k, name);
            if k != from {
                assert(is_file_of(m, next, k, name));
            }
        }
    }
}

/// Selection: after a retrieval that succeeded, a file is in the working
/// directory if and only if it is the file of a mod that is required or on
/// by default.
pub proof fn lemma_working_directory_is_selection(
    m: LaunchManifest,
    w: World,
    remote: Map<Seq<char>, Seq<u8>>,
    name: Seq<char>,
)
    requires
        retrieve(m, w, remote).1 is None,
    ensures
        retrieve(m, w, remote).0.working.contains_key(name) <==> exists|k: int| #[trigger]
            is_file_of(m, 0, k, name),
{
    let cleared = World { working: Map::<Seq<char>, Seq<u8>>::empty(), ..w };
    lemma_working_directory_from(m, 0, cleared, remote, name);
}

/// Selection, of runs: where a run of the resolver has finished, a file is
/// in the working directory if and only if it is the file of a mod that is
/// required or on by default.
pub proof fn lemma_run_fills_working_directory(
    m: LaunchManifest,
    w: World,
    remote: Map<Seq<char>, Seq<u8>>,
    fuel: nat,
    name: Seq<char>,
)
    requires
        fuel >= enough_steps(m),
        run(m, spec_start().0, spec_start().1, w, remote, fuel).0.phase is Finished,
    ensures
        run(m, spec_start().0, spec_start().1, w, remote, fuel).1.working.contains_key(name)
            <==> exists|k: int| #[trigger] is_file_of(m, 0, k, name),
{
    lemma_run_retrieves(m, w, remote, fuel);
    lemma_working_directory_is_selection(m, w, remote, name);
}

/// After a retrieval that succeeded, the file of a selected mod holds the
/// bytes of the mod's cache entry, unless a later selected mod has a file
/// of the same name.
pub proof fn lemma_working_file_is_cache_entry(
    m: LaunchManifest,
    from: int,
    w: World,
    remote: Map<Seq<char>, Seq<u8>>,
    k: int,
)
    requires
        0 <= from <= k < m.mods@.len(),
        m.mods@[k].spec_is_selected(),
        forall|j: int| k < j < m.mods@.len() ==> !(#[trigger] is_file_of(m, 0, j, m.mods@[k].spec_file_name())),
        materialize_from(m, from, w, remote).1 is None,
    ensures
        m.mods@[k].source.spec_get_path() matches Ok(path) && {
            let after = materialize_from(m, from, w, remote).0;
            &&& after.cache.contains_key(path)
            &&& after.working.contains_key(m.mods@[k].spec_file_name())
            &&& after.working[m.mods@[k].spec_file_name()] == after.cache[path]
        },
    decreases m.mods@.len() - from,
{
    let name = m.mods@[k].spec_file_name();
    if from < k {
        if !m.mods@[from].spec_is_selected() {
            lemma_working_file_is_cache_entry(m, from + 1, w, remote, k);
        } else {
            let after = materialize(m, from, w, remote).0;
            lemma_working_file_is_cache_entry(m, from + 1, after, remote, k);
        }
    } else {
        lemma_materialize(m, k, w, remote);
        let after = materialize(m, k, w, remote).0;
        let path = m.mods@[k].source.spec_get_path()->Ok_0;
        lemma_cache_only_grows(m, k + 1, after, remote);
        lemma_later_files_leave(m, k + 1, after, remote, name);
        assert(after.cache.contains_key(path));
        assert(after.working.contains_key(name));
    }
}

/// A file that is not that of a selected mod at or behind `from` is left
/// as it is.
pub proof fn lemma_later_files_leave(
    m: LaunchManifest,
    from: int,
    w: World,
    remote: Map<Seq<char>, Seq<u8>>,
    name: Seq<char>,
)
    requires
        0 <= from,
        forall|j: int| from <= j < m.mods@.len() ==> !(#[trigger] is_file_of(m, 0, j, name)),
        w.working.contains_key(name),
    ensures
        materialize_from(m, from, w, remote).0.working.contains_key(name),
        materialize_from(m, from, w, remote).0.working[name] == w.working[name],
    decreases m.mods@.len() - from,
{
    if from >= m.mods@.len() {
    } else if !m.mods@[from].spec_is_selected() {
        lemma_later_files_leave(m, from + 1, w, remote, name);
    } else {
        assert(!is_file_of(m, 0, from, name));
        let (after, failure) = materialize(m, from, w, remote);
        assert(after.working.contains_key(name) && after.working[name] == w.working[name]);
        if failure is None {
            lemma_later_files_leave(m, from + 1, after, remote, name);
        }
    }
}

/// Mod `k` is selected, stands at or behind `from`, and its cache entry is
/// at `path`.
pub open spec fn is_entry_of(m: LaunchManifest, from: int, k: int, path: Seq<char>) -> bool {
    &&& from <= k < m.mods@.len()
    &&& m.mods@[k].spec_is_selected()
    &&& m.mods@[k].source.spec_get_path() == Ok::<Seq<char>, LauncherErrorView>(path)
}

/// A cache path that is not that of a selected mod at or behind `from`, up
/// to position `to`, is as absent behind those mods as it was before them.
pub proof fn lemma_other_entries_stay_absent(
    m: LaunchManifest,
    from: int,
    to: int,
    w: World,
    remote: Map<Seq<char>, Seq<u8>>,
    path: Seq<char>,
)
    requires
        0 <= from <= to <= m.mods@.len(),
        forall|j: int| from <= j < to ==> !(#[trigger] is_entry_of(m, 0, j, path)),
        !w.cache.contains_key(path),
        materialize_from(m, from, w, remote).1 is None,
    ensures
        exists|before: World|
            {
                &&& !before.cache.contains_key(path)
                &&& #[trigger] materialize_from(m, to, before, remote) == materialize_from(
                    m,
                    from,
                    w,
                    remote,
                )
            },
    decreases to - from,
{
    if from == to {
        assert(materialize_from(m, to, w, remote) == materialize_from(m, from, w, remote));
    } else if !m.mods@[from].spec_is_selected() {
        lemma_other_entries_stay_absent(m, from + 1, to, w, remote, path);
    } else {
        assert(!is_entry_of(m, 0, from, path));
        lemma_materialize(m, from, w, remote);
        let after = materialize(m, from, w, remote).0;
        assert(!after.cache.contains_key(path));
        lemma_other_entries_stay_absent(m, from + 1, to, after, remote, path);
    }
}

/// After a retrieval that succeeded, the cache entry of a selected mod
/// holds what the network serves at the mod's URL, made into its final
/// bytes, if the cache had no entry at its path before and no selected mod
/// before it has the same path.
pub proof fn lemma_fresh_entry_comes_from_the_network(
    m: LaunchManifest,
    w: World,
    remote: Map<Seq<char>, Seq<u8>>,
    k: int,
)
    requires
        0 <= k < m.mods@.len(),
        m.mods@[k].spec_is_selected(),
        m.mods@[k].source.spec_get_path() matches Ok(path) && !w.cache.contains_key(path)
            && forall|j: int| 0 <= j < k ==> !(#[trigger] is_entry_of(m, 0, j, path)),
        retrieve(m, w, remote).1 is None,
    ensures
        ({
            let path = m.mods@[k].source.spec_get_path()->Ok_0;
            let after = retrieve(m, w, remote).0;
            &&& m.spec_download_url(m.mods@[k].source) matches Ok(url)
            &&& remote.contains_key(url)
            &&& m.mods@[k].source.spec_final_bytes(remote[url]) matches Ok(bytes)
            &&& after.cache.contains_key(path)
            &&& after.cache[path] == bytes
        }),
{
    let path = m.mods@[k].source.spec_get_path()->Ok_0;
    let cleared = World { working: Map::<Seq<char>, Seq<u8>>::empty(), ..w };
    lemma_other_entries_stay_absent(m, 0, k, cleared, remote, path);
    let before = choose|before: World|
        {
            &&& !before.cache.contains_key(path)
            &&& #[trigger] materialize_from(m, k, before, remote) == materialize_from(
                m,
                0,
                cleared,
                remote,
            )
        };
    lemma_materialize(m, k, before, remote);
    let stored = materialize(m, k, before, remote).0;
    lemma_cache_only_grows(m, k + 1, stored, remote);
    assert(stored.cache.contains_key(path));
}

/// A second pass over the mods, on the cache that the first pass has left,
/// downloads nothing, leaves the cache as it is and fills the working
/// directory as the first pass did.
pub proof fn lemma_second_pass(
    m: LaunchManifest,
    from: int,
    first: World,
    second: World,
    remote: Map<Seq<char>, Seq<u8>>,
)
    requires
        0 <= from,
        materialize_from(m, from, first, remote).1 is None,
        second.cache == materialize_from(m, from, first, remote).0.cache,
        second.working == first.working,
    ensures
        materialize_from(m, from, second, remote) == (
            World {
                cache: second.cache,
                working: materialize_from(m, from, first, remote).0.working,
                downloads: second.downloads,
            },
            None::<LauncherErrorView>,
        ),
    decreases m.mods@.len() - from,
{
    if from >= m.mods@.len() {
    } else if !m.mods@[from].spec_is_selected() {
        lemma_second_pass(m, from + 1, first, second, remote);
    } else {
        lemma_materialize(m, from, first, remote);
        let after = materialize(m, from, first, remote).0;
        lemma_cache_only_grows(m, from + 1, after, remote);
        let path = m.mods@[from].source.spec_get_path()->Ok_0;
        assert(after.cache.contains_key(path));
        assert(second.cache.contains_key(path) && second.cache[path] == after.cache[path]);
        lemma_materialize(m, from, second, remote);
        let again = materialize(m, from, second, remote).0;
        assert(again.working == after.working);
        lemma_second_pass(m, from + 1, after, again, remote);
    }
}

/// Idempotence: a retrieval on the world that a successful retrieval has
/// left succeeds, downloads nothing and leaves cache and working directory
/// byte for byte as they are.
pub proof fn lemma_retrieval_is_idempotent(
    m: LaunchManifest,
    w: World,
    remote: Map<Seq<char>, Seq<u8>>,
)
    requires
        retrieve(m, w, remote).1 is None,
    ensures
        retrieve(m, retrieve(m, w, remote).0, remote) == (
            retrieve(m, w, remote).0,
            None::<LauncherErrorView>,
        ),
{
    let left = retrieve(m, w, remote).0;
    let first = World { working: Map::<Seq<char>, Seq<u8>>::empty(), ..w };
    let second = World { working: Map::<Seq<char>, Seq<u8>>::empty(), ..left };
    lemma_second_pass(m, 0, first, second, remote);
}

/// Idempotence of runs: where a run of the resolver has finished, a second
/// run on what it left finishes too, makes no download and leaves cache and
/// working directory byte for byte as they are.
pub proof fn lemma_second_run_changes_nothing(
    m: LaunchManifest,
    w: World,
    remote: Map<Seq<char>, Seq<u8>>,
    fuel: nat,
)
    requires
        fuel >= enough_steps(m),
        run(m, spec_start().0, spec_start().1, w, remote, fuel).0.phase is Finished,
    ensures
        ({
            let left = run(m, spec_start().0, spec_start().1, w, remote, fuel).1;
            let again = run(m, spec_start().0, spec_start().1, left, remote, fuel);
            again.0.phase is Finished && again.1 == left
        }),
{
    lemma_run_retrieves(m, w, remote, fuel);
    lemma_retrieval_is_idempotent(m, w, remote);
    lemma_run_retrieves(m, retrieve(m, w, remote).0, remote, fuel);
}

} // verus!
