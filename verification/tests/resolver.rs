use prelauncher::error::LauncherError;
use prelauncher::manifest::{
    LaunchManifest, Loader, LoaderSubsystem, ModEntry, ModSource, Repository,
};
use prelauncher::progress::ProgressUpdate;
use prelauncher::resolver::{Phase, Resolver, ResolverAction, ResolverEvent};
use std::collections::HashMap;
use std::io::{Cursor, Write};

struct Surroundings {
    cache: HashMap<String, Vec<u8>>,
    working: HashMap<String, Vec<u8>>,
    remote: HashMap<String, Vec<u8>>,
    downloads: Vec<String>,
    probes: Vec<String>,
    copies: Vec<String>,
    labels: Vec<String>,
    progress: Vec<u64>,
}

fn surroundings(remote: &[(&str, &[u8])]) -> Surroundings {
    Surroundings {
        cache: HashMap::new(),
        working: HashMap::new(),
        remote: remote.iter().map(|(url, bytes)| (url.to_string(), bytes.to_vec())).collect(),
        downloads: Vec::new(),
        probes: Vec::new(),
        copies: Vec::new(),
        labels: Vec::new(),
        progress: Vec::new(),
    }
}

fn retrieve(manifest: &LaunchManifest, world: &mut Surroundings) -> Result<(), LauncherError> {
    let (mut resolver, mut action) = Resolver::new(manifest);
    for _ in 0..(6 * manifest.mods.len() + 3) {
        let event = match action {
            ResolverAction::EnsureDirectories => ResolverEvent::Done,
            ResolverAction::ClearWorkingDirectory => {
                world.working.clear();
                ResolverEvent::Done
            }
            ResolverAction::Report(ProgressUpdate::SetLabel(label)) => {
                world.labels.push(label);
                ResolverEvent::Done
            }
            ResolverAction::Report(_) => ResolverEvent::Done,
            ResolverAction::ProbeCache { path } => {
                world.probes.push(path.clone());
                ResolverEvent::CacheProbed(world.cache.contains_key(&path))
            }
            ResolverAction::CreateParentDirectory { .. } => ResolverEvent::Done,
            ResolverAction::Download { url } => match world.remote.get(&url) {
                Some(bytes) => {
                    world.downloads.push(url);
                    let total = bytes.len() as u64;
                    for done in [0, total / 2, total] {
                        match resolver.download_progress(done, total) {
                            Some(ProgressUpdate::SetProgress(value)) => world.progress.push(value),
                            other => panic!("no progress value: {:?}", other),
                        }
                    }
                    ResolverEvent::Downloaded(bytes.clone())
                }
                None => ResolverEvent::Failed(LauncherError::Transport(format!("404 {}", url))),
            },
            ResolverAction::WriteCache { path, bytes } => {
                world.cache.insert(path, bytes);
                ResolverEvent::Done
            }
            ResolverAction::CopyToWorkingDirectory { path, file_name } => {
                match world.cache.get(&path) {
                    Some(bytes) => {
                        world.copies.push(file_name.clone());
                        world.working.insert(file_name, bytes.clone());
                        ResolverEvent::Done
                    }
                    None => ResolverEvent::Failed(LauncherError::Filesystem(path)),
                }
            }
            ResolverAction::Finish => {
                assert_eq!(resolver.phase(), Phase::Finished);
                assert!(resolver.is_done());
                return Ok(());
            }
            ResolverAction::Fail(e) => {
                assert_eq!(resolver.phase(), Phase::Failed);
                assert!(resolver.is_done());
                return Err(e);
            }
        };
        let next = resolver.step(event);
        resolver = next.0;
        action = next.1;
    }
    panic!("the run did not end");
}

fn manifest_of(mods: Vec<ModEntry>) -> LaunchManifest {
    LaunchManifest {
        mods,
        repositories: vec![Repository {
            name: "central".to_string(),
            url: "https://repo.example/".to_string(),
        }],
        loader: Loader {
            subsystem: LoaderSubsystem::Forge,
            launcher_manifest: "https://example.org/forge.json".to_string(),
        },
    }
}

fn artifact(name: &str, required: bool, default: bool, coordinate: &str) -> ModEntry {
    ModEntry {
        name: name.to_string(),
        required,
        default,
        source: ModSource::RepositoryArtifact {
            repository: "central".to_string(),
            artifact: coordinate.to_string(),
        },
    }
}

fn direct(name: &str, artifact_name: &str, url: &str, extract: bool) -> ModEntry {
    ModEntry {
        name: name.to_string(),
        required: true,
        default: false,
        source: ModSource::DirectDownload {
            artifact_name: artifact_name.to_string(),
            url: url.to_string(),
            extract,
        },
    }
}

fn archive_with(entries: &[(&str, &[u8])]) -> Vec<u8> {
    let mut writer = zip::ZipWriter::new(Cursor::new(Vec::new()));
    for (name, content) in entries.iter() {
        writer.start_file(*name, zip::write::SimpleFileOptions::default()).unwrap();
        writer.write_all(content).unwrap();
    }
    writer.finish().unwrap().into_inner()
}

const ALPHA_URL: &str = "https://repo.example/org/example/alpha/1.0/alpha-1.0.jar";
const BETA_URL: &str = "https://repo.example/org/example/beta/2.0/beta-2.0.jar";
const GAMMA_URL: &str = "https://repo.example/org/example/gamma/3.0/gamma-3.0.jar";

#[test]
fn one_required_and_one_unselected_mod() {
    let manifest = manifest_of(vec![
        artifact("alpha", true, false, "org.example:alpha:1.0"),
        artifact("beta", false, false, "org.example:beta:2.0"),
    ]);
    let mut world = surroundings(&[(ALPHA_URL, b"alpha bytes"), (BETA_URL, b"beta bytes")]);
    assert_eq!(retrieve(&manifest, &mut world), Ok(()));
    assert_eq!(world.working.len(), 1);
    assert_eq!(world.working.get("alpha.jar"), Some(&b"alpha bytes".to_vec()));
    assert_eq!(world.downloads, vec![ALPHA_URL.to_string()]);
    assert_eq!(
        world.cache.get("org/example/alpha/1.0/alpha-1.0.jar"),
        Some(&b"alpha bytes".to_vec())
    );
    assert_eq!(world.cache.len(), 1);
}

#[test]
fn unselected_mods_are_never_looked_up_or_copied() {
    let manifest = manifest_of(vec![
        artifact("first", false, false, "org.example:alpha:1.0"),
        artifact("second", false, true, "org.example:beta:2.0"),
        artifact("third", false, false, "not a coordinate"),
        artifact("fourth", true, true, "org.example:gamma:3.0"),
    ]);
    let mut world = surroundings(&[(BETA_URL, b"beta"), (GAMMA_URL, b"gamma")]);
    assert_eq!(retrieve(&manifest, &mut world), Ok(()));
    assert_eq!(
        world.probes,
        vec![
            "org/example/beta/2.0/beta-2.0.jar".to_string(),
            "org/example/gamma/3.0/gamma-3.0.jar".to_string()
        ]
    );
    assert_eq!(world.copies, vec!["second.jar".to_string(), "fourth.jar".to_string()]);
    assert_eq!(
        world.labels,
        vec![
            "Downloading recommended mod second".to_string(),
            "Downloading recommended mod fourth".to_string()
        ]
    );
    let mut files: Vec<&String> = world.working.keys().collect();
    files.sort();
    assert_eq!(files, vec!["fourth.jar", "second.jar"]);
}

#[test]
fn second_retrieval_downloads_nothing() {
    let manifest = manifest_of(vec![
        artifact("alpha", true, false, "org.example:alpha:1.0"),
        artifact("beta", false, true, "org.example:beta:2.0"),
        direct("packed", "packed-1", "https://example.org/packed.zip", true),
    ]);
    let archive = archive_with(&[("readme.txt", b"read me"), ("mod-1.0.jar", b"the jar")]);
    let mut world = surroundings(&[
        (ALPHA_URL, b"alpha bytes"),
        (BETA_URL, b"beta bytes"),
        ("https://example.org/packed.zip", &archive),
    ]);
    assert_eq!(retrieve(&manifest, &mut world), Ok(()));
    assert_eq!(world.downloads.len(), 3);
    let cache_after_first = world.cache.clone();
    let working_after_first = world.working.clone();
    assert_eq!(working_after_first.get("packed.jar"), Some(&b"the jar".to_vec()));
    assert_eq!(cache_after_first.get("packed-1.jar"), Some(&b"the jar".to_vec()));

    world.downloads.clear();
    world.remote.clear();
    assert_eq!(retrieve(&manifest, &mut world), Ok(()));
    assert!(world.downloads.is_empty());
    assert_eq!(world.cache, cache_after_first);
    assert_eq!(world.working, working_after_first);
}

#[test]
fn stale_files_leave_the_working_directory() {
    let manifest = manifest_of(vec![artifact("alpha", true, false, "org.example:alpha:1.0")]);
    let mut world = surroundings(&[(ALPHA_URL, b"alpha bytes")]);
    world.working.insert("old.jar".to_string(), b"old".to_vec());
    world.working.insert("alpha.jar".to_string(), b"older alpha".to_vec());
    assert_eq!(retrieve(&manifest, &mut world), Ok(()));
    assert_eq!(world.working.len(), 1);
    assert_eq!(world.working.get("alpha.jar"), Some(&b"alpha bytes".to_vec()));
}

#[test]
fn cached_entry_is_used_as_it_is() {
    let manifest = manifest_of(vec![artifact("alpha", true, false, "org.example:alpha:1.0")]);
    let mut world = surroundings(&[(ALPHA_URL, b"fresh bytes")]);
    world.cache.insert("org/example/alpha/1.0/alpha-1.0.jar".to_string(), b"cached".to_vec());
    assert_eq!(retrieve(&manifest, &mut world), Ok(()));
    assert!(world.downloads.is_empty());
    assert!(world.progress.is_empty());
    assert_eq!(world.working.get("alpha.jar"), Some(&b"cached".to_vec()));
}

#[test]
fn empty_manifest_finishes_after_clearing() {
    let manifest = manifest_of(Vec::new());
    let mut world = surroundings(&[]);
    world.working.insert("old.jar".to_string(), b"old".to_vec());
    assert_eq!(retrieve(&manifest, &mut world), Ok(()));
    assert!(world.working.is_empty());
    assert!(world.labels.is_empty());
}

#[test]
fn failure_leaves_earlier_mods_in_place() {
    let manifest = manifest_of(vec![
        artifact("alpha", true, false, "org.example:alpha:1.0"),
        artifact("beta", true, false, "org.example:beta:2.0"),
        artifact("gamma", true, false, "org.example:gamma:3.0"),
    ]);
    let mut world = surroundings(&[(ALPHA_URL, b"alpha bytes"), (GAMMA_URL, b"gamma bytes")]);
    assert_eq!(
        retrieve(&manifest, &mut world),
        Err(LauncherError::Transport(format!("404 {}", BETA_URL)))
    );
    assert_eq!(world.working.len(), 1);
    assert_eq!(world.working.get("alpha.jar"), Some(&b"alpha bytes".to_vec()));
    assert_eq!(world.downloads, vec![ALPHA_URL.to_string()]);
}

#[test]
fn unknown_repository_fails_the_retrieval() {
    let mut manifest = manifest_of(vec![artifact("alpha", true, false, "org.example:alpha:1.0")]);
    manifest.repositories.clear();
    let mut world = surroundings(&[(ALPHA_URL, b"alpha bytes")]);
    assert_eq!(
        retrieve(&manifest, &mut world),
        Err(LauncherError::InvalidDescriptor(
            "There is no repository specified with the name central".to_string()
        ))
    );
    assert!(world.working.is_empty());
    assert!(world.downloads.is_empty());
}

#[test]
fn bad_coordinate_fails_after_its_label() {
    let manifest = manifest_of(vec![artifact("alpha", true, false, "alpha")]);
    let mut world = surroundings(&[]);
    assert_eq!(
        retrieve(&manifest, &mut world),
        Err(LauncherError::InvalidDescriptor("invalid artifact name alpha".to_string()))
    );
    assert_eq!(world.labels, vec!["Downloading recommended mod alpha".to_string()]);
    assert!(world.probes.is_empty());
}

#[test]
fn archive_without_jar_fails_the_retrieval() {
    let manifest = manifest_of(vec![direct("packed", "packed-1", "https://example.org/p.zip", true)]);
    let archive = archive_with(&[("readme.txt", b"read me")]);
    let mut world = surroundings(&[("https://example.org/p.zip", &archive)]);
    assert_eq!(
        retrieve(&manifest, &mut world),
        Err(LauncherError::InvalidDescriptor("no JAR in archive".to_string()))
    );
    assert!(world.cache.is_empty());
    assert!(world.working.is_empty());
}

#[test]
fn download_that_is_no_archive_fails_the_retrieval() {
    let manifest = manifest_of(vec![direct("packed", "packed-1", "https://example.org/p.zip", true)]);
    let mut world = surroundings(&[("https://example.org/p.zip", b"<html>not found</html>")]);
    assert_eq!(
        retrieve(&manifest, &mut world),
        Err(LauncherError::Archive("unreadable archive".to_string()))
    );
    assert!(world.cache.is_empty());
}

#[test]
fn direct_download_without_extract_is_stored_raw() {
    let manifest = manifest_of(vec![direct("raw", "raw-1", "https://example.org/raw.jar", false)]);
    let archive = archive_with(&[("inner.jar", b"inner")]);
    let mut world = surroundings(&[("https://example.org/raw.jar", &archive)]);
    assert_eq!(retrieve(&manifest, &mut world), Ok(()));
    assert_eq!(world.cache.get("raw-1.jar"), Some(&archive));
    assert_eq!(world.working.get("raw.jar"), Some(&archive));
}

#[test]
fn progress_of_a_retrieval_never_goes_back() {
    let manifest = manifest_of(vec![
        artifact("alpha", true, false, "org.example:alpha:1.0"),
        artifact("beta", true, false, "org.example:beta:2.0"),
        artifact("gamma", true, false, "org.example:gamma:3.0"),
    ]);
    let big = vec![7u8; 100_000];
    let mut world = surroundings(&[(ALPHA_URL, b"a"), (BETA_URL, &big), (GAMMA_URL, b"gamma")]);
    assert_eq!(retrieve(&manifest, &mut world), Ok(()));
    assert_eq!(world.progress.len(), 9);
    for pair in world.progress.windows(2) {
        assert!(pair[0] <= pair[1]);
    }
    assert!(world.progress.iter().all(|value| *value <= 1024));
    assert_eq!(world.progress[5], 200 * 1024 / 300);
    assert_eq!(world.progress[8], 1024);
}

#[test]
fn no_progress_message_outside_a_download() {
    let manifest = manifest_of(vec![artifact("alpha", true, false, "org.example:alpha:1.0")]);
    let (resolver, action) = Resolver::new(&manifest);
    assert_eq!(action, ResolverAction::EnsureDirectories);
    assert_eq!(resolver.phase(), Phase::EnsuringDirectories);
    assert!(!resolver.is_done());
    assert_eq!(resolver.download_progress(1, 2), None);
}

#[test]
fn failed_action_ends_the_run_with_its_failure() {
    let manifest = manifest_of(vec![artifact("alpha", true, false, "org.example:alpha:1.0")]);
    let (resolver, _) = Resolver::new(&manifest);
    let failure = LauncherError::Filesystem("permission denied".to_string());
    let (resolver, action) = resolver.step(ResolverEvent::Failed(failure.clone()));
    assert_eq!(action, ResolverAction::Fail(failure.clone()));
    assert_eq!(resolver.phase(), Phase::Failed);
    let (resolver, action) = resolver.step(ResolverEvent::Done);
    assert_eq!(action, ResolverAction::Fail(failure));
    assert_eq!(resolver.phase(), Phase::Failed);
}

#[test]
fn answer_of_the_wrong_kind_ends_the_run() {
    let manifest = manifest_of(vec![artifact("alpha", true, false, "org.example:alpha:1.0")]);
    let (resolver, _) = Resolver::new(&manifest);
    let (resolver, action) = resolver.step(ResolverEvent::CacheProbed(true));
    assert_eq!(
        action,
        ResolverAction::Fail(LauncherError::Filesystem(
            "unexpected answer to a file operation".to_string()
        ))
    );
    assert!(resolver.is_done());

    let (resolver, _) = Resolver::new(&manifest);
    let (resolver, _) = resolver.step(ResolverEvent::Done);
    let (resolver, _) = resolver.step(ResolverEvent::Done);
    let (resolver, _) = resolver.step(ResolverEvent::Done);
    let (resolver, _) = resolver.step(ResolverEvent::CacheProbed(false));
    let (resolver, action) = resolver.step(ResolverEvent::Done);
    assert_eq!(action, ResolverAction::Download { url: ALPHA_URL.to_string() });
    assert_eq!(resolver.phase(), Phase::Downloading(0));
    let (_, action) = resolver.step(ResolverEvent::Done);
    assert_eq!(
        action,
        ResolverAction::Fail(LauncherError::Transport("unexpected answer to a download".to_string()))
    );
}

#[test]
fn finished_run_stays_finished() {
    let manifest = manifest_of(Vec::new());
    let (resolver, _) = Resolver::new(&manifest);
    let (resolver, _) = resolver.step(ResolverEvent::Done);
    let (resolver, action) = resolver.step(ResolverEvent::Done);
    assert_eq!(action, ResolverAction::Finish);
    let (resolver, action) = resolver.step(ResolverEvent::Downloaded(vec![1, 2, 3]));
    assert_eq!(action, ResolverAction::Finish);
    assert_eq!(resolver.phase(), Phase::Finished);
}

#[test]
fn steps_of_one_download() {
    let manifest = manifest_of(vec![artifact("alpha", true, false, "org.example:alpha:1.0")]);
    let path = "org/example/alpha/1.0/alpha-1.0.jar".to_string();
    let (resolver, action) = Resolver::new(&manifest);
    assert_eq!(action, ResolverAction::EnsureDirectories);
    let (resolver, action) = resolver.step(ResolverEvent::Done);
    assert_eq!(action, ResolverAction::ClearWorkingDirectory);
    let (resolver, action) = resolver.step(ResolverEvent::Done);
    assert_eq!(
        action,
        ResolverAction::Report(ProgressUpdate::SetLabel(
            "Downloading recommended mod alpha".to_string()
        ))
    );
    let (resolver, action) = resolver.step(ResolverEvent::Done);
    assert_eq!(action, ResolverAction::ProbeCache { path: path.clone() });
    let (resolver, action) = resolver.step(ResolverEvent::CacheProbed(false));
    assert_eq!(action, ResolverAction::CreateParentDirectory { path: path.clone() });
    let (resolver, action) = resolver.step(ResolverEvent::Done);
    assert_eq!(action, ResolverAction::Download { url: ALPHA_URL.to_string() });
    assert_eq!(resolver.download_progress(5, 10), Some(ProgressUpdate::SetProgress(512)));
    let (resolver, action) = resolver.step(ResolverEvent::Downloaded(b"bytes".to_vec()));
    assert_eq!(action, ResolverAction::WriteCache { path: path.clone(), bytes: b"bytes".to_vec() });
    let (resolver, action) = resolver.step(ResolverEvent::Done);
    assert_eq!(
        action,
        ResolverAction::CopyToWorkingDirectory { path, file_name: "alpha.jar".to_string() }
    );
    let (resolver, action) = resolver.step(ResolverEvent::Done);
    assert_eq!(action, ResolverAction::Finish);
    assert_eq!(resolver.phase(), Phase::Finished);
}
