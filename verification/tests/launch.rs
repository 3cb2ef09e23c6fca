use prelauncher::error::LauncherError;
use prelauncher::launch::{LaunchAction, LaunchEvent, LaunchPhase, Launcher};
use prelauncher::manifest::{Build, LaunchManifest, Loader, LoaderSubsystem};
use prelauncher::progress::ProgressUpdate;
use prelauncher::version::{CatalogEntry, Field, FieldValue, VersionDescriptor};

fn build_of_launch() -> Build {
    Build {
        build_id: 42,
        mc_version: "1.19.2".to_string(),
        fabric_loader_version: "0.14.9".to_string(),
    }
}

fn fabric_manifest() -> LaunchManifest {
    LaunchManifest {
        mods: Vec::new(),
        repositories: Vec::new(),
        loader: Loader {
            subsystem: LoaderSubsystem::Fabric,
            launcher_manifest: "https://meta.example/{MINECRAFT_VERSION}/{FABRIC_LOADER_VERSION}.json"
                .to_string(),
        },
    }
}

fn known_versions() -> Vec<CatalogEntry> {
    vec![CatalogEntry {
        id: "1.19.2".to_string(),
        url: "https://versions.example/1.19.2.json".to_string(),
    }]
}

fn text_field(name: &str, value: &str) -> Field {
    Field { name: name.to_string(), value: FieldValue::Scalar(value.to_string()) }
}

fn root(inherits_from: Option<&str>) -> VersionDescriptor {
    VersionDescriptor {
        id: "fabric-loader-0.14.9-1.19.2".to_string(),
        inherits_from: inherits_from.map(|parent| parent.to_string()),
        fields: vec![text_field("mainClass", "Knot")],
    }
}

fn up_to_the_root_descriptor() -> Launcher {
    let (launcher, action) = Launcher::new(build_of_launch());
    assert_eq!(action, LaunchAction::FetchCatalog);
    assert_eq!(launcher.phase(), LaunchPhase::FetchingCatalog);

    let (launcher, action) = launcher.step(LaunchEvent::CatalogFetched(known_versions()));
    assert_eq!(action, LaunchAction::FetchManifest { build_id: 42 });

    let (launcher, action) = launcher.step(LaunchEvent::ManifestFetched(fabric_manifest()));
    assert_eq!(action, LaunchAction::Report(ProgressUpdate::SetMax(4096)));

    let (launcher, action) = launcher.step(LaunchEvent::Done);
    assert_eq!(action, LaunchAction::Report(ProgressUpdate::SetProgress(0)));

    let (launcher, action) = launcher.step(LaunchEvent::Done);
    assert_eq!(action, LaunchAction::RetrieveMods { manifest: fabric_manifest() });
    assert_eq!(launcher.phase(), LaunchPhase::RetrievingMods);

    let (launcher, action) = launcher.step(LaunchEvent::Done);
    assert_eq!(
        action,
        LaunchAction::LoadDescriptor { url: "https://meta.example/1.19.2/0.14.9.json".to_string() }
    );
    assert_eq!(launcher.phase(), LaunchPhase::LoadingDescriptor);
    launcher
}

#[test]
fn launch_of_a_descriptor_without_parent() {
    let launcher = up_to_the_root_descriptor();
    let (launcher, action) = launcher.step(LaunchEvent::DescriptorLoaded(root(None)));
    assert_eq!(action, LaunchAction::Launch { descriptor: root(None) });
    assert_eq!(launcher.phase(), LaunchPhase::Launching);
    let (launcher, action) = launcher.step(LaunchEvent::Done);
    assert_eq!(action, LaunchAction::Finish);
    assert_eq!(launcher.phase(), LaunchPhase::Finished);
    let (launcher, action) = launcher.step(LaunchEvent::Done);
    assert_eq!(action, LaunchAction::Finish);
    assert_eq!(launcher.phase(), LaunchPhase::Finished);
}

#[test]
fn launch_of_a_descriptor_with_parent() {
    let launcher = up_to_the_root_descriptor();
    let (launcher, action) = launcher.step(LaunchEvent::DescriptorLoaded(root(Some("1.19.2"))));
    assert_eq!(
        action,
        LaunchAction::LoadDescriptor { url: "https://versions.example/1.19.2.json".to_string() }
    );
    assert_eq!(launcher.phase(), LaunchPhase::LoadingParent);
    let parent = VersionDescriptor {
        id: "1.19.2".to_string(),
        inherits_from: None,
        fields: vec![text_field("mainClass", "Main"), text_field("assets", "1.19")],
    };
    let (launcher, action) = launcher.step(LaunchEvent::DescriptorLoaded(parent));
    assert_eq!(
        action,
        LaunchAction::Launch {
            descriptor: VersionDescriptor {
                id: "fabric-loader-0.14.9-1.19.2".to_string(),
                inherits_from: None,
                fields: vec![text_field("mainClass", "Knot"), text_field("assets", "1.19")],
            }
        }
    );
    assert_eq!(launcher.phase(), LaunchPhase::Launching);
}

#[test]
fn parent_that_the_catalog_lacks_fails_the_launch() {
    let launcher = up_to_the_root_descriptor();
    let (launcher, action) = launcher.step(LaunchEvent::DescriptorLoaded(root(Some("1.7.10"))));
    assert_eq!(
        action,
        LaunchAction::Fail(LauncherError::InvalidDescriptor(
            "unable to find inherited version profile 1.7.10".to_string()
        ))
    );
    assert_eq!(launcher.phase(), LaunchPhase::Failed);
}

#[test]
fn parent_with_a_parent_fails_the_launch() {
    let launcher = up_to_the_root_descriptor();
    let (launcher, _) = launcher.step(LaunchEvent::DescriptorLoaded(root(Some("1.19.2"))));
    let parent = VersionDescriptor {
        id: "1.19.2".to_string(),
        inherits_from: Some("1.19".to_string()),
        fields: Vec::new(),
    };
    let (launcher, action) = launcher.step(LaunchEvent::DescriptorLoaded(parent));
    assert_eq!(
        action,
        LaunchAction::Fail(LauncherError::InvalidDescriptor(
            "inherited version profile 1.19.2 inherits from another profile".to_string()
        ))
    );
    assert_eq!(launcher.phase(), LaunchPhase::Failed);
}

#[test]
fn failure_of_any_stage_ends_the_launch_unchanged() {
    let failure = LauncherError::Transport("connection reset".to_string());
    let (launcher, _) = Launcher::new(build_of_launch());
    let (launcher, action) = launcher.step(LaunchEvent::Failed(failure.clone()));
    assert_eq!(action, LaunchAction::Fail(failure.clone()));
    assert_eq!(launcher.phase(), LaunchPhase::Failed);
    let (_, action) = launcher.step(LaunchEvent::Done);
    assert_eq!(action, LaunchAction::Fail(failure));

    let launcher = up_to_the_root_descriptor();
    let archive = LauncherError::Archive("unreadable archive".to_string());
    let (launcher, action) = launcher.step(LaunchEvent::Failed(archive.clone()));
    assert_eq!(action, LaunchAction::Fail(archive));
    assert_eq!(launcher.phase(), LaunchPhase::Failed);
}

#[test]
fn answer_of_the_wrong_kind_fails_the_launch() {
    let (launcher, _) = Launcher::new(build_of_launch());
    let (launcher, action) = launcher.step(LaunchEvent::Done);
    assert_eq!(
        action,
        LaunchAction::Fail(LauncherError::Transport("unexpected answer".to_string()))
    );
    assert_eq!(launcher.phase(), LaunchPhase::Failed);
}

#[test]
fn forge_descriptor_url_is_the_manifest_text() {
    let (launcher, _) = Launcher::new(build_of_launch());
    let (launcher, _) = launcher.step(LaunchEvent::CatalogFetched(Vec::new()));
    let mut manifest = fabric_manifest();
    manifest.loader.subsystem = LoaderSubsystem::Forge;
    let (launcher, _) = launcher.step(LaunchEvent::ManifestFetched(manifest.clone()));
    let (launcher, _) = launcher.step(LaunchEvent::Done);
    let (launcher, action) = launcher.step(LaunchEvent::Done);
    assert_eq!(action, LaunchAction::RetrieveMods { manifest });
    let (_, action) = launcher.step(LaunchEvent::Done);
    assert_eq!(
        action,
        LaunchAction::LoadDescriptor {
            url: "https://meta.example/{MINECRAFT_VERSION}/{FABRIC_LOADER_VERSION}.json".to_string()
        }
    );
}

#[test]
fn failures_carry_their_text() {
    let failure = LauncherError::Filesystem("disk full".to_string());
    assert_eq!(failure.message(), "disk full");
    assert_eq!(failure.duplicate(), failure);
    assert_eq!(LauncherError::InvalidDescriptor("x".to_string()).message(), "x");
    assert_eq!(LauncherError::Transport("y".to_string()).message(), "y");
    assert_eq!(LauncherError::Archive("z".to_string()).message(), "z");
}
