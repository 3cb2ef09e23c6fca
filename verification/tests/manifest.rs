use prelauncher::error::LauncherError;
use prelauncher::manifest::{
    Build, LaunchManifest, Loader, LoaderSubsystem, ModEntry, ModSource, Repository,
};

fn manifest_with(repositories: Vec<Repository>) -> LaunchManifest {
    LaunchManifest {
        mods: Vec::new(),
        repositories,
        loader: Loader {
            subsystem: LoaderSubsystem::Forge,
            launcher_manifest: "https://example.org/forge.json".to_string(),
        },
    }
}

fn repository(name: &str, url: &str) -> Repository {
    Repository { name: name.to_string(), url: url.to_string() }
}

fn build() -> Build {
    Build {
        build_id: 7,
        mc_version: "1.19.2".to_string(),
        fabric_loader_version: "0.14.9".to_string(),
    }
}

#[test]
fn selection_is_required_or_default() {
    let source = ModSource::RepositoryArtifact {
        repository: "r".to_string(),
        artifact: "g:n:v".to_string(),
    };
    for (required, default, selected) in
        [(false, false, false), (true, false, true), (false, true, true), (true, true, true)]
    {
        let entry = ModEntry { name: "m".to_string(), required, default, source: source.clone() };
        assert_eq!(entry.is_selected(), selected);
    }
}

#[test]
fn file_name_and_label_of_a_mod() {
    let entry = ModEntry {
        name: "Sodium".to_string(),
        required: true,
        default: false,
        source: ModSource::RepositoryArtifact {
            repository: "r".to_string(),
            artifact: "g:n:v".to_string(),
        },
    };
    assert_eq!(entry.file_name(), "Sodium.jar");
    assert_eq!(entry.label(), "Downloading recommended mod Sodium");
}

#[test]
fn cache_path_of_a_direct_download() {
    let source = ModSource::DirectDownload {
        artifact_name: "optifine-1.19".to_string(),
        url: "https://example.org/dl".to_string(),
        extract: true,
    };
    assert_eq!(source.get_path(), Ok("optifine-1.19.jar".to_string()));
}

#[test]
fn cache_path_of_a_repository_artifact() {
    let source = ModSource::RepositoryArtifact {
        repository: "central".to_string(),
        artifact: "me.jellysquid.mods:sodium:0.4.4".to_string(),
    };
    assert_eq!(
        source.get_path(),
        Ok("me/jellysquid/mods/sodium/0.4.4/sodium-0.4.4.jar".to_string())
    );
    assert_eq!(source.get_path(), source.get_path());
}

#[test]
fn cache_path_of_a_bad_coordinate() {
    let source = ModSource::RepositoryArtifact {
        repository: "central".to_string(),
        artifact: "sodium".to_string(),
    };
    assert_eq!(
        source.get_path(),
        Err(LauncherError::InvalidDescriptor("invalid artifact name sodium".to_string()))
    );
}

#[test]
fn repository_lookup_takes_the_first_of_a_name() {
    let manifest = manifest_with(vec![
        repository("central", "https://one.example/"),
        repository("other", "https://two.example/"),
        repository("central", "https://three.example/"),
    ]);
    assert_eq!(manifest.repository_url("central"), Some(&"https://one.example/".to_string()));
    assert_eq!(manifest.repository_url("other"), Some(&"https://two.example/".to_string()));
    assert_eq!(manifest.repository_url("missing"), None);
    assert_eq!(manifest.repository_url(""), None);
}

#[test]
fn download_url_of_a_repository_artifact() {
    let manifest = manifest_with(vec![repository("central", "https://repo.example/maven/")]);
    let source = ModSource::RepositoryArtifact {
        repository: "central".to_string(),
        artifact: "com.example:lib:1.0".to_string(),
    };
    assert_eq!(
        manifest.download_url(&source),
        Ok("https://repo.example/maven/com/example/lib/1.0/lib-1.0.jar".to_string())
    );
}

#[test]
fn download_url_of_a_direct_download() {
    let manifest = manifest_with(Vec::new());
    let source = ModSource::DirectDownload {
        artifact_name: "a".to_string(),
        url: "https://example.org/a.zip".to_string(),
        extract: true,
    };
    assert_eq!(manifest.download_url(&source), Ok("https://example.org/a.zip".to_string()));
}

#[test]
fn download_url_of_an_unknown_repository() {
    let manifest = manifest_with(vec![repository("central", "https://repo.example/")]);
    let source = ModSource::RepositoryArtifact {
        repository: "elsewhere".to_string(),
        artifact: "com.example:lib:1.0".to_string(),
    };
    assert_eq!(
        manifest.download_url(&source),
        Err(LauncherError::InvalidDescriptor(
            "There is no repository specified with the name elsewhere".to_string()
        ))
    );
}

#[test]
fn download_url_names_the_repository_before_the_coordinate() {
    let manifest = manifest_with(Vec::new());
    let source = ModSource::RepositoryArtifact {
        repository: "elsewhere".to_string(),
        artifact: "bad".to_string(),
    };
    assert_eq!(
        manifest.download_url(&source),
        Err(LauncherError::InvalidDescriptor(
            "There is no repository specified with the name elsewhere".to_string()
        ))
    );
    let known = manifest_with(vec![repository("elsewhere", "https://repo.example/")]);
    assert_eq!(
        known.download_url(&source),
        Err(LauncherError::InvalidDescriptor("invalid artifact name bad".to_string()))
    );
}

#[test]
fn fabric_template_gets_both_versions() {
    let loader = Loader {
        subsystem: LoaderSubsystem::Fabric,
        launcher_manifest:
            "https://meta.example/v2/versions/loader/{MINECRAFT_VERSION}/{FABRIC_LOADER_VERSION}/profile/json"
                .to_string(),
    };
    assert_eq!(
        loader.manifest_url(&build()),
        "https://meta.example/v2/versions/loader/1.19.2/0.14.9/profile/json"
    );
}

#[test]
fn fabric_template_may_name_a_version_twice_or_never() {
    let twice = Loader {
        subsystem: LoaderSubsystem::Fabric,
        launcher_manifest: "{MINECRAFT_VERSION}-{MINECRAFT_VERSION}".to_string(),
    };
    assert_eq!(twice.manifest_url(&build()), "1.19.2-1.19.2");
    let never = Loader {
        subsystem: LoaderSubsystem::Fabric,
        launcher_manifest: "https://example.org/fixed.json".to_string(),
    };
    assert_eq!(never.manifest_url(&build()), "https://example.org/fixed.json");
}

#[test]
fn forge_url_is_taken_as_it_stands() {
    let loader = Loader {
        subsystem: LoaderSubsystem::Forge,
        launcher_manifest: "https://example.org/{MINECRAFT_VERSION}/forge.json".to_string(),
    };
    assert_eq!(loader.manifest_url(&build()), "https://example.org/{MINECRAFT_VERSION}/forge.json");
}
