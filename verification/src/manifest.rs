//! The launch manifest: which mods a build has and where they come from.

use vstd::prelude::*;
use vstd::string::*;
use crate::archive::{extract_jar, spec_extract_jar};
use crate::error::{bytes_outcome, text_outcome, LauncherError, LauncherErrorView};
use crate::maven::{
    get_maven_artifact_path,
    invalid_artifact_message,
    lemma_maven_path_injective,
    spec_maven_path,
};
use crate::search::first_index;
use crate::text::{replace_all, same_text, spec_replace};

verus! {

/// Where the bytes of a mod come from.
#[derive(Debug, Clone, PartialEq, Eq)]
pub enum ModSource {
    /// Bytes behind a URL. With `extract` they are a zip archive, and the
    /// mod is the first entry of it whose name ends in `.jar`.
    DirectDownload { artifact_name: String, url: String, extract: bool },
    /// A Maven coordinate in one of the manifest's repositories.
    RepositoryArtifact { repository: String, artifact: String },
}

/// One mod of a build.
#[derive(Debug, Clone, PartialEq, Eq)]
pub struct ModEntry {
    /// The name shown to the user and given to the file.
    pub name: String,
    /// The build does not run without it.
    pub required: bool,
    /// It is installed unless the user says otherwise.
    pub default: bool,
    pub source: ModSource,
}

/// A repository: its name in the manifest and the URL that its paths follow.
#[derive(Debug, Clone, PartialEq, Eq)]
pub struct Repository {
    pub name: String,
    pub url: String,
}

/// The modding framework of a build.
#[derive(Debug, Clone, Copy, PartialEq, Eq, Structural)]
pub enum LoaderSubsystem {
    Fabric,
    Forge,
}

/// The loader of a build. For Fabric `launcher_manifest` is a template with
/// placeholders, for Forge it is the URL itself.
#[derive(Debug, Clone, PartialEq, Eq)]
pub struct Loader {
    pub subsystem: LoaderSubsystem,
    pub launcher_manifest: String,
}

/// The versions that identify a build.
#[derive(Debug, Clone, PartialEq, Eq)]
pub struct Build {
    pub build_id: u32,
    pub mc_version: String,
    pub fabric_loader_version: String,
}

/// What a build needs. Where a repository's name occurs twice, the first
/// entry counts.
#[derive(Debug, Clone, PartialEq, Eq)]
pub struct LaunchManifest {
    pub mods: Vec<ModEntry>,
    pub repositories: Vec<Repository>,
    pub loader: Loader,
}

/// The ending that every stored mod gets.
pub open spec fn jar_ending() -> Seq<char> {
    ".jar"@
}

/// The URL of the repository called `name`: that of the first entry with
/// that name.
pub open spec fn spec_repository_url(repositories: Seq<Repository>, name: Seq<char>) -> Option<
    Seq<char>,
> {
    match first_index(|i: int| repositories[i].name@ == name, 0, repositories.len() as int) {
        Some(i) => Some(repositories[i].url@),
        None => None,
    }
}

/// The text of the failure for a repository that the manifest does not have.
pub open spec fn unknown_repository_message(name: Seq<char>) -> Seq<char> {
    "There is no repository specified with the name "@ + name
}

/// What stands in a Fabric template in place of the game's version.
pub open spec fn game_version_placeholder() -> Seq<char> {
    "{MINECRAFT_VERSION}"@
}

/// What stands in a Fabric template in place of the loader's version.
pub open spec fn loader_version_placeholder() -> Seq<char> {
    "{FABRIC_LOADER_VERSION}"@
}

impl Loader {
    /// The URL of the root version descriptor of `build`. For Fabric the
    /// game's version is put into the template first and the loader's
    /// version second; for Forge the text is the URL as it stands.
    pub open spec fn spec_manifest_url(self, build: Build) -> Seq<char> {
        match self.subsystem {
            LoaderSubsystem::Fabric => spec_replace(
                spec_replace(
                    self.launcher_manifest@,
                    game_version_placeholder(),
                    build.mc_version@,
                ),
                loader_version_placeholder(),
                build.fabric_loader_version@,
            ),
            LoaderSubsystem::Forge => self.launcher_manifest@,
        }
    }

    /// The URL of the root version descriptor of `build`.
    pub fn manifest_url(&self, build: &Build) -> (r: String)
        ensures
            r@ == self.spec_manifest_url(*build),
    {
        match self.subsystem {
            LoaderSubsystem::Fabric => {
                let with_game: String = replace_all(
                    self.launcher_manifest.as_str(),
                    "{MINECRAFT_VERSION}",
                    build.mc_version.as_str(),
                );
                replace_all(
                    with_game.as_str(),
                    "{FABRIC_LOADER_VERSION}",
                    build.fabric_loader_version.as_str(),
                )
            },
            LoaderSubsystem::Forge => self.launcher_manifest.clone(),
        }
    }
}

impl ModSource {
    /// The place of the mod in the cache, relative to the cache's directory:
    /// the artifact name with `.jar` for a direct download, the Maven path
    /// for a coordinate.
    pub open spec fn spec_get_path(self) -> Result<Seq<char>, LauncherErrorView> {
        match self {
            ModSource::DirectDownload { artifact_name, .. } => Ok(artifact_name@ + jar_ending()),
            ModSource::RepositoryArtifact { artifact, .. } => match spec_maven_path(artifact@) {
                Some(path) => Ok(path),
                None => Err(
                    LauncherErrorView::InvalidDescriptor(invalid_artifact_message(artifact@)),
                ),
            },
        }
    }

    /// What is stored for the mod once `downloaded` has arrived: the JAR
    /// inside where the source says to extract, else `downloaded` itself.
    pub open spec fn spec_final_bytes(self, downloaded: Seq<u8>) -> Result<
        Seq<u8>,
        LauncherErrorView,
    > {
        match self {
            ModSource::DirectDownload { extract, .. } => if extract {
                spec_extract_jar(downloaded)
            } else {
                Ok(downloaded)
            },
            ModSource::RepositoryArtifact { .. } => Ok(downloaded),
        }
    }

    /// The place of the mod in the cache, relative to the cache's directory.
    ///
    /// Fails with `InvalidDescriptor` for a coordinate that is none.
    pub fn get_path(&self) -> (r: Result<String, LauncherError>)
        ensures
            text_outcome(r) == self.spec_get_path(),
    {
        match self {
            ModSource::DirectDownload { artifact_name, .. } => {
                let mut path: String = artifact_name.clone();
                path.append(".jar");
                Ok(path)
            },
            ModSource::RepositoryArtifact { artifact, .. } => get_maven_artifact_path(
                artifact.as_str(),
            ),
        }
    }

    /// What is stored for the mod once `downloaded` has arrived.
    ///
    /// Fails as `extract_jar` does where the source says to extract.
    pub fn final_bytes(&self, downloaded: Vec<u8>) -> (r: Result<Vec<u8>, LauncherError>)
        ensures
            bytes_outcome(r) == self.spec_final_bytes(downloaded@),
    {
        match self {
            ModSource::DirectDownload { extract, .. } => {
                if *extract {
                    extract_jar(&downloaded)
                } else {
                    Ok(downloaded)
                }
            },
            ModSource::RepositoryArtifact { .. } => Ok(downloaded),
        }
    }
}

impl ModEntry {
    /// The mod is installed: it is required or on by default.
    pub open spec fn spec_is_selected(self) -> bool {
        self.required || self.default
    }

    /// The name of the mod's file in the working directory.
    pub open spec fn spec_file_name(self) -> Seq<char> {
        self.name@ + jar_ending()
    }

    /// The text shown while the mod is being fetched.
    pub open spec fn spec_label(self) -> Seq<char> {
        "Downloading recommended mod "@ + self.name@
    }

    /// Tells whether the mod is installed.
    pub fn is_selected(&self) -> (r: bool)
        ensures
            r == self.spec_is_selected(),
    {
        self.required || self.default
    }

    /// The name of the mod's file in the working directory.
    pub fn file_name(&self) -> (r: String)
        ensures
            r@ == self.spec_file_name(),
    {
        let mut name: String = self.name.clone();
        name.append(".jar");
        name
    }

    /// The text shown while the mod is being fetched.
    pub fn label(&self) -> (r: String)
        ensures
            r@ == self.spec_label(),
    {
        let mut label: String = "Downloading recommended mod ".to_owned();
        label.append(self.name.as_str());
        label
    }
}

impl LaunchManifest {
    /// The URL from which `source` is fetched: its own for a direct
    /// download, the repository's URL followed by the Maven path for a
    /// coordinate.
    pub open spec fn spec_download_url(self, source: ModSource) -> Result<
        Seq<char>,
        LauncherErrorView,
    > {
        match source {
            ModSource::DirectDownload { url, .. } => Ok(url@),
            ModSource::RepositoryArtifact { repository, artifact } => match spec_repository_url(
                self.repositories@,
                repository@,
            ) {
                None => Err(
                    LauncherErrorView::InvalidDescriptor(unknown_repository_message(repository@)),
                ),
                Some(base) => match spec_maven_path(artifact@) {
                    None => Err(
                        LauncherErrorView::InvalidDescriptor(invalid_artifact_message(artifact@)),
                    ),
                    Some(path) => Ok(base + path),
                },
            },
        }
    }

    /// The URL of the repository called `name`, if the manifest has one.
    pub fn repository_url(&self, name: &str) -> (r: Option<&String>)
        ensures
            match r {
                Some(url) => spec_repository_url(self.repositories@, name@) == Some(url@),
                None => spec_repository_url(self.repositories@, name@) is None,
            },
    {
        let ghost named = |i: int| self.repositories@[i].name@ == name@;
        let n: usize = self.repositories.len();
        let mut i: usize = 0;
        while i < n
            invariant
                i <= n,
                n == self.repositories.len(),
                named == (|i: int| self.repositories@[i].name@ == name@),
                first_index(named, 0, n as int) == first_index(named, i as int, n as int),
            decreases n - i,
        {
            if same_text(self.repositories[i].name.as_str(), name) {
                assert(named(i as int));
                return Some(&self.repositories[i].url);
            }
            assert(!named(i as int));
            i += 1;
        }
        None
    }

    /// The URL from which `source` is fetched.
    ///
    /// Fails with `InvalidDescriptor` where the manifest has no repository
    /// of the name that `source` gives, and, behind that, where the
    /// coordinate is none.
    pub fn download_url(&self, source: &ModSource) -> (r: Result<String, LauncherError>)
        ensures
            text_outcome(r) == self.spec_download_url(*source),
    {
        match source {
            ModSource::DirectDownload { url, .. } => Ok(url.clone()),
            ModSource::RepositoryArtifact { repository, artifact } => {
                match self.repository_url(repository.as_str()) {
                    None => {
                        let mut message: String =
                            "There is no repository specified with the name ".to_owned();
                        message.append(repository.as_str());
                        Err(LauncherError::InvalidDescriptor(message))
                    },
                    Some(base) => {
                        let path: String = get_maven_artifact_path(artifact.as_str())?;
                        let mut url: String = base.clone();
                        url.append(path.as_str());
                        Ok(url)
                    },
                }
            },
        }
    }
}

/// Cache keys do not collide: two coordinates without a slash that have the
/// same place in the cache are the same coordinate, whatever repositories
/// they are in.
pub proof fn lemma_cache_path_injective(a: ModSource, b: ModSource)
    requires
        a matches ModSource::RepositoryArtifact { artifact, .. } && !artifact@.contains('/'),
        b matches ModSource::RepositoryArtifact { artifact, .. } && !artifact@.contains('/'),
        a.spec_get_path() is Ok,
        a.spec_get_path() == b.spec_get_path(),
    ensures
        a->artifact@ == b->artifact@,
{
    lemma_maven_path_injective(a->artifact@, b->artifact@);
}

} // verus!
