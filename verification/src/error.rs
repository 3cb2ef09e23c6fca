//! The ways in which preparing a launch can fail.

use vstd::prelude::*;
use vstd::string::*;

verus! {

/// A failure that ends a launch attempt.
#[derive(Debug, Clone, PartialEq, Eq)]
pub enum LauncherError {
    /// A manifest or descriptor that makes no sense: an unknown parent, an
    /// unknown repository, an archive without a JAR.
    InvalidDescriptor(String),
    /// The network failed.
    Transport(String),
    /// Archive bytes that cannot be read.
    Archive(String),
    /// A file or directory operation failed.
    Filesystem(String),
}

/// A failure, with its text as a sequence of characters.
pub enum LauncherErrorView {
    InvalidDescriptor(Seq<char>),
    Transport(Seq<char>),
    Archive(Seq<char>),
    Filesystem(Seq<char>),
}

impl View for LauncherError {
    type V = LauncherErrorView;

    open spec fn view(&self) -> LauncherErrorView {
        match self {
            LauncherError::InvalidDescriptor(m) => LauncherErrorView::InvalidDescriptor(m@),
            LauncherError::Transport(m) => LauncherErrorView::Transport(m@),
            LauncherError::Archive(m) => LauncherErrorView::Archive(m@),
            LauncherError::Filesystem(m) => LauncherErrorView::Filesystem(m@),
        }
    }
}

/// Text or a failure, as plain values.
pub open spec fn text_outcome(r: Result<String, LauncherError>) -> Result<
    Seq<char>,
    LauncherErrorView,
> {
    match r {
        Ok(text) => Ok(text@),
        Err(e) => Err(e@),
    }
}

/// Bytes or a failure, as plain values.
pub open spec fn bytes_outcome(r: Result<Vec<u8>, LauncherError>) -> Result<
    Seq<u8>,
    LauncherErrorView,
> {
    match r {
        Ok(bytes) => Ok(bytes@),
        Err(e) => Err(e@),
    }
}

impl LauncherErrorView {
    /// The text that the failure carries.
    pub open spec fn message(self) -> Seq<char> {
        match self {
            LauncherErrorView::InvalidDescriptor(m) => m,
            LauncherErrorView::Transport(m) => m,
            LauncherErrorView::Archive(m) => m,
            LauncherErrorView::Filesystem(m) => m,
        }
    }
}

impl LauncherError {
    /// The text that the failure carries.
    pub fn message(&self) -> (r: String)
        ensures
            r@ == self@.message(),
    {
        match self {
            LauncherError::InvalidDescriptor(m) => m.clone(),
            LauncherError::Transport(m) => m.clone(),
            LauncherError::Archive(m) => m.clone(),
            LauncherError::Filesystem(m) => m.clone(),
        }
    }

    /// A second value that is the same failure.
    pub fn duplicate(&self) -> (r: Self)
        ensures
            r == *self,
    {
        match self {
            LauncherError::InvalidDescriptor(m) => LauncherError::InvalidDescriptor(m.clone()),
            LauncherError::Transport(m) => LauncherError::Transport(m.clone()),
            LauncherError::Archive(m) => LauncherError::Archive(m.clone()),
            LauncherError::Filesystem(m) => LauncherError::Filesystem(m.clone()),
        }
    }
}

} // verus!
