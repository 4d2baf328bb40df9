//! The error taxonomy of the gallery core.
//!
//! Each variant carries a human-readable message.  The variants separate
//! fatal startup problems (a missing model artifact), per-file problems that a
//! batch skips over (an undecodable image), per-request problems (a failed
//! forward pass), store problems, and rejected inputs.

use vstd::prelude::*;

verus! {

/// Which family a `GalleryError` belongs to.
#[derive(Clone, Copy, Debug, PartialEq, Eq, Structural)]
pub enum ErrorKind {
    Artifact,
    Decode,
    Inference,
    Persistence,
    Validation,
}

/// An error surfaced by the gallery core.
#[derive(Debug)]
pub enum GalleryError {
    /// The model or tokenizer artifact is missing or unusable; fatal at startup.
    ArtifactError(String),
    /// An image could not be decoded; a batch logs the file and moves on.
    DecodeError(String),
    /// A forward pass failed; fatal for the one input, harmless for the rest.
    InferenceError(String),
    /// The store could not complete a transaction or hand out a connection.
    PersistenceError(String),
    /// An input was rejected before any work was attempted.
    ValidationError(String),
}

impl GalleryError {
    /// The family of this error.
    pub open spec fn spec_kind(&self) -> ErrorKind {
        match self {
            GalleryError::ArtifactError(_) => ErrorKind::Artifact,
            GalleryError::DecodeError(_) => ErrorKind::Decode,
            GalleryError::InferenceError(_) => ErrorKind::Inference,
            GalleryError::PersistenceError(_) => ErrorKind::Persistence,
            GalleryError::ValidationError(_) => ErrorKind::Validation,
        }
    }

    /// The message carried by this error.
    pub open spec fn spec_message(&self) -> Seq<char> {
        match self {
            GalleryError::ArtifactError(m) => m@,
            GalleryError::DecodeError(m) => m@,
            GalleryError::InferenceError(m) => m@,
            GalleryError::PersistenceError(m) => m@,
            GalleryError::ValidationError(m) => m@,
        }
    }

    /// Report which family this error belongs to.
    pub fn kind(&self) -> (k: ErrorKind)
        ensures
            k == self.spec_kind(),
    {
        match self {
            GalleryError::ArtifactError(_) => ErrorKind::Artifact,
            GalleryError::DecodeError(_) => ErrorKind::Decode,
            GalleryError::InferenceError(_) => ErrorKind::Inference,
            GalleryError::PersistenceError(_) => ErrorKind::Persistence,
            GalleryError::ValidationError(_) => ErrorKind::Validation,
        }
    }

    /// A copy of the message carried by this error.
    pub fn message(&self) -> (m: String)
        ensures
            m@ == self.spec_message(),
    {
        match self {
            GalleryError::ArtifactError(s) => s.clone(),
            GalleryError::DecodeError(s) => s.clone(),
            GalleryError::InferenceError(s) => s.clone(),
            GalleryError::PersistenceError(s) => s.clone(),
            GalleryError::ValidationError(s) => s.clone(),
        }
    }
}

} // verus!
