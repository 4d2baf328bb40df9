//! Configuration consumed by the gallery core.
//!
//! The values are produced outside this crate (a configuration file plus
//! environment variables) and validated once at startup by
//! [`validate_config`]; every pipeline entry point trusts them afterwards.

use vstd::prelude::*;

use crate::errors::GalleryError;

verus! {

/// Connection parameters for the persistence store.
#[derive(Debug, Clone)]
pub struct DatabaseConfig {
    pub host: String,
    pub port: u16,
    pub username: String,
    pub password: String,
    pub database: String,
}

/// Locations of the embedding model artifacts.
#[derive(Debug, Clone)]
pub struct EmbeddingConfig {
    pub model_path: Option<String>,
    pub tokenizer_path: Option<String>,
    pub use_gpu: bool,
}

impl Default for EmbeddingConfig {
    /// No artifact paths, and no accelerated device requested.
    fn default() -> (c: EmbeddingConfig)
        ensures
            c.model_path is None,
            c.tokenizer_path is None,
            !c.use_gpu,
    {
        EmbeddingConfig { model_path: None, tokenizer_path: None, use_gpu: false }
    }
}

/// Where ingested media lives on disk.
#[derive(Debug, Clone)]
pub struct StorageConfig {
    pub media_path: String,
}

/// The application configuration, assembled once at startup.
#[derive(Debug, Clone)]
pub struct Config {
    pub database: DatabaseConfig,
    pub embedding: EmbeddingConfig,
    pub storage: StorageConfig,
}

impl Config {
    /// A configuration the pipelines may run on: a reachable-looking store
    /// and both model artifacts named.
    pub open spec fn wf(&self) -> bool {
        &&& self.database.host@.len() > 0
        &&& self.embedding.model_path is Some
        &&& self.embedding.tokenizer_path is Some
    }
}

/// Check the parts of a configuration that can be judged without touching
/// the filesystem: the store host must be named, and both embedding
/// artifacts must have a path.
///
/// Returns `Ok` exactly when [`Config::wf`] holds; the error names the first
/// missing piece, a `ValidationError` for the store host and an
/// `ArtifactError` for a missing artifact path.
pub fn validate_config(config: &Config) -> (r: Result<(), GalleryError>)
    ensures
        r is Ok <==> config.wf(),
        r matches Err(e) ==> {
            if config.database.host@.len() == 0 {
                e is ValidationError
            } else {
                e is ArtifactError
            }
        },
{
    if config.database.host.as_str().is_empty() {
        return Err(GalleryError::ValidationError("Database host cannot be empty".to_string()));
    }
    if config.embedding.model_path.is_none() {
        return Err(GalleryError::ArtifactError("Embedding model path must be provided".to_string()));
    }
    if config.embedding.tokenizer_path.is_none() {
        return Err(GalleryError::ArtifactError(
            "Embedding tokenizer path must be provided".to_string(),
        ));
    }
    Ok(())
}

} // verus!
