use semantic_gallery::config::{
    validate_config, Config, DatabaseConfig, EmbeddingConfig, StorageConfig,
};
use semantic_gallery::errors::{ErrorKind, GalleryError};

fn full_config() -> Config {
    Config {
        database: DatabaseConfig {
            host: "localhost".to_string(),
            port: 5432,
            username: "gallery".to_string(),
            password: "pw".to_string(),
            database: "gallery".to_string(),
        },
        embedding: EmbeddingConfig {
            model_path: Some("model.safetensors".to_string()),
            tokenizer_path: Some("tokenizer.json".to_string()),
            use_gpu: false,
        },
        storage: StorageConfig { media_path: "media".to_string() },
    }
}

#[test]
fn valid_config_passes() {
    assert!(validate_config(&full_config()).is_ok());
}

#[test]
fn empty_host_is_a_validation_error() {
    let mut c = full_config();
    c.database.host = String::new();
    assert_eq!(validate_config(&c).unwrap_err().kind(), ErrorKind::Validation);
}

#[test]
fn missing_model_path_is_an_artifact_error() {
    let mut c = full_config();
    c.embedding.model_path = None;
    assert_eq!(validate_config(&c).unwrap_err().kind(), ErrorKind::Artifact);
}

#[test]
fn missing_tokenizer_path_is_an_artifact_error() {
    let mut c = full_config();
    c.embedding.tokenizer_path = None;
    assert_eq!(validate_config(&c).unwrap_err().kind(), ErrorKind::Artifact);
}

#[test]
fn default_embedding_config_names_no_artifacts() {
    let d = EmbeddingConfig::default();
    assert!(d.model_path.is_none());
    assert!(d.tokenizer_path.is_none());
    assert!(!d.use_gpu);
}

#[test]
fn error_kinds_and_messages_round_trip() {
    let cases = vec![
        (GalleryError::ArtifactError("m1".to_string()), ErrorKind::Artifact, "m1"),
        (GalleryError::DecodeError("m2".to_string()), ErrorKind::Decode, "m2"),
        (GalleryError::InferenceError("m3".to_string()), ErrorKind::Inference, "m3"),
        (GalleryError::PersistenceError("m4".to_string()), ErrorKind::Persistence, "m4"),
        (GalleryError::ValidationError("m5".to_string()), ErrorKind::Validation, "m5"),
    ];
    for (e, kind, msg) in cases {
        assert_eq!(e.kind(), kind);
        assert_eq!(e.message(), msg);
    }
}
