use mcp_core::config::ConfigManager;
use mcp_core::error::ErrorKind;

fn create_test_config_manager() -> ConfigManager {
    ConfigManager::with_paths(
        "mcp-switchboard".to_string(),
        "mcp-switchboard/config.json".to_string(),
        "test-host".to_string(),
    )
}

#[test]
fn test_has_config_with_no_file_no_env() {
    let manager = create_test_config_manager();

    assert!(
        !manager.has_config(None, false),
        "should return false when no config file and no env var"
    );
}

#[test]
fn test_has_config_with_env_var() {
    let manager = create_test_config_manager();

    assert!(
        manager.has_config(Some("test-key"), false),
        "should return true when env var is set"
    );
}

#[test]
fn test_has_config_with_file() {
    let manager = create_test_config_manager();

    assert!(
        manager.has_config(None, true),
        "should return true when config file exists"
    );
}

#[test]
fn test_save_and_load_config() {
    let manager = create_test_config_manager();

    let test_key = "test-api-key-12345";

    // Test saving
    let blob = manager.save_api_key(test_key.to_string(), None).unwrap();

    // Test that a storable blob was produced
    assert!(!blob.is_empty(), "config file should exist after saving");
    assert!(
        manager.has_config(None, true),
        "has_config should return true after saving"
    );

    // Test loading
    let loaded_key = manager.get_api_key(None, Some(&blob)).unwrap();
    assert_eq!(
        loaded_key,
        Some(test_key.to_string()),
        "loaded key should match saved key"
    );
}

#[test]
fn test_encryption_roundtrip() {
    let manager = create_test_config_manager();

    let test_data = b"test encryption data";
    let encrypted = manager.encrypt_data(test_data).unwrap();
    let decrypted = manager.decrypt_data(&encrypted).unwrap();

    assert_eq!(
        test_data,
        decrypted.as_slice(),
        "decrypted data should match original"
    );
}

#[test]
fn test_config_persistence_across_instances() {
    let config_dir = "mcp-switchboard".to_string();
    let config_file = "mcp-switchboard/config.json".to_string();

    let test_key = "persistent-test-key";

    // First instance - save config
    let blob = {
        let manager1 = ConfigManager::with_paths(
            config_dir.clone(),
            config_file.clone(),
            "test-host".to_string(),
        );

        let blob = manager1.save_api_key(test_key.to_string(), None).unwrap();
        assert!(
            manager1.has_config(None, true),
            "first instance should detect config"
        );
        blob
    };

    // Second instance - load config
    {
        let manager2 = ConfigManager::with_paths(
            config_dir.clone(),
            config_file.clone(),
            "test-host".to_string(),
        );

        assert!(
            manager2.has_config(None, true),
            "second instance should detect existing config"
        );
        let loaded_key = manager2.get_api_key(None, Some(&blob)).unwrap();
        assert_eq!(
            loaded_key,
            Some(test_key.to_string()),
            "second instance should load same key"
        );
    }
}

#[test]
fn test_env_var_priority() {
    let env_key = "env-var-key";
    let file_key = "file-key";

    let manager = create_test_config_manager();

    // Save a different key to file
    let blob = manager.save_api_key(file_key.to_string(), None).unwrap();

    // Environment variable should take priority
    let loaded_key = manager.get_api_key(Some(env_key), Some(&blob)).unwrap();
    assert_eq!(
        loaded_key,
        Some(env_key.to_string()),
        "env var should take priority over file"
    );
}

#[test]
fn test_unconfigured_then_save() {
    let manager = create_test_config_manager();

    assert_eq!(manager.get_api_key(None, None).unwrap(), None);
    assert!(!manager.has_config(None, false));

    let blob = manager.save_api_key("abc123".to_string(), None).unwrap();
    assert!(manager.has_config(None, true));
    assert_eq!(
        manager.get_api_key(None, Some(&blob)).unwrap(),
        Some("abc123".to_string())
    );
}

#[test]
fn test_preferred_model_default() {
    let manager = create_test_config_manager();

    assert_eq!(
        manager.get_preferred_model(None),
        "meta-llama/Meta-Llama-3.1-8B-Instruct-Turbo"
    );
}

#[test]
fn test_set_then_get_preferred_model() {
    let manager = create_test_config_manager();

    let blob = manager
        .save_preferred_model("org/model-x".to_string(), None)
        .unwrap();
    assert_eq!(manager.get_preferred_model(Some(&blob)), "org/model-x");
}

#[test]
fn test_model_save_preserves_credential() {
    let manager = create_test_config_manager();

    let blob1 = manager.save_api_key("key-one".to_string(), None).unwrap();
    let blob2 = manager
        .save_preferred_model("org/model-y".to_string(), Some(&blob1))
        .unwrap();

    assert_eq!(
        manager.get_api_key(None, Some(&blob2)).unwrap(),
        Some("key-one".to_string())
    );
    assert_eq!(manager.get_preferred_model(Some(&blob2)), "org/model-y");

    let blob3 = manager
        .save_api_key("key-two".to_string(), Some(&blob2))
        .unwrap();
    assert_eq!(manager.get_preferred_model(Some(&blob3)), "org/model-y");
    assert_eq!(
        manager.get_api_key(None, Some(&blob3)).unwrap(),
        Some("key-two".to_string())
    );
}

#[test]
fn test_tamper_detection() {
    let manager = create_test_config_manager();

    let blob = manager.save_api_key("secret-key".to_string(), None).unwrap();

    // The stored form is one line of base64 text.
    assert!(
        blob.chars()
            .all(|c| c.is_ascii_alphanumeric() || c == '+' || c == '/' || c == '='),
        "blob should be base64 text"
    );

    for i in 0..blob.len() {
        let mut tampered: Vec<char> = blob.chars().collect();
        tampered[i] = if tampered[i] == 'A' { 'B' } else { 'A' };
        let tampered: String = tampered.into_iter().collect();
        assert!(
            manager.get_api_key(None, Some(&tampered)).is_err(),
            "flipping a byte of the blob must surface an error"
        );
    }
}

#[test]
fn test_nonce_uniqueness() {
    let manager = create_test_config_manager();

    let first = manager.encrypt_data(b"same plaintext").unwrap();
    let second = manager.encrypt_data(b"same plaintext").unwrap();
    assert_ne!(
        first, second,
        "two encryptions of one plaintext must differ"
    );
}

#[test]
fn test_corrupt_blob_error_kinds() {
    let manager = create_test_config_manager();

    // Not base64 at all: a crypto failure, not a silent absence.
    let err = manager
        .get_api_key(None, Some("not base64 at all!!!"))
        .unwrap_err();
    assert_eq!(err.kind(), ErrorKind::CryptoFailure);

    // Too short to hold a nonce (decodes to 6 bytes).
    let err = manager.get_api_key(None, Some("AAAAAAAA")).unwrap_err();
    assert_eq!(err.kind(), ErrorKind::CryptoFailure);

    // Decrypts fine but is not a record.
    let blob = manager.encrypt_data(b"junk, not a record").unwrap();
    let err = manager.get_api_key(None, Some(&blob)).unwrap_err();
    assert_eq!(err.kind(), ErrorKind::Serialization);

    // A corrupt record also fails a save, with the same kinds.
    let err = manager
        .save_api_key("k".to_string(), Some("not base64 at all!!!"))
        .unwrap_err();
    assert_eq!(err.kind(), ErrorKind::CryptoFailure);
    let err = manager
        .save_preferred_model("m".to_string(), Some(&blob))
        .unwrap_err();
    assert_eq!(err.kind(), ErrorKind::Serialization);

    // But a corrupt record never fails the model read: default instead.
    assert_eq!(
        manager.get_preferred_model(Some("not base64 at all!!!")),
        "meta-llama/Meta-Llama-3.1-8B-Instruct-Turbo"
    );
}

#[test]
fn test_empty_credential_reads_as_absent() {
    let manager = create_test_config_manager();

    let blob = manager.save_api_key(String::new(), None).unwrap();
    assert_eq!(manager.get_api_key(None, Some(&blob)).unwrap(), None);

    // An empty override is ignored too, falling through to the file.
    let blob2 = manager.save_api_key("real-key".to_string(), None).unwrap();
    assert_eq!(
        manager.get_api_key(Some(""), Some(&blob2)).unwrap(),
        Some("real-key".to_string())
    );
}

#[test]
fn test_special_characters_roundtrip() {
    let manager = create_test_config_manager();

    let tricky = "a\"b\\c\nd\te\u{1}f-cl\u{e9}-\u{68ee}-\u{1f5dd}";
    let blob = manager.save_api_key(tricky.to_string(), None).unwrap();
    assert_eq!(
        manager.get_api_key(None, Some(&blob)).unwrap(),
        Some(tricky.to_string())
    );

    let tricky_model = "org/model \"x\"\\v1";
    let blob2 = manager
        .save_preferred_model(tricky_model.to_string(), Some(&blob))
        .unwrap();
    assert_eq!(manager.get_preferred_model(Some(&blob2)), tricky_model);
    assert_eq!(
        manager.get_api_key(None, Some(&blob2)).unwrap(),
        Some(tricky.to_string())
    );
}

#[test]
fn test_different_identity_cannot_decrypt() {
    let manager_a = ConfigManager::with_paths(
        "mcp-switchboard".to_string(),
        "mcp-switchboard/config.json".to_string(),
        "host-a".to_string(),
    );
    let manager_b = ConfigManager::with_paths(
        "mcp-switchboard".to_string(),
        "mcp-switchboard/config.json".to_string(),
        "host-b".to_string(),
    );

    let blob = manager_a.save_api_key("secret".to_string(), None).unwrap();
    let err = manager_b.get_api_key(None, Some(&blob)).unwrap_err();
    assert_eq!(err.kind(), ErrorKind::CryptoFailure);
}

#[test]
fn test_new_resolves_paths() {
    // The platform in this environment defines a configuration directory.
    if let Ok(manager) = ConfigManager::new() {
        assert!(manager.get_config_path().ends_with("/config.json"));
        assert!(manager.get_config_path().contains("mcp-switchboard"));
    }
}
