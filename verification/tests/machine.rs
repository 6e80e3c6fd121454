use matrix_crypto_core::machine::{
    check_identifiers, init_step, open_failure, parse_user_id, same_config_as, store_error_detail, store_failed,
    validate_config, InitStep, MachineConfig, MachineError,
};

fn config(device_id: &str) -> MachineConfig {
    MachineConfig {
        user_id: "@alice:example.org".to_string(),
        device_id: device_id.to_string(),
        store_path: "/tmp/store".to_string(),
        store_passphrase: Some("test-passphrase".to_string()),
    }
}

#[test]
fn debug_output_redacts_the_store_path_and_passphrase() {
    let config = MachineConfig {
        user_id: "@a:b".to_string(),
        device_id: "D".to_string(),
        store_path: "/Users/alice/Library/store".to_string(),
        store_passphrase: Some("s3cr3t".to_string()),
    };

    let rendered = config.debug_string();

    assert!(
        !rendered.contains("/Users/alice/Library/store"),
        "Debug output must not contain the store path: {rendered}"
    );
    assert!(
        !rendered.contains("s3cr3t"),
        "Debug output must not contain the store passphrase: {rendered}"
    );
    assert!(rendered.contains("@a:b"));
    assert!(rendered.contains('D'));

    let no_passphrase = MachineConfig {
        store_passphrase: None,
        ..config
    };
    assert!(no_passphrase.debug_string().contains("None"));
}

#[test]
fn the_redacted_rendering_is_exact() {
    assert_eq!(
        config("DEVICE1").debug_string(),
        "MachineConfig { user_id: \"@alice:example.org\", device_id: \"DEVICE1\", store_path: \"[redacted]\", store_passphrase: Some(\"[redacted]\") }"
    );
    let quoted = MachineConfig {
        user_id: "@a\"b:c".to_string(),
        device_id: "D\\\n".to_string(),
        store_path: String::new(),
        store_passphrase: None,
    };
    assert_eq!(
        quoted.debug_string(),
        "MachineConfig { user_id: \"@a\\\"b:c\", device_id: \"D\\\\\\n\", store_path: \"[redacted]\", store_passphrase: None }"
    );
    let controls = MachineConfig {
        user_id: "@a\u{7}:b".to_string(),
        device_id: "D\u{1b}\u{7f}\u{85}\u{ad}".to_string(),
        store_path: String::new(),
        store_passphrase: None,
    };
    assert_eq!(
        controls.debug_string(),
        format!(
            "MachineConfig {{ user_id: {:?}, device_id: {:?}, store_path: \"[redacted]\", store_passphrase: None }}",
            controls.user_id, controls.device_id
        )
    );
}

#[test]
fn creating_twice_is_accepted_with_the_same_config_and_refused_with_another() {
    let first = config("DEVICE1");
    assert_eq!(init_step(None, &first), Ok(InitStep::Build));
    assert_eq!(init_step(Some(&first), &config("DEVICE1")), Ok(InitStep::AlreadyHeld));
    assert_eq!(init_step(Some(&first), &config("DEVICE2")), Err(MachineError::AlreadyInitialised));
    let other_passphrase = MachineConfig { store_passphrase: None, ..config("DEVICE1") };
    assert_eq!(init_step(Some(&first), &other_passphrase), Err(MachineError::AlreadyInitialised));
    assert!(same_config_as(&first, &config("DEVICE1")));
    assert!(!same_config_as(&first, &other_passphrase));
}

#[test]
fn a_malformed_user_id_is_reported_before_the_device_id() {
    let malformed = MachineError::MalformedIdentifier { detail: "user id".to_string() };
    assert_eq!(parse_user_id("not-a-user-id"), Err(malformed.clone()));
    assert_eq!(check_identifiers("not-a-user-id", ""), Err(malformed.clone()));
    assert_eq!(parse_user_id("@alice:example.org"), Ok(()));
    assert!(parse_user_id("alice@example.org").is_err());
    assert_eq!(
        check_identifiers("@alice:example.org", ""),
        Err(MachineError::MalformedIdentifier { detail: "device id".to_string() })
    );
    assert_eq!(check_identifiers("@alice:example.org", "DEVICE1"), Ok(()));
    let bad = MachineConfig { user_id: "alice".to_string(), ..config("DEVICE1") };
    assert_eq!(validate_config(&bad), Err(malformed));
    assert_eq!(validate_config(&config("DEVICE1")), Ok(()));
}

#[test]
fn a_user_id_needs_its_sigil_and_its_server_name() {
    assert!(parse_user_id("@alice").is_err());
    assert!(parse_user_id("alice:example.org").is_err());
    assert!(parse_user_id("").is_err());
    assert!(parse_user_id("@bob:localhost").is_ok());
}

#[test]
fn a_store_failure_carries_only_its_shape() {
    let detail = "the crypto store could not be opened".to_string();
    assert_eq!(store_error_detail(), detail);
    assert_eq!(store_failed(), MachineError::Store { detail: detail.clone() });
    assert_eq!(open_failure(true), MachineError::MismatchedAccount);
    assert_eq!(open_failure(false), MachineError::Store { detail });
}
