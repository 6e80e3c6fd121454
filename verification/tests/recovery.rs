use matrix_crypto_core::machine::MachineError;
use matrix_crypto_core::recovery::{
    classify_decode_error, complete_export, default_key_content, description_event_type, entry, import_failure,
    import_outcome, open_recovery, recovery_account_data, restore_gate, secret_envelope, AccountDataEntry, DecodeFailure,
};
use matrix_crypto_core::recovery::create_recovery;
use matrix_sdk_common::ruma::events::secret::request::SecretName;
use matrix_sdk_crypto::secret_storage::SecretStorageKey;
use matrix_crypto_core::signing::{IdentityStatus, Refusal};

fn written() -> Vec<AccountDataEntry> {
    recovery_account_data(
        &"KEYID".to_string(),
        "{\"description\":1}".to_string(),
        "{\"key\":\"KEYID\"}".to_string(),
        ("master".to_string(), "self".to_string(), "user".to_string()),
    )
}

#[test]
fn a_recovery_is_five_account_data_events_in_writing_order() {
    let types: Vec<String> = written().into_iter().map(|e| e.event_type).collect();
    assert_eq!(
        types,
        vec![
            "m.secret_storage.key.KEYID".to_string(),
            "m.secret_storage.default_key".to_string(),
            "m.cross_signing.master".to_string(),
            "m.cross_signing.self_signing".to_string(),
            "m.cross_signing.user_signing".to_string(),
        ],
        "a recovery carries the key description, the pointer, then the three keys"
    );
    assert_eq!(description_event_type(&"abc".to_string()), "m.secret_storage.key.abc");
}

#[test]
fn every_written_event_is_found_again_by_its_type() {
    let data = written();
    assert_eq!(entry(&data, &"m.secret_storage.default_key".to_string()), Some(&"{\"key\":\"KEYID\"}".to_string()));
    assert_eq!(entry(&data, &"m.secret_storage.key.KEYID".to_string()), Some(&"{\"description\":1}".to_string()));
    assert_eq!(entry(&data, &"m.cross_signing.master".to_string()), Some(&"master".to_string()));
    assert_eq!(entry(&data, &"m.cross_signing.self_signing".to_string()), Some(&"self".to_string()));
    assert_eq!(entry(&data, &"m.cross_signing.user_signing".to_string()), Some(&"user".to_string()));
    assert_eq!(entry(&data, &"m.secret_storage.key.OTHER".to_string()), None);
}

#[test]
fn the_first_of_two_entries_of_one_type_is_the_one_read() {
    let data = vec![
        AccountDataEntry { event_type: "t".to_string(), content: "first".to_string() },
        AccountDataEntry { event_type: "t".to_string(), content: "second".to_string() },
    ];
    assert_eq!(entry(&data, &"t".to_string()), Some(&"first".to_string()));
}

#[test]
fn decode_failures_split_into_wrong_secrets_and_unreadable_recoveries() {
    for failure in [DecodeFailure::Mac, DecodeFailure::Base58, DecodeFailure::KeyLength, DecodeFailure::Prefix, DecodeFailure::Parity] {
        assert_eq!(classify_decode_error(failure), MachineError::RecoveryKeyIncorrect, "{failure:?}");
    }
    for failure in [
        DecodeFailure::Base64,
        DecodeFailure::IvLength,
        DecodeFailure::MacLength,
        DecodeFailure::UnsupportedAlgorithm,
        DecodeFailure::KdfIterationCount,
    ] {
        assert_eq!(classify_decode_error(failure), MachineError::RecoveryDataMalformed, "{failure:?}");
    }
}

#[test]
fn a_restore_needs_the_accounts_public_identity() {
    let base = IdentityStatus {
        account_keys_fetched: false,
        identity_known: false,
        private_keys_held: false,
        account_keys_answer_unsettled: false,
        identity_publication_pending: false,
    };
    assert_eq!(
        restore_gate(&base),
        Err(Refusal { error: MachineError::AccountKeysNotFetched, queue_account_key_query: true })
    );
    let answered = IdentityStatus { account_keys_fetched: true, ..base };
    assert_eq!(
        restore_gate(&answered),
        Err(Refusal { error: MachineError::IdentityNotKnown, queue_account_key_query: false })
    );
    assert_eq!(restore_gate(&IdentityStatus { identity_known: true, ..answered }), Ok(()));
}

#[test]
fn an_export_needs_all_three_private_keys() {
    assert_eq!(
        complete_export(Some("m".to_string()), Some("s".to_string()), Some("u".to_string())),
        Ok(("m".to_string(), "s".to_string(), "u".to_string()))
    );
    assert_eq!(
        complete_export(Some("m".to_string()), None, Some("u".to_string())),
        Err(MachineError::PrivateKeysNotHeld)
    );
    assert_eq!(import_failure(false), MachineError::RecoveryDataMalformed);
    assert_eq!(
        import_failure(true),
        MachineError::Store { detail: "the crypto store could not be opened".to_string() }
    );
    assert_eq!(import_outcome(true), Ok(()));
    assert_eq!(import_outcome(false), Err(MachineError::RecoveryDataMalformed));
}

fn known() -> IdentityStatus {
    IdentityStatus {
        account_keys_fetched: true,
        identity_known: true,
        private_keys_held: false,
        account_keys_answer_unsettled: false,
        identity_publication_pending: false,
    }
}

fn event(event_type: &str, content: &str) -> AccountDataEntry {
    AccountDataEntry { event_type: event_type.to_string(), content: content.to_string() }
}

#[test]
fn the_pointer_names_its_key_id_as_json() {
    assert_eq!(default_key_content(&"KEYID".to_string()), "{\"key\":\"KEYID\"}");
    assert_eq!(default_key_content(&"a\"b\\c\n\u{1}".to_string()), "{\"key\":\"a\\\"b\\\\c\\n\\u0001\"}");
    let parsed: serde_json::Value = serde_json::from_str(&default_key_content(&"a\"b\u{1f}".to_string())).unwrap();
    assert_eq!(parsed["key"], "a\"b\u{1f}");
}

#[test]
fn a_recovery_is_not_opened_before_the_identity_is_known() {
    let unasked = IdentityStatus { account_keys_fetched: false, identity_known: false, ..known() };
    assert_eq!(
        open_recovery(&unasked, "secret", &written()).err(),
        Some(Refusal { error: MachineError::AccountKeysNotFetched, queue_account_key_query: true })
    );
    let answered = IdentityStatus { identity_known: false, ..known() };
    assert_eq!(
        open_recovery(&answered, "secret", &written()).err(),
        Some(Refusal { error: MachineError::IdentityNotKnown, queue_account_key_query: false })
    );
}

#[test]
fn a_missing_event_is_a_recovery_never_set_up() {
    let not_set_up = Some(Refusal { error: MachineError::RecoveryNotSetUp, queue_account_key_query: false });
    assert_eq!(open_recovery(&known(), "secret", &vec![]).err(), not_set_up);
    let pointer_only = vec![event("m.secret_storage.default_key", &default_key_content(&"K".to_string()))];
    assert_eq!(open_recovery(&known(), "secret", &pointer_only).err(), not_set_up);
}

#[test]
fn an_unreadable_pointer_or_description_is_malformed() {
    let malformed = Some(Refusal { error: MachineError::RecoveryDataMalformed, queue_account_key_query: false });
    let bad_pointer = vec![event("m.secret_storage.default_key", "not json at all")];
    assert_eq!(open_recovery(&known(), "secret", &bad_pointer).err(), malformed);
    let bad_description = vec![
        event("m.secret_storage.default_key", &default_key_content(&"K".to_string())),
        event("m.secret_storage.key.K", "not json at all"),
    ];
    assert_eq!(open_recovery(&known(), "secret", &bad_description).err(), malformed);
}

#[test]
fn a_secret_that_is_no_recovery_key_is_reported_as_a_wrong_secret() {
    let data = vec![
        event("m.secret_storage.default_key", &default_key_content(&"K".to_string())),
        event("m.secret_storage.key.K", "{\"algorithm\":\"m.secret_storage.v1.aes-hmac-sha2\"}"),
    ];
    assert_eq!(
        open_recovery(&known(), "0OIl", &data).err(),
        Some(Refusal { error: MachineError::RecoveryKeyIncorrect, queue_account_key_query: false })
    );
}

#[test]
fn a_device_without_all_three_keys_writes_no_recovery() {
    let some = |s: &str| Some(s.to_string());
    assert_eq!(create_recovery("pass", None).err(), Some(MachineError::PrivateKeysNotHeld));
    assert_eq!(create_recovery("pass", Some((some("m"), None, some("u")))).err(), Some(MachineError::PrivateKeysNotHeld));
    assert_eq!(create_recovery("pass", Some((None, None, None))).err(), Some(MachineError::PrivateKeysNotHeld));
}

#[test]
fn a_sealed_secret_holds_its_data_under_the_key_id() {
    let data = "{\"iv\":\"AAAAAAAAAAAAAAAAAAAAAA\",\"ciphertext\":\"Zm9v\",\"mac\":\"AAAA\"}";
    let content = secret_envelope("KEY\"1", data);
    assert_eq!(content, format!("{{\"encrypted\":{{\"KEY\\\"1\":{data}}}}}"));
    let parsed: serde_json::Value = serde_json::from_str(&content).unwrap();
    assert_eq!(parsed["encrypted"]["KEY\"1"]["ciphertext"], "Zm9v");
}

fn opened() -> (String, String, String) {
    ("master seed".to_string(), "self-signing seed".to_string(), "user-signing seed".to_string())
}

/// A recovery written under a random key with no passphrase, so that no
/// key derivation runs: the account data, and the key's base58 form.
fn written_under_a_random_key() -> (Vec<AccountDataEntry>, String) {
    let key = SecretStorageKey::new();
    let key_id = key.key_id().to_string();
    let seal = |seed: &str, name: SecretName| {
        let data = serde_json::to_value(key.encrypt(seed.as_bytes().to_vec(), &name)).unwrap().to_string();
        secret_envelope(&key_id, &data)
    };
    let account_data = recovery_account_data(
        &key_id,
        serde_json::to_string(key.event_content()).unwrap(),
        default_key_content(&key_id),
        (
            seal("master seed", SecretName::CrossSigningMasterKey),
            seal("self-signing seed", SecretName::CrossSigningSelfSigningKey),
            seal("user-signing seed", SecretName::CrossSigningUserSigningKey),
        ),
    );
    (account_data, key.to_base58())
}

#[test]
fn a_written_recovery_opens_with_its_recovery_key() {
    let (data, recovery_key) = written_under_a_random_key();
    assert!(recovery_key.contains(' ') && recovery_key.len() > 40, "{recovery_key}");
    assert_eq!(open_recovery(&known(), &recovery_key, &data), Ok(opened()));
    let compact: String = recovery_key.chars().filter(|c| *c != ' ').collect();
    assert_eq!(open_recovery(&known(), &compact, &data), Ok(opened()));
}

#[test]
fn another_key_is_told_apart_from_a_recovery_that_cannot_be_read() {
    let (data, _) = written_under_a_random_key();
    let other = SecretStorageKey::new().to_base58();
    assert_eq!(
        open_recovery(&known(), &other, &data).err(),
        Some(Refusal { error: MachineError::RecoveryKeyIncorrect, queue_account_key_query: false })
    );
}

#[test]
fn a_changed_ciphertext_is_a_recovery_that_cannot_be_read() {
    let (mut data, recovery_key) = written_under_a_random_key();
    let content = data[2].content.clone();
    let at = content.find("\"ciphertext\":\"").unwrap() + "\"ciphertext\":\"".len();
    let old = content[at..].chars().next().unwrap();
    let new = if old == 'A' { 'B' } else { 'A' };
    data[2].content = format!("{}{}{}", &content[..at], new, &content[at + old.len_utf8()..]);
    assert_eq!(
        open_recovery(&known(), &recovery_key, &data).err(),
        Some(Refusal { error: MachineError::RecoveryDataMalformed, queue_account_key_query: false })
    );
}

#[test]
fn a_removed_secret_is_a_recovery_never_set_up() {
    let (mut data, recovery_key) = written_under_a_random_key();
    data.remove(4);
    assert_eq!(
        open_recovery(&known(), &recovery_key, &data).err(),
        Some(Refusal { error: MachineError::RecoveryNotSetUp, queue_account_key_query: false })
    );
}
