use matrix_crypto_core::identity::{device_identity_keys, device_statuses, trust_of, DeviceStatus, IdentityKeys, TrustState};
use matrix_crypto_core::machine::MachineError;

fn keys() -> IdentityKeys {
    IdentityKeys { ed25519: "ED".to_string(), curve25519: "CU".to_string() }
}

#[test]
fn the_machines_own_identifiers_are_answered_with_its_keys() {
    let user = "@a:server1".to_string();
    let device = "DEVICE1".to_string();
    assert_eq!(device_identity_keys(&user, &device, &user, &device, keys()), Ok(keys()));
}

#[test]
fn mismatched_identifiers_are_refused() {
    let refused = Err(MachineError::MalformedIdentifier { detail: "identifiers do not match the active machine".to_string() });
    let user = "@a:server1".to_string();
    let device = "DEVICE1".to_string();
    assert_eq!(device_identity_keys(&user, &device, &user, &"DEVICE2".to_string(), keys()), refused);
    assert_eq!(device_identity_keys(&user, &device, &"@b:server1".to_string(), &device, keys()), refused);
}

#[test]
fn devices_are_reported_sorted_by_id_with_their_trust() {
    let statuses = device_statuses(vec![
        ("ZDEV".to_string(), false),
        ("ADEV".to_string(), true),
        ("MDEV".to_string(), false),
    ]);
    assert_eq!(
        statuses,
        vec![
            DeviceStatus { device_id: "ADEV".to_string(), trust: TrustState::Verified },
            DeviceStatus { device_id: "MDEV".to_string(), trust: TrustState::Unverified },
            DeviceStatus { device_id: "ZDEV".to_string(), trust: TrustState::Unverified },
        ]
    );
    assert!(device_statuses(vec![]).is_empty());
    assert_eq!(trust_of(true), TrustState::Verified);
    assert_eq!(trust_of(false), TrustState::Unverified);
}

#[test]
fn the_same_devices_in_another_order_are_listed_alike() {
    let first = device_statuses(vec![
        ("B".to_string(), true),
        ("C".to_string(), false),
        ("A".to_string(), false),
    ]);
    let second = device_statuses(vec![
        ("C".to_string(), false),
        ("A".to_string(), false),
        ("B".to_string(), true),
    ]);
    assert_eq!(first, second);
}
