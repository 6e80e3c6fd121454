use matrix_crypto_core::machine::MachineError;
use matrix_crypto_core::session::{sync_outcome, SessionError, SyncOutcome};

#[test]
fn a_sync_outcome_counts_what_was_handed_back() {
    assert_eq!(sync_outcome(0, 0), SyncOutcome { to_device_event_count: 0, new_session_count: 0 });
    assert_eq!(sync_outcome(3, 2), SyncOutcome { to_device_event_count: 3, new_session_count: 2 });
}

#[test]
fn a_missing_machine_is_told_apart_from_every_other_failure() {
    assert_eq!(SessionError::from(MachineError::NotInitialised), SessionError::NotInitialised);
    assert_eq!(SessionError::from(MachineError::UnknownFlow), SessionError::Failed);
    assert_eq!(
        SessionError::from(MachineError::Store { detail: "the crypto store could not be opened".to_string() }),
        SessionError::Failed
    );
}
