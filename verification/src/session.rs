//! Ingesting sync changes into the crypto machine: what a call reports, and
//! how its errors are told apart.

use vstd::prelude::*;

use crate::machine::MachineError;

verus! {

/// Errors from ingesting a batch of sync changes.
///
/// Carries no payload content, ciphertext, device id or user id.
#[derive(Debug, Clone, Copy, PartialEq, Eq, Structural)]
pub enum SessionError {
    /// The payload did not parse into the accepted shape.
    MalformedPayload,
    /// No crypto machine has been created yet.
    NotInitialised,
    /// The crypto machine rejected or failed to process the sync changes.
    Failed,
}

/// How a machine error reaches a sync caller: a machine that does not exist
/// yet is told apart from every other failure.
pub open spec fn session_error_for(error: MachineError) -> SessionError {
    match error {
        MachineError::NotInitialised => SessionError::NotInitialised,
        _ => SessionError::Failed,
    }
}

impl From<MachineError> for SessionError {
    fn from(error: MachineError) -> (converted: SessionError) {
        match error {
            MachineError::NotInitialised => SessionError::NotInitialised,
            MachineError::AlreadyInitialised
            | MachineError::MalformedIdentifier { .. }
            | MachineError::Store { .. }
            | MachineError::MismatchedAccount
            | MachineError::UnknownFlow
            | MachineError::WrongStage
            | MachineError::MaterialNotReady
            | MachineError::UnknownDevice
            | MachineError::AccountKeysNotFetched
            | MachineError::IdentityAlreadyExists
            | MachineError::IdentityNotKnown
            | MachineError::PrivateKeysNotHeld
            | MachineError::RecoveryNotSetUp
            | MachineError::RecoveryKeyIncorrect
            | MachineError::RecoveryDataMalformed
            | MachineError::RecoveryAlreadyExists
            | MachineError::AccountKeysStale => SessionError::Failed,
        }
    }
}

impl vstd::std_specs::convert::FromSpecImpl<MachineError> for SessionError {
    open spec fn obeys_from_spec() -> bool {
        true
    }

    open spec fn from_spec(error: MachineError) -> SessionError {
        session_error_for(error)
    }
}

/// What a call to `receive_sync_changes` did to the machine's state.
#[derive(Debug, Clone, Copy, PartialEq, Eq, Structural)]
pub struct SyncOutcome {
    /// How many to-device events the call reported having processed.
    pub to_device_event_count: u32,
    /// How many new or updated end-to-end sessions the call produced.
    pub new_session_count: u32,
}

/// The outcome of a sync, from the two collections upstream handed back:
/// processed to-device events, then new or updated room keys. Each count is
/// the collection's length, truncated to 32 bits.
pub fn sync_outcome(processed_events: usize, room_keys: usize) -> (outcome: SyncOutcome)
    ensures
        outcome.to_device_event_count == processed_events as u32,
        outcome.new_session_count == room_keys as u32,
{
    SyncOutcome { to_device_event_count: processed_events as u32, new_session_count: room_keys as u32 }
}

} // verus!
