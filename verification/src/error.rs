//! Errors the probe can return.

use vstd::prelude::*;

verus! {

/// Errors the core can return. Carries no payload content and no device
/// identifier.
#[derive(Debug, Clone, PartialEq, Eq)]
pub enum ProbeError {
    /// The probe was rejected, for the reason given.
    Rejected { reason: String },
}

} // verus!
