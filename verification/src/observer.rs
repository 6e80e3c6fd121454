//! Signals: the probe's per-call diagnostic, and the crypto channel that
//! broadcasts state changes belonging to no call in flight.

use vstd::prelude::*;

use crate::error::ProbeError;
use crate::identity::TrustState;
use crate::probe::{core_version_for, empty_input_reason, probe, ProbeReport};

verus! {

/// A state change that belongs to no call in flight.
#[derive(Debug, Clone, PartialEq, Eq)]
pub struct ProbeSignal {
    pub kind: String,
    pub detail: String,
}

/// A crypto state change every subscriber should learn about.
#[derive(Debug, Clone, PartialEq, Eq)]
pub enum CryptoSignal {
    /// A comparison completed, and a device of `user` now reports `state`.
    TrustChanged { user: String, state: TrustState },
    /// The other side asked this device to verify itself; `flow_id` names
    /// the flow every verification call takes.
    VerificationRequested { user: String, device_id: String, flow_id: String },
    /// A flow this process took part in finished by scanning a code.
    VerificationCompleted { flow_id: String },
}


/// Implemented by the layer that delivers a probe's signal, and through it
/// by the product.
pub trait ProbeObserver: Send + Sync {
    fn on_signal(&self, signal: ProbeSignal);
}

/// Implemented by the layer that delivers crypto signals, and through it by
/// the product. One per process rather than one per call.
pub trait CryptoObserver: Send + Sync {
    fn on_signal(&self, signal: CryptoSignal);
}

/// Runs the probe, and says which signal it emits on the way through: one
/// `probe_started` carrying the input, or none when the input is rejected,
/// because rejection returns before anything is emitted.
pub fn probe_with_observer(input: String, payload: Vec<u8>, emit_build: u32) -> (outcome: (Result<ProbeReport, ProbeError>, Option<ProbeSignal>))
    ensures
        input@.len() == 0 ==> outcome.1 is None && (outcome.0->Err_0 matches ProbeError::Rejected { reason }
            && reason@ == empty_input_reason()) && outcome.0 is Err,
        input@.len() > 0 ==> {
            &&& outcome.1 is Some
            &&& outcome.1->0.kind@ == "probe_started"@
            &&& outcome.1->0.detail@ == input@
            &&& outcome.0 is Ok
            &&& outcome.0->Ok_0.echoed@ == input@
            &&& outcome.0->Ok_0.payload@ == payload@.reverse()
            &&& outcome.0->Ok_0.core_version@ == core_version_for(emit_build)
        },
{
    if input.as_str().unicode_len() == 0 {
        return (Err(ProbeError::Rejected { reason: String::from_str("input must not be empty") }), None);
    }
    let signal = ProbeSignal { kind: String::from_str("probe_started"), detail: input.clone() };
    (probe(input, payload, emit_build), Some(signal))
}

/// FNV-1a's offset basis: the value the hash holds before it has consumed
/// anything.
pub const FNV_OFFSET_BASIS: u32 = 0x811c_9dc5u32;

/// FNV-1a's 32-bit prime.
pub const FNV_PRIME: u32 = 0x0100_0193u32;

/// One step of FNV-1a: fold a byte in, then multiply by the prime, modulo
/// 2^32.
pub open spec fn fnv1a_step(hash: u32, byte: u8) -> u32 {
    (((hash ^ (byte as u32)) as nat * FNV_PRIME as nat) % 0x1_0000_0000nat) as u32
}

/// FNV-1a, 32 bit, over `bytes`, starting from `seed`.
pub open spec fn spec_fnv1a(seed: u32, bytes: Seq<u8>) -> u32
    decreases bytes.len(),
{
    if bytes.len() == 0 {
        seed
    } else {
        fnv1a_step(spec_fnv1a(seed, bytes.drop_last()), bytes.last())
    }
}

/// FNV-1a, 32 bit, seeded so several inputs can be chained into one value.
pub fn fnv1a(seed: u32, bytes: &[u8]) -> (hash: u32)
    ensures
        hash == spec_fnv1a(seed, bytes@),
{
    let mut hash = seed;
    let mut i: usize = 0;
    while i < bytes.len()
        invariant
            i <= bytes@.len(),
            hash == spec_fnv1a(seed, bytes@.take(i as int)),
        decreases bytes@.len() - i,
    {
        proof {
            assert(bytes@.take((i + 1) as int).drop_last() =~= bytes@.take(i as int));
        }
        hash = hash ^ (bytes[i] as u32);
        hash = hash.wrapping_mul(FNV_PRIME);
        i = i + 1;
    }
    proof {
        assert(bytes@.take(i as int) =~= bytes@);
    }
    hash
}

/// The chaining law: hashing `a` and then `b` from the result is hashing
/// `a` followed by `b`, which is what lets several files be hashed into one
/// build identifier.
pub proof fn fnv1a_chains(seed: u32, a: Seq<u8>, b: Seq<u8>)
    ensures
        spec_fnv1a(spec_fnv1a(seed, a), b) == spec_fnv1a(seed, a + b),
    decreases b.len(),
{
    if b.len() == 0 {
        assert(a + b =~= a);
    } else {
        fnv1a_chains(seed, a, b.drop_last());
        assert((a + b).drop_last() =~= a + b.drop_last());
        assert((a + b).last() == b.last());
    }
}

/// The one crypto observer this process delivers signals to.
pub struct CryptoObserverRegistry<O> {
    observer: Option<O>,
}

impl<O> CryptoObserverRegistry<O> {
    /// The registered observer, if any.
    pub closed spec fn current(&self) -> Option<O> {
        self.observer
    }

    /// A registry with nobody listening.
    pub fn new() -> (registry: CryptoObserverRegistry<O>)
        ensures
            registry.current() is None,
    {
        CryptoObserverRegistry { observer: None }
    }

    /// The registered observer, if there is one.
    pub fn crypto_observer(&self) -> (observer: Option<&O>)
        ensures
            observer is Some <==> self.current() is Some,
            observer is Some ==> *observer->0 == self.current()->0,
    {
        match &self.observer {
            Some(observer) => Some(observer),
            None => None,
        }
    }

    /// Hands one crypto signal to the registered observer for delivery off
    /// the caller's stack, or reports that nobody was there to take it.
    ///
    /// The observer being there is not a delivery receipt: it says only
    /// that one was registered when this looked.
    pub fn emit_crypto(&self, signal: CryptoSignal) -> (delivery: Option<(&O, CryptoSignal)>)
        ensures
            delivery is Some <==> self.current() is Some,
            delivery is Some ==> *(delivery->0).0 == self.current()->0 && (delivery->0).1 == signal,
    {
        match &self.observer {
            Some(observer) => Some((observer, signal)),
            None => None,
        }
    }
}

/// Registers the process's crypto observer, replacing any previous one.
pub fn set_crypto_observer<O>(registry: &mut CryptoObserverRegistry<O>, observer: O)
    ensures
        final(registry).current() == Some(observer),
{
    registry.observer = Some(observer);
}

/// Forgets the registered observer, so this process is once again one
/// nobody is listening to, and producers consume nothing.
pub fn clear_crypto_observer<O>(registry: &mut CryptoObserverRegistry<O>)
    ensures
        final(registry).current() is None,
{
    registry.observer = None;
}

/// Forgets the registered observer between tests.
pub fn reset_crypto_observer_for_test<O>(registry: &mut CryptoObserverRegistry<O>)
    ensures
        final(registry).current() is None,
{
    registry.observer = None;
}

} // verus!
