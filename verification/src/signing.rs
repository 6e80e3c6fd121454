//! This account's signing identity: whether it may be published, whether a
//! first one may be created, and the process-wide facts those rules read.

use vstd::prelude::*;

use crate::machine::MachineError;

verus! {

/// What this library will say about the account's signing identity.
#[derive(Debug, Clone, Copy, PartialEq, Eq, Structural)]
pub struct IdentityStatus {
    /// A key query naming this account was sent and answered in this process.
    pub account_keys_fetched: bool,
    /// This machine holds a public signing identity for the account.
    pub identity_known: bool,
    /// This device holds the account's complete private signing keys.
    pub private_keys_held: bool,
    /// An answer arrived and left the library unable to say whether the
    /// account has an identity.
    pub account_keys_answer_unsettled: bool,
    /// This device holds an identity it minted and no homeserver has
    /// confirmed.
    pub identity_publication_pending: bool,
}

/// The rule for the every-launch publication of the identity this device
/// holds.
pub open spec fn spec_may_publish(status: IdentityStatus) -> Result<(), MachineError> {
    if !status.account_keys_fetched {
        Err(MachineError::AccountKeysNotFetched)
    } else if !status.identity_known {
        Err(MachineError::IdentityNotKnown)
    } else if status.identity_publication_pending {
        Err(MachineError::IdentityNotKnown)
    } else if !status.private_keys_held {
        Err(MachineError::IdentityAlreadyExists)
    } else {
        Ok(())
    }
}

/// The rule for minting the account's first identity.
pub open spec fn spec_may_create(status: IdentityStatus) -> Result<(), MachineError> {
    if !status.account_keys_fetched {
        Err(MachineError::AccountKeysNotFetched)
    } else if status.identity_known && !status.identity_publication_pending {
        Err(MachineError::IdentityAlreadyExists)
    } else {
        Ok(())
    }
}

/// Whether the identity this device holds may be republished.
///
/// Nothing is served before the server has been asked; an identity no
/// homeserver has confirmed is not this call's to publish; and a device
/// without the private keys joins the identity rather than replacing it.
pub fn may_publish(status: &IdentityStatus) -> (r: Result<(), MachineError>)
    ensures
        r == spec_may_publish(*status),
{
    if !status.account_keys_fetched {
        return Err(MachineError::AccountKeysNotFetched);
    }
    if !status.identity_known {
        return Err(MachineError::IdentityNotKnown);
    }
    if status.identity_publication_pending {
        return Err(MachineError::IdentityNotKnown);
    }
    if !status.private_keys_held {
        return Err(MachineError::IdentityAlreadyExists);
    }
    Ok(())
}

/// Whether the account's first identity may be created.
///
/// Served when this process has asked and the answer named no identity, or
/// named only the one this device minted and never saw confirmed.
pub fn may_create(status: &IdentityStatus) -> (r: Result<(), MachineError>)
    ensures
        r == spec_may_create(*status),
{
    if !status.account_keys_fetched {
        return Err(MachineError::AccountKeysNotFetched);
    }
    if status.identity_known && !status.identity_publication_pending {
        return Err(MachineError::IdentityAlreadyExists);
    }
    Ok(())
}

/// No state serves both publishing and creating: they are different acts on
/// the same account, and a state serving both would make the split
/// meaningless.
pub proof fn publishing_and_creating_never_overlap(status: IdentityStatus)
    ensures
        !(spec_may_publish(status) is Ok && spec_may_create(status) is Ok),
{
}

/// Neither publishing nor creating is served before the server has been
/// asked about this account, whatever else the status says.
pub proof fn nothing_is_served_before_the_server_was_asked(status: IdentityStatus)
    requires
        !status.account_keys_fetched,
    ensures
        spec_may_publish(status) == Err::<(), MachineError>(MachineError::AccountKeysNotFetched),
        spec_may_create(status) == Err::<(), MachineError>(MachineError::AccountKeysNotFetched),
{
}

/// An account whose confirmed identity is known is never created over,
/// whether or not this device holds the private keys.
pub proof fn a_confirmed_identity_is_never_created_over(status: IdentityStatus)
    requires
        status.account_keys_fetched,
        status.identity_known,
        !status.identity_publication_pending,
    ensures
        spec_may_create(status) == Err::<(), MachineError>(MachineError::IdentityAlreadyExists),
{
}

/// An identity no homeserver has confirmed is published by nothing, and
/// finishing it stays possible through creation.
pub proof fn an_unconfirmed_identity_is_only_finished_by_creation(status: IdentityStatus)
    requires
        status.account_keys_fetched,
        status.identity_known,
        status.identity_publication_pending,
    ensures
        spec_may_publish(status) == Err::<(), MachineError>(MachineError::IdentityNotKnown),
        spec_may_create(status) is Ok,
{
}


/// The record key an identity this device minted, and no homeserver has yet
/// confirmed, is stored under in the crypto store's custom values.
pub fn unpublished_identity_key() -> (key: String)
    ensures
        key@ == "org.linagora.rnmc.unpublished_identity"@,
{
    String::from_str("org.linagora.rnmc.unpublished_identity")
}

/// Whether the identity this machine holds is the one it minted and never
/// saw accepted: the record names exactly the master key the store holds.
///
/// A store holding no identity, or no record, or a record naming another
/// key, reads `false`, so a record cannot outlive the identity it describes.
pub fn identity_is_unpublished(held: &Option<String>, recorded: &Option<String>) -> (r: bool)
    ensures
        r == (held is Some && recorded is Some && held->0@ == recorded->0@),
{
    match (held, recorded) {
        (Some(held), Some(recorded)) => *held == *recorded,
        _ => false,
    }
}

/// One part of a publication of this account's identity, in the order the
/// outbound pump must hand them out.
#[derive(Debug, Clone, Copy, PartialEq, Eq, Structural)]
pub enum PublicationPart {
    /// This device's own keys.
    DeviceKeysUpload,
    /// The cross-signing keys themselves: the one request that can replace
    /// an account's identity.
    SigningKeysUpload,
    /// The signatures that tie this device into the identity.
    SignatureUpload,
    /// A key query about this account, asked after the publication.
    AccountKeyQuery,
}

/// What a publication queues, in order: device keys when upstream produced
/// any, then the signing keys, then the signatures.
pub open spec fn spec_publication(has_device_keys: bool) -> Seq<PublicationPart> {
    if has_device_keys {
        seq![PublicationPart::DeviceKeysUpload, PublicationPart::SigningKeysUpload, PublicationPart::SignatureUpload]
    } else {
        seq![PublicationPart::SigningKeysUpload, PublicationPart::SignatureUpload]
    }
}

/// What a republication queues: everything a publication does except the
/// cross-signing keys themselves.
pub open spec fn spec_republication(has_device_keys: bool) -> Seq<PublicationPart> {
    if has_device_keys {
        seq![PublicationPart::DeviceKeysUpload, PublicationPart::SignatureUpload]
    } else {
        seq![PublicationPart::SignatureUpload]
    }
}

/// The parts a first publication hands to the pump, in upstream's order.
pub fn queue_publication(has_device_keys: bool) -> (parts: Vec<PublicationPart>)
    ensures
        parts@ == spec_publication(has_device_keys),
{
    let mut parts: Vec<PublicationPart> = Vec::new();
    if has_device_keys {
        parts.push(PublicationPart::DeviceKeysUpload);
    }
    parts.push(PublicationPart::SigningKeysUpload);
    parts.push(PublicationPart::SignatureUpload);
    proof {
        assert(parts@ =~= spec_publication(has_device_keys));
    }
    parts
}

/// The parts a republication hands to the pump: never the signing-keys
/// upload.
pub fn queue_republication(has_device_keys: bool) -> (parts: Vec<PublicationPart>)
    ensures
        parts@ == spec_republication(has_device_keys),
{
    let mut parts: Vec<PublicationPart> = Vec::new();
    if has_device_keys {
        parts.push(PublicationPart::DeviceKeysUpload);
    }
    parts.push(PublicationPart::SignatureUpload);
    proof {
        assert(parts@ =~= spec_republication(has_device_keys));
    }
    parts
}

/// The call made on every launch never hands over the request that can
/// replace an identity, and a publication always does, after the device
/// keys and before the signatures.
pub proof fn a_republication_never_replaces_an_identity(has_device_keys: bool)
    ensures
        !spec_republication(has_device_keys).contains(PublicationPart::SigningKeysUpload),
        spec_publication(has_device_keys).contains(PublicationPart::SigningKeysUpload),
        spec_publication(has_device_keys).last() == PublicationPart::SignatureUpload,
{
    let r = spec_republication(has_device_keys);
    let p = spec_publication(has_device_keys);
    assert(forall|i: int| 0 <= i < r.len() ==> r[i] != PublicationPart::SigningKeysUpload);
    if has_device_keys {
        assert(p[1] == PublicationPart::SigningKeysUpload);
    } else {
        assert(p[0] == PublicationPart::SigningKeysUpload);
    }
}

/// What a call that refused has to do besides refusing.
#[derive(Debug, Clone, PartialEq, Eq)]
pub struct Refusal {
    /// The error the caller is given.
    pub error: MachineError,
    /// Whether a key query about this account is queued with the refusal,
    /// so that the refusal is recoverable by pumping.
    pub queue_account_key_query: bool,
}

/// A refusal queues the account key query exactly when it says the account
/// keys have not been fetched.
pub open spec fn refusal_for(error: MachineError) -> Refusal {
    Refusal {
        error,
        queue_account_key_query: error is AccountKeysNotFetched,
    }
}

/// The decision `bootstrap_identity` makes: republish the identity this
/// device holds, or refuse, queueing the key query that lifts an
/// `AccountKeysNotFetched` refusal.
pub fn bootstrap_identity_step(status: &IdentityStatus) -> (r: Result<(), Refusal>)
    ensures
        r is Ok <==> spec_may_publish(*status) is Ok,
        r is Err ==> spec_may_publish(*status) == Err::<(), MachineError>(r->Err_0.error),
        r is Err ==> r->Err_0 == refusal_for(r->Err_0.error),
{
    match may_publish(status) {
        Ok(()) => Ok(()),
        Err(error) => {
            let queue = match error {
                MachineError::AccountKeysNotFetched => true,
                _ => false,
            };
            Err(Refusal { error, queue_account_key_query: queue })
        },
    }
}

/// The process-wide facts the signing rules keep between calls: whether the
/// private signing keys were held at the last look, and where the count of
/// settled answers about this account stood when `create_identity` last
/// asked a question of its own.
///
/// Neither is persisted: a process that reopens a store has asked nothing.
pub struct SigningState {
    private_keys_held: bool,
    publication_asked_after: Option<u64>,
}

impl SigningState {
    /// Whether the private signing keys were held at the last look.
    pub closed spec fn keys_held(&self) -> bool {
        self.private_keys_held
    }

    /// The settled-answer count at `create_identity`'s outstanding ask.
    pub closed spec fn asked_after(&self) -> Option<u64> {
        self.publication_asked_after
    }

    /// Whether an answer about this account has settled since the last ask.
    pub open spec fn spec_fresh(&self, answers_settled: u64) -> bool {
        fresh_since(self.asked_after(), answers_settled)
    }

    /// A process that has just started: no keys seen, no question asked.
    pub fn new() -> (state: SigningState)
        ensures
            !state.keys_held(),
            state.asked_after() is None,
    {
        SigningState { private_keys_held: false, publication_asked_after: None }
    }

    /// Records what a machine holds at the moment it is created or reopened.
    pub fn seed_private_keys_held(&mut self, held: bool)
        ensures
            final(self).keys_held() == held,
            final(self).asked_after() == old(self).asked_after(),
    {
        self.private_keys_held = held;
    }

    /// Records what the machine holds now, and answers whether that is an
    /// arrival: true exactly when the keys are held now and were not at the
    /// last look.
    pub fn note_private_keys_held(&mut self, held_now: bool) -> (news: bool)
        ensures
            news == arrival_is_news(old(self).keys_held(), held_now),
            final(self).keys_held() == held_now,
            final(self).asked_after() == old(self).asked_after(),
    {
        let before = self.private_keys_held;
        self.private_keys_held = held_now;
        held_now && !before
    }

    /// Records that `create_identity` has just queued a key query of its
    /// own, against the current count of settled answers.
    pub fn note_publication_asked(&mut self, answers_settled: u64)
        ensures
            final(self).asked_after() == Some(answers_settled),
            final(self).keys_held() == old(self).keys_held(),
    {
        self.publication_asked_after = Some(answers_settled);
    }

    /// Whether an answer about this account has settled since
    /// `create_identity` asked for one; `false` with no ask outstanding.
    pub fn publication_answer_is_fresh(&self, answers_settled: u64) -> (fresh: bool)
        ensures
            fresh == self.spec_fresh(answers_settled),
    {
        match self.publication_asked_after {
            Some(asked) => answers_settled > asked,
            None => false,
        }
    }

    /// Spends the fresh answer a publication was served on, so the next
    /// creation asks again.
    pub fn spend_publication_ask(&mut self)
        ensures
            final(self).asked_after() is None,
            final(self).keys_held() == old(self).keys_held(),
    {
        self.publication_asked_after = None;
    }

    /// Forgets any outstanding ask, together with the count it was measured
    /// against.
    pub fn forget_publication_ask_for_test(&mut self)
        ensures
            final(self).asked_after() is None,
            final(self).keys_held() == old(self).keys_held(),
    {
        self.spend_publication_ask();
    }

    /// The decision `create_identity` makes.
    ///
    /// Refuses with `AccountKeysNotFetched` or `IdentityAlreadyExists` by
    /// `may_create`; otherwise refuses with `AccountKeysStale` unless an
    /// answer has settled since this call last asked. Every refusal for want
    /// of an answer records the ask and queues the key query. A served call
    /// spends the ask, so one fresh answer authorises one publication.
    pub fn create_identity_step(&mut self, status: &IdentityStatus, answers_settled: u64) -> (r: Result<(), Refusal>)
        ensures
            final(self).keys_held() == old(self).keys_held(),
            (r, final(self).asked_after()) == spec_create_step(old(self).asked_after(), *status, answers_settled),
    {
        match may_create(status) {
            Err(error) => {
                let not_fetched = match error {
                    MachineError::AccountKeysNotFetched => true,
                    _ => false,
                };
                if not_fetched {
                    self.note_publication_asked(answers_settled);
                }
                return Err(Refusal { error, queue_account_key_query: not_fetched });
            },
            Ok(()) => {},
        }
        if !self.publication_answer_is_fresh(answers_settled) {
            self.note_publication_asked(answers_settled);
            return Err(Refusal { error: MachineError::AccountKeysStale, queue_account_key_query: true });
        }
        self.spend_publication_ask();
        Ok(())
    }
}

/// Whether a look that finds the keys `held_now`, after a look that found
/// them `held_before`, is an arrival.
pub open spec fn arrival_is_news(held_before: bool, held_now: bool) -> bool {
    held_now && !held_before
}

/// Whether an answer has settled after an ask made at `asked`.
pub open spec fn fresh_since(asked: Option<u64>, answers_settled: u64) -> bool {
    match asked {
        Some(asked) => answers_settled > asked,
        None => false,
    }
}

/// What `create_identity` decides, and where its ask stands afterwards.
pub open spec fn spec_create_step(asked: Option<u64>, status: IdentityStatus, answers_settled: u64) -> (Result<(), Refusal>, Option<u64>) {
    match spec_may_create(status) {
        Err(error) => (
            Err(refusal_for(error)),
            if error is AccountKeysNotFetched { Some(answers_settled) } else { asked },
        ),
        Ok(()) => if !fresh_since(asked, answers_settled) {
            (Err(Refusal { error: MachineError::AccountKeysStale, queue_account_key_query: true }), Some(answers_settled))
        } else {
            (Ok(()), None)
        },
    }
}

/// An arrival of the private signing keys is news exactly once: of two
/// consecutive looks that both find them, only the first can be news, and
/// the first look that finds them after one that did not always is.
pub proof fn an_arrival_is_news_exactly_once(before: bool)
    ensures
        !(arrival_is_news(before, true) && arrival_is_news(true, true)),
        arrival_is_news(false, true),
        !arrival_is_news(before, false),
{
}

/// An answer already in hand when a creation asks is never fresh for it,
/// and a process with no outstanding ask has no fresh answer at all.
pub proof fn only_an_answer_after_the_ask_is_fresh(asked: u64, answers_settled: u64)
    ensures
        !fresh_since(Some(asked), asked),
        !fresh_since(None, answers_settled),
        fresh_since(Some(asked), answers_settled) <==> answers_settled > asked,
{
}

/// A creation on a stale answer is refused with its key query queued; once
/// an answer settles after that ask the next creation is served; and having
/// been served, the one after it asks again rather than reuse the answer.
pub proof fn one_fresh_answer_authorises_one_creation(
    asked: Option<u64>,
    status: IdentityStatus,
    settled: u64,
    later: u64,
)
    requires
        spec_may_create(status) is Ok,
        !fresh_since(asked, settled),
        later > settled,
    ensures
        spec_create_step(asked, status, settled).0 == Err::<(), Refusal>(
            Refusal { error: MachineError::AccountKeysStale, queue_account_key_query: true },
        ),
        spec_create_step(spec_create_step(asked, status, settled).1, status, later).0 is Ok,
        spec_create_step(spec_create_step(spec_create_step(asked, status, settled).1, status, later).1, status, later).0 is Err,
{
}

/// A creation refused because nobody has asked about the account records
/// its ask, and queues the question: so the first answer that settles
/// after it lets the next creation through. One refusal, one pump, one
/// retry.
pub proof fn a_refusal_for_an_unasked_account_records_the_ask(
    asked: Option<u64>,
    first: IdentityStatus,
    n: u64,
    second: IdentityStatus,
    m: u64,
)
    requires
        !first.account_keys_fetched,
        second.account_keys_fetched,
        !second.identity_known || second.identity_publication_pending,
        m > n,
    ensures
        spec_create_step(asked, first, n).0 == Err::<(), Refusal>(
            Refusal { error: MachineError::AccountKeysNotFetched, queue_account_key_query: true },
        ),
        spec_create_step(asked, first, n).1 == Some(n),
        spec_create_step(spec_create_step(asked, first, n).1, second, m).0 is Ok,
{
}

} // verus!
