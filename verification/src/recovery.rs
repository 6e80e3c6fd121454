//! Server-side storage of this account's private signing keys, and the
//! recovery that brings them back: which account data a recovery is made
//! of, in what order it is written, how it is found again, and how each way
//! of failing to open it is told apart.

use vstd::prelude::*;
use vstd::string::*;

use matrix_sdk_common::ruma::events::secret::request::SecretName;
use matrix_sdk_common::ruma::events::secret_storage::default_key::SecretStorageDefaultKeyEventContent;
use matrix_sdk_common::ruma::events::secret_storage::key::SecretStorageKeyEventContent;
use matrix_sdk_common::ruma::events::secret_storage::secret::SecretEventContent;
#[allow(unused_imports)]
use matrix_sdk_common::ruma::events::EventContentFromType;
use matrix_sdk_crypto::secret_storage::{AesHmacSha2EncryptedData, DecodeError, SecretStorageKey};
#[allow(unused_imports)]
use matrix_sdk_common::ruma::events::GlobalAccountDataEventContent;

use crate::machine::MachineError;
use crate::signing::{refusal_for, IdentityStatus, Refusal};
use crate::text::{json_string, push_json_string};

verus! {

/// One global account data event, as the homeserver stores it: its type,
/// and its content object as JSON, moved to and from the homeserver
/// unchanged.
#[derive(Debug, Clone, PartialEq, Eq)]
pub struct AccountDataEntry {
    pub event_type: String,
    pub content: String,
}

/// Everything `create_recovery` produced: the one secret to show the user,
/// and the account data to write, in order.
#[derive(Debug, Clone, PartialEq, Eq)]
pub struct RecoverySetup {
    /// The base58 recovery key, in groups of four characters. Not stored
    /// anywhere and never produced again.
    pub recovery_key: String,
    /// The key description, the pointer that makes it the default key, and
    /// one event per private signing key.
    pub account_data: Vec<AccountDataEntry>,
}

/// The three secrets a recovery carries, in the order they are written and
/// read.
#[derive(Debug, Clone, Copy, PartialEq, Eq, Structural)]
pub enum SecretKind {
    MasterKey,
    SelfSigningKey,
    UserSigningKey,
}

/// The account data event type of each secret.
pub open spec fn secret_event_type(kind: SecretKind) -> Seq<char> {
    match kind {
        SecretKind::MasterKey => "m.cross_signing.master"@,
        SecretKind::SelfSigningKey => "m.cross_signing.self_signing"@,
        SecretKind::UserSigningKey => "m.cross_signing.user_signing"@,
    }
}

/// The account data event type `ruma` gives a secret.
///
/// Calls `SecretName::as_str` on the cross-signing secret names, whose
/// strings `ruma` declares with `ruma_enum(rename = ..)`.
#[verifier::external_body]
pub(crate) fn secret_name(kind: SecretKind) -> (name: String)
    ensures
        name@ == secret_event_type(kind),
{
    let name = match kind {
        SecretKind::MasterKey => SecretName::CrossSigningMasterKey,
        SecretKind::SelfSigningKey => SecretName::CrossSigningSelfSigningKey,
        SecretKind::UserSigningKey => SecretName::CrossSigningUserSigningKey,
    };
    name.as_str().to_string()
}

/// The event type of the pointer naming the account's default key.
pub open spec fn spec_default_key_event_type() -> Seq<char> {
    "m.secret_storage.default_key"@
}

/// The default-key pointer's event type, built from `ruma`'s own content
/// type so the string comes from the same place the parse expects it.
///
/// Calls `GlobalAccountDataEventContent::event_type` on
/// `SecretStorageDefaultKeyEventContent`, which `ruma` declares with
/// `ruma_event(type = "m.secret_storage.default_key")`.
#[verifier::external_body]
pub(crate) fn default_key_event_type() -> (event_type: String)
    ensures
        event_type@ == spec_default_key_event_type(),
{
    SecretStorageDefaultKeyEventContent::new(String::new()).event_type().to_string()
}

/// The event type of the key description a key id names.
pub open spec fn spec_description_event_type(key_id: Seq<char>) -> Seq<char> {
    "m.secret_storage.key."@ + key_id
}

/// The key description's event type: it ends in the key's own id.
pub fn description_event_type(key_id: &String) -> (event_type: String)
    ensures
        event_type@ == spec_description_event_type(key_id@),
{
    let mut event_type = String::from_str("m.secret_storage.key.");
    event_type.append(key_id.as_str());
    event_type
}

/// Whether no entry of `account_data` has type `event_type`.
pub open spec fn lacks(account_data: Seq<AccountDataEntry>, event_type: Seq<char>) -> bool {
    forall|i: int| 0 <= i < account_data.len() ==> account_data[i].event_type@ != event_type
}

/// Whether `content` is the content of the first entry of type `event_type`.
pub open spec fn first_content(account_data: Seq<AccountDataEntry>, event_type: Seq<char>, content: String) -> bool {
    exists|i: int| 0 <= i < account_data.len() && account_data[i].event_type@ == event_type
        && (forall|j: int| 0 <= j < i ==> account_data[j].event_type@ != event_type)
        && content == account_data[i].content
}

/// The content of the first entry of type `event_type`, if there is one.
pub open spec fn lookup(account_data: Seq<AccountDataEntry>, event_type: Seq<char>) -> Option<Seq<char>>
    decreases account_data.len(),
{
    if account_data.len() == 0 {
        None
    } else if account_data[0].event_type@ == event_type {
        Some(account_data[0].content@)
    } else {
        lookup(account_data.drop_first(), event_type)
    }
}

/// The content of the first entry whose type matches, if any. The first,
/// not the only one: duplicates of a global account data type are the same
/// event by definition.
pub fn entry<'a>(account_data: &'a Vec<AccountDataEntry>, event_type: &String) -> (content: Option<&'a String>)
    ensures
        content is None <==> lacks(account_data@, event_type@),
        content is Some ==> first_content(account_data@, event_type@, *content->0),
        content is None <==> lookup(account_data@, event_type@) is None,
        content is Some ==> lookup(account_data@, event_type@) == Some(content->0@),
{
    proof {
        assert(account_data@.skip(0) =~= account_data@);
    }
    let mut i: usize = 0;
    while i < account_data.len()
        invariant
            i <= account_data@.len(),
            forall|j: int| 0 <= j < i ==> account_data@[j].event_type@ != event_type@,
            lookup(account_data@, event_type@) == lookup(account_data@.skip(i as int), event_type@),
        decreases account_data@.len() - i,
    {
        proof {
            assert(account_data@.skip(i as int)[0] == account_data@[i as int]);
            assert(account_data@.skip(i as int).drop_first() =~= account_data@.skip(i as int + 1));
        }
        if account_data[i].event_type == *event_type {
            proof {
                assert(first_content(account_data@, event_type@, account_data@[i as int].content));
            }
            return Some(&account_data[i].content);
        }
        i = i + 1;
    }
    proof {
        assert(account_data@.skip(i as int).len() == 0);
    }
    None
}

/// The pointer naming the default key, which a restore reads first; a
/// recovery without one was never set up.
pub fn default_key_entry(account_data: &Vec<AccountDataEntry>) -> (r: Result<&String, MachineError>)
    ensures
        r is Err <==> lacks(account_data@, spec_default_key_event_type()),
        r is Err <==> lookup(account_data@, spec_default_key_event_type()) is None,
        r is Err ==> r->Err_0 == MachineError::RecoveryNotSetUp,
        r is Ok ==> first_content(account_data@, spec_default_key_event_type(), *r->Ok_0),
        r is Ok ==> lookup(account_data@, spec_default_key_event_type()) == Some(r->Ok_0@),
{
    match entry(account_data, &default_key_event_type()) {
        Some(content) => Ok(content),
        None => Err(MachineError::RecoveryNotSetUp),
    }
}

/// The key description the pointer names, with its event type; a recovery
/// that lacks it was never set up.
pub fn description_entry<'a>(account_data: &'a Vec<AccountDataEntry>, key_id: &String) -> (r: Result<(String, &'a String), MachineError>)
    ensures
        r is Err <==> lacks(account_data@, spec_description_event_type(key_id@)),
        r is Err <==> lookup(account_data@, spec_description_event_type(key_id@)) is None,
        r is Err ==> r->Err_0 == MachineError::RecoveryNotSetUp,
        r is Ok ==> r->Ok_0.0@ == spec_description_event_type(key_id@)
            && first_content(account_data@, spec_description_event_type(key_id@), *r->Ok_0.1)
            && lookup(account_data@, spec_description_event_type(key_id@)) == Some(r->Ok_0.1@),
{
    let event_type = description_event_type(key_id);
    match entry(account_data, &event_type) {
        Some(content) => Ok((event_type, content)),
        None => Err(MachineError::RecoveryNotSetUp),
    }
}

/// The stored, encrypted form of one secret; a recovery that lacks it was
/// never set up.
pub fn secret_entry(account_data: &Vec<AccountDataEntry>, kind: SecretKind) -> (r: Result<&String, MachineError>)
    ensures
        r is Err <==> lacks(account_data@, secret_event_type(kind)),
        r is Err <==> lookup(account_data@, secret_event_type(kind)) is None,
        r is Err ==> r->Err_0 == MachineError::RecoveryNotSetUp,
        r is Ok ==> first_content(account_data@, secret_event_type(kind), *r->Ok_0),
        r is Ok ==> lookup(account_data@, secret_event_type(kind)) == Some(r->Ok_0@),
{
    match entry(account_data, &secret_name(kind)) {
        Some(content) => Ok(content),
        None => Err(MachineError::RecoveryNotSetUp),
    }
}

/// The ways upstream can fail to reconstruct the recovery key from a
/// secret, one per upstream `DecodeError` variant.
#[derive(Debug, Clone, Copy, PartialEq, Eq, Structural)]
pub enum DecodeFailure {
    Mac,
    Base58,
    KeyLength,
    Prefix,
    Parity,
    Base64,
    IvLength,
    MacLength,
    UnsupportedAlgorithm,
    KdfIterationCount,
}

/// Which decode failures are a wrong secret, and which a stored recovery no
/// secret will open. The five that describe the typed secret are a wrong
/// secret; the five that describe the stored key description are not.
pub open spec fn secret_was_wrong(failure: DecodeFailure) -> bool {
    match failure {
        DecodeFailure::Mac => true,
        DecodeFailure::Base58 => true,
        DecodeFailure::KeyLength => true,
        DecodeFailure::Prefix => true,
        DecodeFailure::Parity => true,
        _ => false,
    }
}

/// Classifies a decode failure: a wrong secret is `RecoveryKeyIncorrect`,
/// and asking again is the remedy; anything else is `RecoveryDataMalformed`,
/// and no secret will ever open it.
pub fn classify_decode_error(failure: DecodeFailure) -> (error: MachineError)
    ensures
        secret_was_wrong(failure) ==> error == MachineError::RecoveryKeyIncorrect,
        !secret_was_wrong(failure) ==> error == MachineError::RecoveryDataMalformed,
{
    match failure {
        DecodeFailure::Mac
        | DecodeFailure::Base58
        | DecodeFailure::KeyLength
        | DecodeFailure::Prefix
        | DecodeFailure::Parity => MachineError::RecoveryKeyIncorrect,
        DecodeFailure::Base64
        | DecodeFailure::IvLength
        | DecodeFailure::MacLength
        | DecodeFailure::UnsupportedAlgorithm
        | DecodeFailure::KdfIterationCount => MachineError::RecoveryDataMalformed,
    }
}

/// A wrong secret and an unreadable recovery are never reported alike.
pub proof fn a_typo_is_never_reported_as_destroyed_data(failure: DecodeFailure)
    ensures
        secret_was_wrong(failure) <==> failure == DecodeFailure::Mac || failure == DecodeFailure::Base58
            || failure == DecodeFailure::KeyLength || failure == DecodeFailure::Prefix || failure == DecodeFailure::Parity,
{
}

/// Whether a restore may proceed: only with the account's public identity
/// in the store, since upstream checks each seed against it and otherwise
/// imports nothing. Not having asked queues the key query that lifts it.
pub fn restore_gate(status: &IdentityStatus) -> (r: Result<(), Refusal>)
    ensures
        status.identity_known ==> r is Ok,
        !status.identity_known && !status.account_keys_fetched
            ==> r == Err::<(), Refusal>(refusal_for(MachineError::AccountKeysNotFetched)),
        !status.identity_known && status.account_keys_fetched
            ==> r == Err::<(), Refusal>(refusal_for(MachineError::IdentityNotKnown)),
{
    if !status.identity_known {
        if !status.account_keys_fetched {
            return Err(Refusal { error: MachineError::AccountKeysNotFetched, queue_account_key_query: true });
        }
        return Err(Refusal { error: MachineError::IdentityNotKnown, queue_account_key_query: false });
    }
    Ok(())
}

/// The three private signing keys, or the refusal for a device that does
/// not hold all three: a partial write would restore an incomplete
/// identity.
pub fn complete_export(
    master_key: Option<String>,
    self_signing_key: Option<String>,
    user_signing_key: Option<String>,
) -> (r: Result<(String, String, String), MachineError>)
    ensures
        (master_key is Some && self_signing_key is Some && user_signing_key is Some) <==> r is Ok,
        r is Err ==> r->Err_0 == MachineError::PrivateKeysNotHeld,
        r is Ok ==> r->Ok_0 == (master_key->0, self_signing_key->0, user_signing_key->0),
{
    match (master_key, self_signing_key, user_signing_key) {
        (Some(master), Some(self_signing), Some(user_signing)) => Ok((master, self_signing, user_signing)),
        _ => Err(MachineError::PrivateKeysNotHeld),
    }
}

/// The account data a recovery is written as, in the order it is written:
/// the key description, then the pointer naming it the default key, then
/// the master, self-signing and user-signing keys.
pub open spec fn recovery_event_types(description_type: Seq<char>) -> Seq<Seq<char>> {
    seq![
        description_type,
        spec_default_key_event_type(),
        secret_event_type(SecretKind::MasterKey),
        secret_event_type(SecretKind::SelfSigningKey),
        secret_event_type(SecretKind::UserSigningKey),
    ]
}

/// Assembles the five account data events of a recovery, in the order they
/// are written. The pointer comes second, so a product that stops partway
/// never names a key description it did not write.
pub fn recovery_account_data(
    key_id: &String,
    description_content: String,
    default_key_content: String,
    secret_contents: (String, String, String),
) -> (account_data: Vec<AccountDataEntry>)
    ensures
        account_data@.len() == 5,
        account_data@.map_values(|e: AccountDataEntry| e.event_type@) == recovery_event_types(spec_description_event_type(key_id@)),
        account_data@[0].content == description_content,
        account_data@[1].content == default_key_content,
        account_data@[2].content == secret_contents.0,
        account_data@[3].content == secret_contents.1,
        account_data@[4].content == secret_contents.2,
{
    let (master, self_signing, user_signing) = secret_contents;
    let mut account_data: Vec<AccountDataEntry> = Vec::new();
    account_data.push(AccountDataEntry { event_type: description_event_type(key_id), content: description_content });
    account_data.push(AccountDataEntry { event_type: default_key_event_type(), content: default_key_content });
    account_data.push(AccountDataEntry { event_type: secret_name(SecretKind::MasterKey), content: master });
    account_data.push(AccountDataEntry { event_type: secret_name(SecretKind::SelfSigningKey), content: self_signing });
    account_data.push(AccountDataEntry { event_type: secret_name(SecretKind::UserSigningKey), content: user_signing });
    proof {
        assert(account_data@.map_values(|e: AccountDataEntry| e.event_type@)
            =~= recovery_event_types(spec_description_event_type(key_id@)));
    }
    account_data
}

/// The five event types of a recovery are pairwise distinct, whatever the
/// key id.
proof fn lemma_recovery_types_distinct(key_id: Seq<char>)
    ensures
        forall|i: int, j: int| #![trigger recovery_event_types(spec_description_event_type(key_id))[i], recovery_event_types(spec_description_event_type(key_id))[j]]
            0 <= i < j < 5 ==> recovery_event_types(spec_description_event_type(key_id))[i]
                != recovery_event_types(spec_description_event_type(key_id))[j],
{
    reveal_strlit("m.secret_storage.key.");
    reveal_strlit("m.secret_storage.default_key");
    reveal_strlit("m.cross_signing.master");
    reveal_strlit("m.cross_signing.self_signing");
    reveal_strlit("m.cross_signing.user_signing");
    let types = recovery_event_types(spec_description_event_type(key_id));
    let description = spec_description_event_type(key_id);
    assert(description[2] == 's' && description[17] == 'k');
    assert(types[1][2] == 's' && types[1][17] == 'd');
    assert(types[2][2] == 'c' && types[2][16] == 'm');
    assert(types[3][2] == 'c' && types[3][16] == 's');
    assert(types[4][2] == 'c' && types[4][16] == 'u');
}

/// A recovery written here is found again: in the account data
/// `recovery_account_data` writes, a restore that looks up the pointer, the
/// key description and each secret by type reads exactly the event written
/// for it, whatever the key id.
pub proof fn a_written_recovery_is_found_again(key_id: Seq<char>, account_data: Seq<AccountDataEntry>)
    requires
        account_data.len() == 5,
        account_data.map_values(|e: AccountDataEntry| e.event_type@) == recovery_event_types(spec_description_event_type(key_id)),
    ensures
        first_content(account_data, spec_description_event_type(key_id), account_data[0].content),
        first_content(account_data, spec_default_key_event_type(), account_data[1].content),
        first_content(account_data, secret_event_type(SecretKind::MasterKey), account_data[2].content),
        first_content(account_data, secret_event_type(SecretKind::SelfSigningKey), account_data[3].content),
        first_content(account_data, secret_event_type(SecretKind::UserSigningKey), account_data[4].content),
{
    lemma_recovery_types_distinct(key_id);
    let types = recovery_event_types(spec_description_event_type(key_id));
    assert forall|k: int| 0 <= k < 5 implies account_data[k].event_type@ == #[trigger] types[k] by {
        assert(account_data.map_values(|e: AccountDataEntry| e.event_type@)[k] == account_data[k].event_type@);
    }
    assert forall|k: int, j: int| 0 <= j < k < 5 implies #[trigger] account_data[j].event_type@ != #[trigger] types[k] by {
        assert(types[j] != types[k]);
        assert(account_data[j].event_type@ == types[j]);
    }
    assert(account_data[0].event_type@ == types[0]);
    assert(account_data[1].event_type@ == types[1]);
    assert(account_data[2].event_type@ == types[2]);
    assert(account_data[3].event_type@ == types[3]);
    assert(account_data[4].event_type@ == types[4]);
}

/// How a failed import is reported: a store failure by its shape, anything
/// else, a seed that is not a signing key or one written for an identity
/// the account has since replaced, as a recovery that cannot be read.
pub fn import_failure(store_failure: bool) -> (error: MachineError)
    ensures
        store_failure ==> (error matches MachineError::Store { detail } && detail@ == crate::machine::store_failed_detail()),
        !store_failure ==> error == MachineError::RecoveryDataMalformed,
{
    if store_failure {
        crate::machine::store_failed()
    } else {
        MachineError::RecoveryDataMalformed
    }
}

/// Whether an import that reported no error took effect: every path that
/// imports supplies all three seeds, so an incomplete identity afterwards
/// means upstream stored none of them, and success is not reported for it.
pub fn import_outcome(identity_complete: bool) -> (r: Result<(), MachineError>)
    ensures
        identity_complete <==> r is Ok,
        r is Err ==> r->Err_0 == MachineError::RecoveryDataMalformed,
{
    if identity_complete {
        Ok(())
    } else {
        Err(MachineError::RecoveryDataMalformed)
    }
}

#[verifier::external_type_specification]
#[verifier::external_body]
pub struct ExSecretStorageKey(SecretStorageKey);

#[verifier::external_type_specification]
#[verifier::external_body]
pub struct ExSecretStorageKeyEventContent(SecretStorageKeyEventContent);

#[verifier::external_type_specification]
#[verifier::external_body]
pub struct ExDecodeError(DecodeError);

/// The content of the pointer naming `key_id` the default key, as written.
pub open spec fn default_key_text(key_id: Seq<char>) -> Seq<char> {
    "{\"key\":"@ + json_string(key_id) + "}"@
}

/// The content of the pointer that makes `key_id` the account's default
/// key: a JSON object whose `key` is the key id.
pub fn default_key_content(key_id: &String) -> (content: String)
    ensures
        content@ == default_key_text(key_id@),
{
    let mut content = String::from_str("{\"key\":");
    push_json_string(&mut content, key_id.as_str());
    content.append("}");
    proof {
        assert(content@ =~= default_key_text(key_id@));
    }
    content
}

/// The key id a pointer's content names, as the homeserver stores it.
pub uninterp spec fn spec_pointer_key_id(content: Seq<char>) -> Option<Seq<char>>;

/// Reads the key id out of a default-key pointer's content.
///
/// Calls `serde_json::from_str` into ruma's
/// `SecretStorageDefaultKeyEventContent`, whose one field `key_id` is
/// renamed `key`. The contract names the outcome, and states that the
/// content this library writes for a key id reads back as that key id.
#[verifier::external_body]
fn pointer_key_id(content: &str) -> (key_id: Option<String>)
    ensures
        key_id is Some <==> spec_pointer_key_id(content@) is Some,
        key_id is Some ==> key_id->0@ == spec_pointer_key_id(content@)->0,
        forall|k: Seq<char>| content@ == default_key_text(k) ==> (key_id is Some && key_id->0@ == k),
{
    serde_json::from_str::<SecretStorageDefaultKeyEventContent>(content).ok().map(|pointer| pointer.key_id)
}

/// How decrypting one stored secret can fail: it holds nothing under the
/// key id, or what it holds does not open.
#[derive(Debug, Clone, Copy, PartialEq, Eq, Structural)]
pub enum SecretFailure {
    NotSetUp,
    Malformed,
}

/// A key description as stored, read into ruma's content type, with the
/// text it was read from.
pub struct Description {
    content: SecretStorageKeyEventContent,
    description_type: String,
    description: String,
}

impl Description {
    /// The event type and content text this description was read from.
    pub closed spec fn origin(&self) -> (Seq<char>, Seq<char>) {
        (self.description_type@, self.description@)
    }
}

/// Whether a key description's type and content read as a description.
pub uninterp spec fn spec_description_reads(description_type: Seq<char>, description: Seq<char>) -> bool;

/// Reads a key description.
///
/// Calls `serde_json::value::RawValue::from_string` and then
/// `EventContentFromType::from_parts` for `SecretStorageKeyEventContent`,
/// which takes the key id from the event type. The contract names whether
/// it reads, and ties the result to what it was read from.
#[verifier::external_body]
fn read_description(description_type: &str, description: &str) -> (r: Option<Description>)
    ensures
        r is Some <==> spec_description_reads(description_type@, description@),
        r is Some ==> r->0.origin() == (description_type@, description@),
{
    let raw = serde_json::value::RawValue::from_string(description.to_string()).ok()?;
    let content = SecretStorageKeyEventContent::from_parts(description_type, &raw).ok()?;
    Some(Description { content, description_type: description_type.to_string(), description: description.to_string() })
}

/// The secret storage key, with the secret and description it was opened
/// from.
pub struct RecoveryKey {
    key: SecretStorageKey,
    secret: String,
    description_type: String,
    description: String,
}

impl RecoveryKey {
    /// The secret, description type and description this key was opened
    /// from, or written with.
    pub closed spec fn origin(&self) -> (Seq<char>, Seq<char>, Seq<char>) {
        (self.secret@, self.description_type@, self.description@)
    }

    /// The description this key was opened from, or written with.
    pub fn description(&self) -> (description: &String)
        ensures
            description@ == self.origin().2,
    {
        &self.description
    }
}

/// How opening a description with a secret fails, if it does.
pub uninterp spec fn spec_open_key(secret: Seq<char>, description_type: Seq<char>, description: Seq<char>) -> Option<DecodeFailure>;

/// Tells upstream's decode errors apart.
#[verifier::external_body]
fn decode_failure(error: DecodeError) -> DecodeFailure {
    match error {
        DecodeError::Mac(_) => DecodeFailure::Mac,
        DecodeError::Base58(_) => DecodeFailure::Base58,
        DecodeError::KeyLength(_, _) => DecodeFailure::KeyLength,
        DecodeError::Prefix(_, _) => DecodeFailure::Prefix,
        DecodeError::Parity(_, _) => DecodeFailure::Parity,
        DecodeError::Base64(_) => DecodeFailure::Base64,
        DecodeError::IvLength(_, _) => DecodeFailure::IvLength,
        DecodeError::MacLength(_, _) => DecodeFailure::MacLength,
        DecodeError::UnsupportedAlgorithm(_) => DecodeFailure::UnsupportedAlgorithm,
        DecodeError::KdfIterationCount(_) => DecodeFailure::KdfIterationCount,
    }
}

/// Opens the secret storage key a description describes, with a passphrase
/// or a recovery key.
///
/// Calls `SecretStorageKey::from_account_data`, which derives or decodes
/// the key and checks it against the description's MAC; the contract names
/// the outcome as a function of the secret and the description's text.
#[verifier::external_body]
fn open_key(secret: &str, description: Description) -> (r: Result<RecoveryKey, DecodeFailure>)
    ensures
        r is Ok <==> spec_open_key(secret@, description.origin().0, description.origin().1) is None,
        r is Err ==> spec_open_key(secret@, description.origin().0, description.origin().1) == Some(r->Err_0),
        r is Ok ==> r->Ok_0.origin() == (secret@, description.origin().0, description.origin().1),
{
    let Description { content, description_type, description } = description;
    match SecretStorageKey::from_account_data(secret, content) {
        Ok(key) => Ok(RecoveryKey { key, secret: secret.to_string(), description_type, description }),
        Err(error) => Err(decode_failure(error)),
    }
}

#[verifier::external_type_specification]
#[verifier::external_body]
pub struct ExAesHmacSha2EncryptedData(AesHmacSha2EncryptedData);

/// The bytes UTF-8 writes one character as.
pub open spec fn utf8_char(c: char) -> Seq<u8> {
    let n = c as u32;
    if n < 0x80 {
        seq![n as u8]
    } else if n < 0x800 {
        seq![(0xC0 + n / 64) as u8, (0x80 + n % 64) as u8]
    } else if n < 0x10000 {
        seq![(0xE0 + n / 4096) as u8, (0x80 + (n / 64) % 64) as u8, (0x80 + n % 64) as u8]
    } else {
        seq![(0xF0 + n / 262144) as u8, (0x80 + (n / 4096) % 64) as u8, (0x80 + (n / 64) % 64) as u8, (0x80 + n % 64) as u8]
    }
}

/// The bytes UTF-8 writes a text as.
pub open spec fn utf8_encode(text: Seq<char>) -> Seq<u8>
    decreases text.len(),
{
    if text.len() == 0 {
        Seq::empty()
    } else {
        utf8_encode(text.drop_last()) + utf8_char(text.last())
    }
}

/// The text some bytes are the UTF-8 of, if they are valid UTF-8.
pub uninterp spec fn spec_utf8_decode(bytes: Seq<u8>) -> Option<Seq<char>>;

/// Reads bytes as UTF-8 text.
///
/// Calls `String::from_utf8`, which std documents as succeeding exactly on
/// valid UTF-8; the contract names the outcome and states that the UTF-8
/// of a text reads back as that text.
#[verifier::external_body]
fn utf8_text(bytes: Vec<u8>) -> (text: Option<String>)
    ensures
        text is Some <==> spec_utf8_decode(bytes@) is Some,
        text is Some ==> text->0@ == spec_utf8_decode(bytes@)->0,
        forall|t: Seq<char>| bytes@ == utf8_encode(t) ==> (text is Some && text->0@ == t),
{
    String::from_utf8(bytes).ok()
}

/// Pairs of texts by their views.
pub open spec fn text_pairs(pairs: Seq<(String, String)>) -> Seq<(Seq<char>, Seq<char>)> {
    pairs.map_values(|p: (String, String)| (p.0@, p.1@))
}

/// The content of a stored secret holding `data` under `key_id`, as written.
pub open spec fn envelope_text(key_id: Seq<char>, data: Seq<char>) -> Seq<char> {
    "{\"encrypted\":{"@ + json_string(key_id) + ":"@ + data + "}}"@
}

/// Whether a text is written as one JSON object, from its opening brace to
/// its closing one.
pub open spec fn object_text(text: Seq<char>) -> bool {
    text.len() > 1 && text[0] == '{' && text[text.len() - 1] == '}'
}

/// Whether a text reads as encrypted data.
pub uninterp spec fn spec_encrypted_reads(data: Seq<char>) -> bool;

/// The `(key id, encrypted data)` entries a stored secret's content holds,
/// the data as the JSON text it was stored as, if the content parses.
pub uninterp spec fn spec_secret_entries(content: Seq<char>) -> Option<Seq<(Seq<char>, Seq<char>)>>;

/// Reads the entries of a stored secret.
///
/// Calls `serde_json::from_str` into ruma's `SecretEventContent`, whose one
/// field `encrypted` maps each key id to the encrypted data kept as raw
/// JSON, and hands out each entry with the raw text. The contract names
/// the outcome, and states that the content this library writes for one
/// key id reads back as that one entry.
#[verifier::external_body]
fn secret_entries(content: &str) -> (entries: Option<Vec<(String, String)>>)
    ensures
        entries is Some <==> spec_secret_entries(content@) is Some,
        entries is Some ==> text_pairs(entries->0@) == spec_secret_entries(content@)->0,
        forall|k: Seq<char>, d: Seq<char>| content@ == envelope_text(k, d) && object_text(d) && spec_encrypted_reads(d)
            ==> (entries is Some && text_pairs(entries->0@) == seq![(k, d)]),
{
    let stored: SecretEventContent = serde_json::from_str(content).ok()?;
    Some(stored.encrypted.iter().map(|(key_id, data)| (key_id.clone(), data.json().get().to_owned())).collect())
}

/// Encrypted data read from its JSON text, with the text.
pub struct EncryptedData {
    data: AesHmacSha2EncryptedData,
    text: String,
}

impl EncryptedData {
    /// The text this data was read from.
    pub closed spec fn origin(&self) -> Seq<char> {
        self.text@
    }
}

/// Reads encrypted data.
///
/// Calls `serde_json::from_str` into upstream's `AesHmacSha2EncryptedData`.
/// The contract names whether it reads, and ties the result to its text.
#[verifier::external_body]
fn read_encrypted(text: &str) -> (data: Option<EncryptedData>)
    ensures
        data is Some <==> spec_encrypted_reads(text@),
        data is Some ==> data->0.origin() == text@,
{
    let data: AesHmacSha2EncryptedData = serde_json::from_str(text).ok()?;
    Some(EncryptedData { data, text: text.to_string() })
}

/// What decrypting encrypted data for a secret with a key opened from
/// `secret` and a description gives, if its MAC checks.
pub uninterp spec fn spec_decrypt(
    secret: Seq<char>,
    description_type: Seq<char>,
    description: Seq<char>,
    data: Seq<char>,
    kind: SecretKind,
) -> Option<Seq<u8>>;

/// Decrypts encrypted data for one secret.
///
/// Calls `SecretStorageKey::decrypt` with the secret's name, which checks
/// the MAC before it decrypts. The contract names the outcome as a function
/// of where the key and the data came from.
#[verifier::external_body]
fn decrypt(key: &RecoveryKey, data: &EncryptedData, kind: SecretKind) -> (plaintext: Option<Vec<u8>>)
    ensures
        plaintext is Some <==> spec_decrypt(key.origin().0, key.origin().1, key.origin().2, data.origin(), kind) is Some,
        plaintext is Some ==> plaintext->0@ == spec_decrypt(key.origin().0, key.origin().1, key.origin().2, data.origin(), kind)->0,
{
    let name = match kind {
        SecretKind::MasterKey => SecretName::CrossSigningMasterKey,
        SecretKind::SelfSigningKey => SecretName::CrossSigningSelfSigningKey,
        SecretKind::UserSigningKey => SecretName::CrossSigningUserSigningKey,
    };
    key.key.decrypt(&data.data, &name).ok()
}

/// Encrypts a seed for one secret, as the JSON text of the encrypted data.
///
/// Calls `SecretStorageKey::encrypt` with the secret's name on the seed's
/// UTF-8, which draws a random IV, and writes the result with
/// `serde_json::to_value` and `to_string`, members in name order. The
/// result is random; the contract states what holds of every outcome, as upstream's own documentation shows: the text is one JSON
/// object that reads as encrypted data, and decrypting it with the same key
/// gives the seed's bytes back.
#[verifier::external_body]
fn encrypt(key: &RecoveryKey, seed: &str, kind: SecretKind) -> (data: String)
    ensures
        object_text(data@),
        spec_encrypted_reads(data@),
        spec_decrypt(key.origin().0, key.origin().1, key.origin().2, data@, kind) == Some(utf8_encode(seed@)),
{
    let name = match kind {
        SecretKind::MasterKey => SecretName::CrossSigningMasterKey,
        SecretKind::SelfSigningKey => SecretName::CrossSigningSelfSigningKey,
        SecretKind::UserSigningKey => SecretName::CrossSigningUserSigningKey,
    };
    serde_json::to_value(key.key.encrypt(seed.as_bytes().to_vec(), &name)).map(|data| data.to_string()).unwrap_or_default()
}

/// The content of a stored secret holding `data` under `key_id`.
pub fn secret_envelope(key_id: &str, data: &str) -> (content: String)
    ensures
        content@ == envelope_text(key_id@, data@),
{
    let mut content = String::from_str("{\"encrypted\":{");
    push_json_string(&mut content, key_id);
    content.append(":");
    content.append(data);
    content.append("}}");
    proof {
        assert(content@ =~= envelope_text(key_id@, data@));
    }
    content
}

/// The data stored under `key_id`, the first entry for it, if any.
pub open spec fn entry_under(entries: Seq<(Seq<char>, Seq<char>)>, key_id: Seq<char>) -> Option<Seq<char>>
    decreases entries.len(),
{
    if entries.len() == 0 {
        None
    } else if entries[0].0 == key_id {
        Some(entries[0].1)
    } else {
        entry_under(entries.drop_first(), key_id)
    }
}

/// The data stored under a key id.
fn data_under<'a>(entries: &'a Vec<(String, String)>, key_id: &str) -> (data: Option<&'a String>)
    ensures
        data is None <==> entry_under(text_pairs(entries@), key_id@) is None,
        data is Some ==> entry_under(text_pairs(entries@), key_id@) == Some(data->0@),
{
    let ghost all = text_pairs(entries@);
    proof {
        assert(all.skip(0) =~= all);
    }
    let mut i: usize = 0;
    while i < entries.len()
        invariant
            i <= entries@.len(),
            all == text_pairs(entries@),
            entry_under(all, key_id@) == entry_under(all.skip(i as int), key_id@),
        decreases entries@.len() - i,
    {
        proof {
            assert(all.skip(i as int)[0] == all[i as int]);
            assert(all.skip(i as int).drop_first() =~= all.skip(i as int + 1));
        }
        if text_equal(entries[i].0.as_str(), key_id) {
            return Some(&entries[i].1);
        }
        i = i + 1;
    }
    proof {
        assert(all.skip(i as int).len() == 0);
    }
    None
}

/// Whether two texts are the same.
fn text_equal(a: &str, b: &str) -> (same: bool)
    ensures
        same == (a@ == b@),
{
    let n = a.unicode_len();
    if n != b.unicode_len() {
        return false;
    }
    let mut i: usize = 0;
    while i < n
        invariant
            n == a@.len(),
            n == b@.len(),
            i <= n,
            forall|j: int| 0 <= j < i ==> a@[j] == b@[j],
        decreases n - i,
    {
        if a.get_char(i) != b.get_char(i) {
            return false;
        }
        i = i + 1;
    }
    proof {
        assert(a@ =~= b@);
    }
    true
}

/// What reading one stored secret gives with a key opened from `secret`
/// and a description: nothing under the key id is a recovery never set up;
/// content that does not parse, data that does not read, a MAC that does
/// not check, or a seed that is not text, is a recovery that cannot be
/// read.
pub open spec fn spec_secret_outcome(
    secret: Seq<char>,
    description_type: Seq<char>,
    description: Seq<char>,
    key_id: Seq<char>,
    content: Seq<char>,
    kind: SecretKind,
) -> Result<Seq<char>, SecretFailure> {
    match spec_secret_entries(content) {
        None => Err(SecretFailure::Malformed),
        Some(entries) => match entry_under(entries, key_id) {
            None => Err(SecretFailure::NotSetUp),
            Some(data) => if !spec_encrypted_reads(data) {
                Err(SecretFailure::Malformed)
            } else {
                match spec_decrypt(secret, description_type, description, data, kind) {
                    None => Err(SecretFailure::Malformed),
                    Some(bytes) => match spec_utf8_decode(bytes) {
                        None => Err(SecretFailure::Malformed),
                        Some(seed) => Ok(seed),
                    },
                }
            },
        },
    }
}

/// Decrypts the seed a stored secret holds under `key_id`.
fn decrypt_secret(key: &RecoveryKey, key_id: &str, content: &str, kind: SecretKind) -> (r: Result<String, SecretFailure>)
    ensures
        r is Ok <==> spec_secret_outcome(key.origin().0, key.origin().1, key.origin().2, key_id@, content@, kind) is Ok,
        r is Ok ==> r->Ok_0@ == spec_secret_outcome(key.origin().0, key.origin().1, key.origin().2, key_id@, content@, kind)->Ok_0,
        r is Err ==> r->Err_0 == spec_secret_outcome(key.origin().0, key.origin().1, key.origin().2, key_id@, content@, kind)->Err_0,
        forall|d: Seq<char>, t: Seq<char>| #[trigger] sealed(key.origin(), key_id@, content@, d, kind, t) ==> (r is Ok && r->Ok_0@ == t),
{
    let entries = match secret_entries(content) {
        Some(entries) => entries,
        None => return Err(SecretFailure::Malformed),
    };
    let text = match data_under(&entries, key_id) {
        Some(text) => text,
        None => return Err(SecretFailure::NotSetUp),
    };
    let data = match read_encrypted(text.as_str()) {
        Some(data) => data,
        None => return Err(SecretFailure::Malformed),
    };
    let plaintext = match decrypt(key, &data, kind) {
        Some(plaintext) => plaintext,
        None => return Err(SecretFailure::Malformed),
    };
    match utf8_text(plaintext) {
        Some(seed) => Ok(seed),
        None => Err(SecretFailure::Malformed),
    }
}

/// The content of a stored secret holding `seed` encrypted with `key`
/// under `key_id`.
fn encrypt_secret(key: &RecoveryKey, key_id: &str, seed: &str, kind: SecretKind) -> (content: String)
    ensures
        exists|data: Seq<char>| #[trigger] sealed(key.origin(), key_id@, content@, data, kind, seed@),
{
    let data = encrypt(key, seed, kind);
    let content = secret_envelope(key_id, data.as_str());
    proof {
        assert(sealed(key.origin(), key_id@, content@, data@, kind, seed@));
    }
    content
}

/// Whether `content` holds, under `key_id`, encrypted `data` that reads and
/// decrypts with a key from `origin` to the UTF-8 of `seed`.
pub open spec fn sealed(
    origin: (Seq<char>, Seq<char>, Seq<char>),
    key_id: Seq<char>,
    content: Seq<char>,
    data: Seq<char>,
    kind: SecretKind,
    seed: Seq<char>,
) -> bool {
    &&& content == envelope_text(key_id, data)
    &&& object_text(data)
    &&& spec_encrypted_reads(data)
    &&& spec_decrypt(origin.0, origin.1, origin.2, data, kind) == Some(utf8_encode(seed))
}

/// Whether every base58 digit of a recovery key is in the Bitcoin alphabet.
pub open spec fn base58_digit(c: char) -> bool {
    ('1' <= c <= '9' || 'A' <= c <= 'Z' || 'a' <= c <= 'z') && c != 'I' && c != 'O' && c != 'l'
}

/// The form a recovery key is shown in: base58 digits in groups of four
/// separated by single spaces.
pub open spec fn recovery_key_form(key: Seq<char>) -> bool {
    &&& key.len() > 40
    &&& key[key.len() - 1] != ' '
    &&& forall|i: int| 0 <= i < key.len() ==> (if i % 5 == 4 { #[trigger] key[i] == ' ' } else { base58_digit(key[i]) })
}

/// Whether a secret opens the description the passphrase opens, to the
/// same key.
pub open spec fn opens_like(
    secret: Seq<char>,
    passphrase: Seq<char>,
    description_type: Seq<char>,
    description: Seq<char>,
) -> bool {
    &&& spec_open_key(secret, description_type, description) is None
    &&& forall|data: Seq<char>, kind: SecretKind| #[trigger] spec_decrypt(secret, description_type, description, data, kind)
        == spec_decrypt(passphrase, description_type, description, data, kind)
}

/// A new secret storage key derived from `passphrase`.
///
/// Calls `SecretStorageKey::new_from_passphrase`, which draws a random salt
/// and key id, then reads the key's id, event type, description content
/// (serialised with `serde_json::to_string`) and base58 recovery key. The
/// result is random; the contract states what holds of every outcome: the
/// description's type names the key id; the description opens again with
/// the same passphrase; and the recovery key, base58 in groups of four,
/// opens it too, to the same key.
#[verifier::external_body]
fn new_recovery_key(passphrase: &str) -> (made: (RecoveryKey, String, String))
    ensures
        made.0.origin().0 == passphrase@,
        made.0.origin().1 == spec_description_event_type(made.1@),
        spec_description_reads(made.0.origin().1, made.0.origin().2),
        spec_open_key(passphrase@, made.0.origin().1, made.0.origin().2) is None,
        opens_like(made.2@, passphrase@, made.0.origin().1, made.0.origin().2),
        recovery_key_form(made.2@),
{
    let key = SecretStorageKey::new_from_passphrase(passphrase);
    let key_id = key.key_id().to_string();
    let description = serde_json::to_string(key.event_content()).unwrap_or_default();
    let description_type = key.event_type().to_string();
    let recovery_key = key.to_base58();
    (RecoveryKey { key, secret: passphrase.to_string(), description_type, description }, key_id, recovery_key)
}

/// The error a decode failure is reported as.
pub open spec fn decode_error_for(failure: DecodeFailure) -> MachineError {
    if secret_was_wrong(failure) {
        MachineError::RecoveryKeyIncorrect
    } else {
        MachineError::RecoveryDataMalformed
    }
}

/// What reading one secret of a recovery gives: its stored content by
/// type, decrypted under the key id, with a missing secret reported as a
/// recovery never set up and one that does not open as unreadable.
pub open spec fn secret_step(
    secret: Seq<char>,
    description_type: Seq<char>,
    description: Seq<char>,
    key_id: Seq<char>,
    account_data: Seq<AccountDataEntry>,
    kind: SecretKind,
) -> Result<Seq<char>, MachineError> {
    match lookup(account_data, secret_event_type(kind)) {
        None => Err(MachineError::RecoveryNotSetUp),
        Some(content) => match spec_secret_outcome(secret, description_type, description, key_id, content, kind) {
            Ok(seed) => Ok(seed),
            Err(SecretFailure::NotSetUp) => Err(MachineError::RecoveryNotSetUp),
            Err(SecretFailure::Malformed) => Err(MachineError::RecoveryDataMalformed),
        },
    }
}

/// What opening a recovery gives, step by step: the identity gate; the
/// pointer, which must be there and name a key id; the key description it
/// names, which must be there and read; the key, opened with the secret;
/// then each of the three secrets in turn.
pub open spec fn spec_open_recovery(
    status: IdentityStatus,
    secret: Seq<char>,
    account_data: Seq<AccountDataEntry>,
) -> Result<(Seq<char>, Seq<char>, Seq<char>), MachineError> {
    if !status.identity_known {
        if !status.account_keys_fetched {
            Err(MachineError::AccountKeysNotFetched)
        } else {
            Err(MachineError::IdentityNotKnown)
        }
    } else {
        match lookup(account_data, spec_default_key_event_type()) {
            None => Err(MachineError::RecoveryNotSetUp),
            Some(pointer) => match spec_pointer_key_id(pointer) {
                None => Err(MachineError::RecoveryDataMalformed),
                Some(key_id) => {
                    let description_type = spec_description_event_type(key_id);
                    match lookup(account_data, description_type) {
                        None => Err(MachineError::RecoveryNotSetUp),
                        Some(description) => if !spec_description_reads(description_type, description) {
                            Err(MachineError::RecoveryDataMalformed)
                        } else {
                            match spec_open_key(secret, description_type, description) {
                                Some(failure) => Err(decode_error_for(failure)),
                                None => match secret_step(secret, description_type, description, key_id, account_data, SecretKind::MasterKey) {
                                    Err(e) => Err(e),
                                    Ok(master) => match secret_step(secret, description_type, description, key_id, account_data, SecretKind::SelfSigningKey) {
                                        Err(e) => Err(e),
                                        Ok(self_signing) => match secret_step(secret, description_type, description, key_id, account_data, SecretKind::UserSigningKey) {
                                            Err(e) => Err(e),
                                            Ok(user_signing) => Ok((master, self_signing, user_signing)),
                                        },
                                    },
                                },
                            }
                        },
                    }
                },
            },
        }
    }
}

/// The refusal for an error.
fn refuse(error: MachineError) -> (refusal: Refusal)
    ensures
        refusal == refusal_for(error),
{
    let queue = match &error {
        MachineError::AccountKeysNotFetched => true,
        _ => false,
    };
    Refusal { error, queue_account_key_query: queue }
}

/// Reads and decrypts one secret of a recovery.
fn open_secret(key: &RecoveryKey, key_id: &String, account_data: &Vec<AccountDataEntry>, kind: SecretKind) -> (r: Result<String, Refusal>)
    ensures
        r is Ok <==> secret_step(key.origin().0, key.origin().1, key.origin().2, key_id@, account_data@, kind) is Ok,
        r is Ok ==> r->Ok_0@ == secret_step(key.origin().0, key.origin().1, key.origin().2, key_id@, account_data@, kind)->Ok_0,
        r is Err ==> r->Err_0 == refusal_for(secret_step(key.origin().0, key.origin().1, key.origin().2, key_id@, account_data@, kind)->Err_0),
        forall|d: Seq<char>, t: Seq<char>| lookup(account_data@, secret_event_type(kind)) is Some
            && #[trigger] sealed(key.origin(), key_id@, lookup(account_data@, secret_event_type(kind))->0, d, kind, t)
            ==> (r is Ok && r->Ok_0@ == t),
{
    let content = match secret_entry(account_data, kind) {
        Ok(content) => content,
        Err(error) => return Err(refuse(error)),
    };
    match decrypt_secret(key, key_id.as_str(), content.as_str(), kind) {
        Ok(seed) => Ok(seed),
        Err(SecretFailure::NotSetUp) => Err(refuse(MachineError::RecoveryNotSetUp)),
        Err(SecretFailure::Malformed) => Err(refuse(MachineError::RecoveryDataMalformed)),
    }
}

/// Opens a recovery with a passphrase or recovery key: the three private
/// signing keys it holds, or the refusal that says why not. A recovery
/// cannot be opened before the account's public identity is in the store,
/// and not having asked queues the key query that lifts that. A missing
/// event is a recovery never set up; a wrong secret is told apart from a
/// stored recovery no secret will open.
pub fn open_recovery(status: &IdentityStatus, secret: &str, account_data: &Vec<AccountDataEntry>) -> (r: Result<(String, String, String), Refusal>)
    ensures
        r is Ok <==> spec_open_recovery(*status, secret@, account_data@) is Ok,
        r is Ok ==> (r->Ok_0.0@, r->Ok_0.1@, r->Ok_0.2@) == spec_open_recovery(*status, secret@, account_data@)->Ok_0,
        r is Err ==> r->Err_0 == refusal_for(spec_open_recovery(*status, secret@, account_data@)->Err_0),
        forall|p: Seq<char>, k: Seq<char>, seeds: (Seq<char>, Seq<char>, Seq<char>)|
            status.identity_known && #[trigger] written_recovery(p, k, account_data@, seeds) && opens_written(secret@, p, k, account_data@)
                ==> (r is Ok && (r->Ok_0.0@, r->Ok_0.1@, r->Ok_0.2@) == seeds),
{
    restore_gate(status)?;
    let pointer = match default_key_entry(account_data) {
        Ok(pointer) => pointer,
        Err(error) => {
            proof {
                assert forall|p: Seq<char>, k: Seq<char>, seeds: (Seq<char>, Seq<char>, Seq<char>)|
                    #[trigger] written_recovery(p, k, account_data@, seeds) implies false by {
                    lemma_written_lookups(p, k, account_data@, seeds);
                }
            }
            return Err(refuse(error));
        },
    };
    let key_id = match pointer_key_id(pointer.as_str()) {
        Some(key_id) => key_id,
        None => {
            proof {
                assert forall|p: Seq<char>, k: Seq<char>, seeds: (Seq<char>, Seq<char>, Seq<char>)|
                    #[trigger] written_recovery(p, k, account_data@, seeds) implies false by {
                    lemma_written_lookups(p, k, account_data@, seeds);
                    assert(pointer@ == default_key_text(k));
                }
            }
            return Err(refuse(MachineError::RecoveryDataMalformed));
        },
    };
    proof {
        assert forall|p: Seq<char>, k: Seq<char>, seeds: (Seq<char>, Seq<char>, Seq<char>)|
            #[trigger] written_recovery(p, k, account_data@, seeds) implies k == key_id@ by {
            lemma_written_lookups(p, k, account_data@, seeds);
            assert(pointer@ == default_key_text(k));
        }
    }
    let (description_type, description) = match description_entry(account_data, &key_id) {
        Ok(found) => found,
        Err(error) => {
            proof {
                assert forall|p: Seq<char>, k: Seq<char>, seeds: (Seq<char>, Seq<char>, Seq<char>)|
                    #[trigger] written_recovery(p, k, account_data@, seeds) implies false by {
                    lemma_written_lookups(p, k, account_data@, seeds);
                }
            }
            return Err(refuse(error));
        },
    };
    let description = match read_description(description_type.as_str(), description.as_str()) {
        Some(description) => description,
        None => {
            proof {
                assert forall|p: Seq<char>, k: Seq<char>, seeds: (Seq<char>, Seq<char>, Seq<char>)|
                    #[trigger] written_recovery(p, k, account_data@, seeds) implies false by {
                    lemma_written_lookups(p, k, account_data@, seeds);
                }
            }
            return Err(refuse(MachineError::RecoveryDataMalformed));
        },
    };
    let key = match open_key(secret, description) {
        Ok(key) => key,
        Err(failure) => {
            proof {
                assert forall|p: Seq<char>, k: Seq<char>, seeds: (Seq<char>, Seq<char>, Seq<char>)|
                    #[trigger] written_recovery(p, k, account_data@, seeds) && opens_written(secret@, p, k, account_data@) implies false by {
                    lemma_written_lookups(p, k, account_data@, seeds);
                }
            }
            return Err(refuse(classify_decode_error(failure)));
        },
    };
    let ghost origin = key.origin();
    proof {
        assert forall|p: Seq<char>, k: Seq<char>, seeds: (Seq<char>, Seq<char>, Seq<char>)|
            #[trigger] written_recovery(p, k, account_data@, seeds) && opens_written(secret@, p, k, account_data@) implies {
                &&& lookup(account_data@, secret_event_type(SecretKind::MasterKey)) == Some(account_data@[2].content@)
                &&& lookup(account_data@, secret_event_type(SecretKind::SelfSigningKey)) == Some(account_data@[3].content@)
                &&& lookup(account_data@, secret_event_type(SecretKind::UserSigningKey)) == Some(account_data@[4].content@)
                &&& (exists|d: Seq<char>| #[trigger] sealed(origin, key_id@, account_data@[2].content@, d, SecretKind::MasterKey, seeds.0))
                &&& (exists|d: Seq<char>| #[trigger] sealed(origin, key_id@, account_data@[3].content@, d, SecretKind::SelfSigningKey, seeds.1))
                &&& (exists|d: Seq<char>| #[trigger] sealed(origin, key_id@, account_data@[4].content@, d, SecretKind::UserSigningKey, seeds.2))
            } by {
            lemma_written_lookups(p, k, account_data@, seeds);
            let written = (p, spec_description_event_type(k), account_data@[0].content@);
            assert(origin == (secret@, written.1, written.2));
            let dm = choose|d: Seq<char>| #[trigger] sealed(written, k, account_data@[2].content@, d, SecretKind::MasterKey, seeds.0);
            let ds = choose|d: Seq<char>| #[trigger] sealed(written, k, account_data@[3].content@, d, SecretKind::SelfSigningKey, seeds.1);
            let du = choose|d: Seq<char>| #[trigger] sealed(written, k, account_data@[4].content@, d, SecretKind::UserSigningKey, seeds.2);
            if secret@ != p {
                assert(spec_decrypt(secret@, written.1, written.2, dm, SecretKind::MasterKey) == spec_decrypt(p, written.1, written.2, dm, SecretKind::MasterKey));
                assert(spec_decrypt(secret@, written.1, written.2, ds, SecretKind::SelfSigningKey) == spec_decrypt(p, written.1, written.2, ds, SecretKind::SelfSigningKey));
                assert(spec_decrypt(secret@, written.1, written.2, du, SecretKind::UserSigningKey) == spec_decrypt(p, written.1, written.2, du, SecretKind::UserSigningKey));
            }
            assert(sealed(origin, key_id@, account_data@[2].content@, dm, SecretKind::MasterKey, seeds.0));
            assert(sealed(origin, key_id@, account_data@[3].content@, ds, SecretKind::SelfSigningKey, seeds.1));
            assert(sealed(origin, key_id@, account_data@[4].content@, du, SecretKind::UserSigningKey, seeds.2));
        }
    }
    let master = open_secret(&key, &key_id, account_data, SecretKind::MasterKey)?;
    let self_signing = open_secret(&key, &key_id, account_data, SecretKind::SelfSigningKey)?;
    let user_signing = open_secret(&key, &key_id, account_data, SecretKind::UserSigningKey)?;
    Ok((master, self_signing, user_signing))
}

/// What a recovery written for `key_id` under `passphrase` is: the five
/// events in order, the pointer naming the key id, a key description that
/// reads and opens with the passphrase, and three secrets sealed under it
/// with the seeds.
pub open spec fn written_recovery(
    passphrase: Seq<char>,
    key_id: Seq<char>,
    account_data: Seq<AccountDataEntry>,
    seeds: (Seq<char>, Seq<char>, Seq<char>),
) -> bool {
    let description_type = spec_description_event_type(key_id);
    let description = account_data[0].content@;
    let origin = (passphrase, description_type, description);
    &&& account_data.len() == 5
    &&& account_data.map_values(|e: AccountDataEntry| e.event_type@) == recovery_event_types(description_type)
    &&& account_data[1].content@ == default_key_text(key_id)
    &&& spec_description_reads(description_type, description)
    &&& spec_open_key(passphrase, description_type, description) is None
    &&& exists|data: Seq<char>| #[trigger] sealed(origin, key_id, account_data[2].content@, data, SecretKind::MasterKey, seeds.0)
    &&& exists|data: Seq<char>| #[trigger] sealed(origin, key_id, account_data[3].content@, data, SecretKind::SelfSigningKey, seeds.1)
    &&& exists|data: Seq<char>| #[trigger] sealed(origin, key_id, account_data[4].content@, data, SecretKind::UserSigningKey, seeds.2)
}

/// The three seeds of a complete export, or none.
pub open spec fn complete_seeds(export: Option<(Option<String>, Option<String>, Option<String>)>) -> Option<(String, String, String)> {
    match export {
        Some((Some(master), Some(self_signing), Some(user_signing))) => Some((master, self_signing, user_signing)),
        _ => None,
    }
}

/// Writes a recovery of this device's private signing keys, exported as
/// `export`, under a new key derived from `passphrase`: the account data,
/// in writing order, and the recovery key to show once, which opens the
/// recovery as the passphrase does. A device that does not hold all three
/// keys is refused, and nothing is written.
pub fn create_recovery(
    passphrase: &str,
    export: Option<(Option<String>, Option<String>, Option<String>)>,
) -> (r: Result<RecoverySetup, MachineError>)
    ensures
        r is Err <==> complete_seeds(export) is None,
        r is Err ==> r->Err_0 == MachineError::PrivateKeysNotHeld,
        r is Ok ==> {
            let seeds = complete_seeds(export)->0;
            let setup = r->Ok_0;
            &&& setup.account_data@.len() == 5
            &&& recovery_key_form(setup.recovery_key@)
            &&& exists|key_id: Seq<char>| #[trigger] written_recovery(passphrase@, key_id, setup.account_data@, (seeds.0@, seeds.1@, seeds.2@))
                && opens_like(setup.recovery_key@, passphrase@, spec_description_event_type(key_id), setup.account_data@[0].content@)
        },
{
    let (master, self_signing, user_signing) = match export {
        Some((master, self_signing, user_signing)) => match complete_export(master, self_signing, user_signing) {
            Ok(seeds) => seeds,
            Err(error) => return Err(error),
        },
        None => return Err(MachineError::PrivateKeysNotHeld),
    };
    let ghost seeds = (master@, self_signing@, user_signing@);
    let (key, key_id, recovery_key) = new_recovery_key(passphrase);
    let pointer = default_key_content(&key_id);
    let master = encrypt_secret(&key, key_id.as_str(), master.as_str(), SecretKind::MasterKey);
    let self_signing = encrypt_secret(&key, key_id.as_str(), self_signing.as_str(), SecretKind::SelfSigningKey);
    let user_signing = encrypt_secret(&key, key_id.as_str(), user_signing.as_str(), SecretKind::UserSigningKey);
    let ghost contents = (master@, self_signing@, user_signing@);
    let description = key.description().clone();
    let account_data = recovery_account_data(&key_id, description, pointer, (master, self_signing, user_signing));
    proof {
        let origin = key.origin();
        assert(origin == (passphrase@, spec_description_event_type(key_id@), account_data@[0].content@));
        let dm = choose|d: Seq<char>| #[trigger] sealed(origin, key_id@, contents.0, d, SecretKind::MasterKey, seeds.0);
        let ds = choose|d: Seq<char>| #[trigger] sealed(origin, key_id@, contents.1, d, SecretKind::SelfSigningKey, seeds.1);
        let du = choose|d: Seq<char>| #[trigger] sealed(origin, key_id@, contents.2, d, SecretKind::UserSigningKey, seeds.2);
        assert(sealed(origin, key_id@, account_data@[2].content@, dm, SecretKind::MasterKey, seeds.0));
        assert(sealed(origin, key_id@, account_data@[3].content@, ds, SecretKind::SelfSigningKey, seeds.1));
        assert(sealed(origin, key_id@, account_data@[4].content@, du, SecretKind::UserSigningKey, seeds.2));
        assert(written_recovery(passphrase@, key_id@, account_data@, seeds));
        let c = complete_seeds(export)->0;
        assert(seeds == (c.0@, c.1@, c.2@));
        assert(opens_like(recovery_key@, passphrase@, spec_description_event_type(key_id@), account_data@[0].content@));
        assert(written_recovery(passphrase@, key_id@, account_data@, (c.0@, c.1@, c.2@))
            && opens_like(recovery_key@, passphrase@, spec_description_event_type(key_id@), account_data@[0].content@));
    }
    Ok(RecoverySetup { recovery_key, account_data })
}

/// The first entry of a type is the one a lookup reads.
proof fn lemma_lookup_first(account_data: Seq<AccountDataEntry>, event_type: Seq<char>, k: int)
    requires
        0 <= k < account_data.len(),
        account_data[k].event_type@ == event_type,
        forall|j: int| 0 <= j < k ==> account_data[j].event_type@ != event_type,
    ensures
        lookup(account_data, event_type) == Some(account_data[k].content@),
    decreases k,
{
    if k > 0 {
        let rest = account_data.drop_first();
        assert forall|j: int| 0 <= j < k - 1 implies rest[j].event_type@ != event_type by {
            assert(rest[j] == account_data[j + 1]);
        }
        lemma_lookup_first(rest, event_type, k - 1);
        assert(rest[k - 1] == account_data[k]);
    }
}

/// In a written recovery, each of the five types is looked up to the event
/// written for it.
proof fn lemma_written_lookups(
    passphrase: Seq<char>,
    key_id: Seq<char>,
    account_data: Seq<AccountDataEntry>,
    seeds: (Seq<char>, Seq<char>, Seq<char>),
)
    requires
        written_recovery(passphrase, key_id, account_data, seeds),
    ensures
        lookup(account_data, spec_description_event_type(key_id)) == Some(account_data[0].content@),
        lookup(account_data, spec_default_key_event_type()) == Some(account_data[1].content@),
        lookup(account_data, secret_event_type(SecretKind::MasterKey)) == Some(account_data[2].content@),
        lookup(account_data, secret_event_type(SecretKind::SelfSigningKey)) == Some(account_data[3].content@),
        lookup(account_data, secret_event_type(SecretKind::UserSigningKey)) == Some(account_data[4].content@),
{
    let types = recovery_event_types(spec_description_event_type(key_id));
    lemma_recovery_types_distinct(key_id);
    assert forall|k: int| 0 <= k < 5 implies account_data[k].event_type@ == #[trigger] types[k] by {
        assert(account_data.map_values(|e: AccountDataEntry| e.event_type@)[k] == account_data[k].event_type@);
    }
    assert forall|k: int, j: int| 0 <= j < k < 5 implies #[trigger] account_data[j].event_type@ != #[trigger] types[k] by {
        assert(types[j] != types[k]);
        assert(account_data[j].event_type@ == types[j]);
    }
    assert(account_data[0].event_type@ == types[0]);
    assert(account_data[1].event_type@ == types[1]);
    assert(account_data[2].event_type@ == types[2]);
    assert(account_data[3].event_type@ == types[3]);
    assert(account_data[4].event_type@ == types[4]);
    lemma_lookup_first(account_data, types[1], 1);
    lemma_lookup_first(account_data, types[0], 0);
    lemma_lookup_first(account_data, types[2], 2);
    lemma_lookup_first(account_data, types[3], 3);
    lemma_lookup_first(account_data, types[4], 4);
}

/// Whether `secret` is one a recovery written for `key_id` under
/// `passphrase` opens with: the passphrase, or a secret that opens its
/// description as the passphrase does.
pub open spec fn opens_written(
    secret: Seq<char>,
    passphrase: Seq<char>,
    key_id: Seq<char>,
    account_data: Seq<AccountDataEntry>,
) -> bool {
    secret == passphrase || opens_like(secret, passphrase, spec_description_event_type(key_id), account_data[0].content@)
}

} // verus!
