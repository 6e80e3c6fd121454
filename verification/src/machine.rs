//! The process-wide crypto machine: its configuration, its errors, and the
//! rules for creating, reopening and validating it.

use vstd::prelude::*;
use vstd::string::*;

use crate::text::push_char;

verus! {

/// Every error this library reports about the crypto machine.
///
/// No variant carries key material, ciphertext, a passphrase, or an
/// identifier; the two that carry a `detail` carry one of a few fixed
/// strings.
#[derive(Debug, Clone, PartialEq, Eq)]
pub enum MachineError {
    /// No crypto machine has been created.
    NotInitialised,
    /// A crypto machine already exists with a different configuration.
    AlreadyInitialised,
    /// An identifier passed in did not parse, or did not match the live
    /// machine.
    MalformedIdentifier { detail: String },
    /// The crypto store failed.
    Store { detail: String },
    /// The store at the configured path belongs to a different account.
    MismatchedAccount,
    /// No verification flow with this identifier is known.
    UnknownFlow,
    /// The flow is not at a stage where this call applies.
    WrongStage,
    /// The short authentication string is not available yet.
    MaterialNotReady,
    /// The identifiers are well formed but no such device is in the store.
    UnknownDevice,
    /// This process has not yet been answered about this account's keys.
    AccountKeysNotFetched,
    /// The account already has a signing identity this device does not hold.
    IdentityAlreadyExists,
    /// The account has no signing identity to verify against or publish.
    IdentityNotKnown,
    /// This device does not hold the account's private signing keys.
    PrivateKeysNotHeld,
    /// No complete server-side recovery was supplied.
    RecoveryNotSetUp,
    /// The passphrase or recovery key does not open this recovery.
    RecoveryKeyIncorrect,
    /// The stored recovery could not be read.
    RecoveryDataMalformed,
    /// The account already has a server-side recovery.
    RecoveryAlreadyExists,
    /// The account keys were answered, but not since this call asked.
    AccountKeysStale,
}

/// The one detail string a store failure carries.
pub open spec fn store_failed_detail() -> Seq<char> {
    "the crypto store could not be opened"@
}

/// The detail of a store failure: only its shape, never an upstream
/// message, which can embed a path.
pub fn store_error_detail() -> (detail: String)
    ensures
        detail@ == store_failed_detail(),
{
    String::from_str("the crypto store could not be opened")
}

/// The error every upstream store failure is reported as.
pub fn store_failed() -> (error: MachineError)
    ensures
        error matches MachineError::Store { detail } && detail@ == store_failed_detail(),
{
    MachineError::Store { detail: store_error_detail() }
}


/// Everything needed to create or reopen the machine. The product supplies
/// the store path and passphrase; this library chooses neither.
///
/// No derived `Debug`: it would print the passphrase and the store path.
/// [`MachineConfig::debug_string`] renders it with both redacted.
#[derive(Clone, PartialEq, Eq)]
pub struct MachineConfig {
    pub user_id: String,
    pub device_id: String,
    pub store_path: String,
    pub store_passphrase: Option<String>,
}

/// Two configurations name the same account, store and passphrase.
pub open spec fn same_config(a: MachineConfig, b: MachineConfig) -> bool {
    &&& a.user_id@ == b.user_id@
    &&& a.device_id@ == b.device_id@
    &&& a.store_path@ == b.store_path@
    &&& match (a.store_passphrase, b.store_passphrase) {
        (Some(x), Some(y)) => x@ == y@,
        (None, None) => true,
        _ => false,
    }
}

/// How one character is written inside a quoted debug string.
pub open spec fn escape_char(c: char) -> Seq<char> {
    if c == '"' {
        seq!['\\', '"']
    } else if c == '\\' {
        seq!['\\', '\\']
    } else if c == '\n' {
        seq!['\\', 'n']
    } else if c == '\r' {
        seq!['\\', 'r']
    } else if c == '\t' {
        seq!['\\', 't']
    } else if c == '\0' {
        seq!['\\', '0']
    } else if (c as u32) < 16 {
        seq!['\\', 'u', '{', crate::probe::hex_digit(c as u32), '}']
    } else if (c as u32) < 32 || (127 <= (c as u32) && (c as u32) < 160) || (c as u32) == 173 {
        seq!['\\', 'u', '{', crate::probe::hex_digit((c as u32) / 16), crate::probe::hex_digit((c as u32) % 16), '}']
    } else {
        seq![c]
    }
}

/// A text with every character escaped for a quoted debug string.
pub open spec fn escaped(text: Seq<char>) -> Seq<char>
    decreases text.len(),
{
    if text.len() == 0 {
        Seq::empty()
    } else {
        escaped(text.drop_last()) + escape_char(text.last())
    }
}

/// A text as a debug string renders it: quoted, with quotes, backslashes
/// and the common control characters escaped.
pub open spec fn quoted(text: Seq<char>) -> Seq<char> {
    seq!['"'] + escaped(text) + seq!['"']
}

/// The redacted rendering of a configuration: the two identifiers in full,
/// the store path never, and of the passphrase only whether there is one.
pub open spec fn config_render(user_id: Seq<char>, device_id: Seq<char>, has_passphrase: bool) -> Seq<char> {
    "MachineConfig { user_id: "@ + quoted(user_id) + ", device_id: "@ + quoted(device_id)
        + ", store_path: \"[redacted]\", store_passphrase: "@
        + (if has_passphrase { "Some(\"[redacted]\")"@ } else { "None"@ }) + " }"@
}

/// Appends `text`, quoted and escaped.
pub(crate) fn push_quoted(out: &mut String, text: &String)
    ensures
        final(out)@ == old(out)@ + quoted(text@),
{
    push_char(out, '"');
    let s = text.as_str();
    let n = s.unicode_len();
    let ghost start = old(out)@;
    let mut i: usize = 0;
    while i < n
        invariant
            n == text@.len(),
            s@ == text@,
            i <= n,
            out@ == start + seq!['"'] + escaped(text@.take(i as int)),
        decreases n - i,
    {
        let c = s.get_char(i);
        let code = c as u32;
        let ghost before = out@;
        if c == '"' {
            push_char(out, '\\');
            push_char(out, '"');
        } else if c == '\\' {
            push_char(out, '\\');
            push_char(out, '\\');
        } else if c == '\n' {
            push_char(out, '\\');
            push_char(out, 'n');
        } else if c == '\r' {
            push_char(out, '\\');
            push_char(out, 'r');
        } else if c == '\t' {
            push_char(out, '\\');
            push_char(out, 't');
        } else if c == '\0' {
            push_char(out, '\\');
            push_char(out, '0');
        } else if code < 16 {
            push_char(out, '\\');
            push_char(out, 'u');
            push_char(out, '{');
            push_char(out, crate::probe::hex_char(code));
            push_char(out, '}');
        } else if code < 32 || (127 <= code && code < 160) || code == 173 {
            push_char(out, '\\');
            push_char(out, 'u');
            push_char(out, '{');
            push_char(out, crate::probe::hex_char(code / 16));
            push_char(out, crate::probe::hex_char(code % 16));
            push_char(out, '}');
        } else {
            push_char(out, c);
        }
        proof {
            assert(out@ =~= before + escape_char(c));
            assert(text@.take((i + 1) as int).drop_last() =~= text@.take(i as int));
            assert(text@.take((i + 1) as int).last() == c);
            assert(out@ =~= start + seq!['"'] + escaped(text@.take((i + 1) as int)));
        }
        i = i + 1;
    }
    push_char(out, '"');
    proof {
        assert(text@.take(n as int) =~= text@);
        assert(out@ =~= start + quoted(text@));
    }
}

impl MachineConfig {
    /// The configuration rendered for a log line: both identifiers, and the
    /// store path and passphrase redacted, with `None` still reading `None`
    /// so that a configuration without a passphrase does not look as
    /// though it carries one.
    pub fn debug_string(&self) -> (rendered: String)
        ensures
            rendered@ == config_render(self.user_id@, self.device_id@, self.store_passphrase is Some),
    {
        let mut out = String::from_str("MachineConfig { user_id: ");
        push_quoted(&mut out, &self.user_id);
        out.append(", device_id: ");
        push_quoted(&mut out, &self.device_id);
        out.append(", store_path: \"[redacted]\", store_passphrase: ");
        match &self.store_passphrase {
            Some(_) => out.append("Some(\"[redacted]\")"),
            None => out.append("None"),
        }
        out.append(" }");
        proof {
            assert(out@ =~= config_render(self.user_id@, self.device_id@, self.store_passphrase is Some));
        }
        out
    }
}

/// The redaction law: the rendering of a configuration reads neither its
/// store path nor its passphrase, only whether there is one, so two
/// configurations naming the same account render identically whatever
/// their secrets.
pub proof fn the_rendering_never_carries_the_path_or_passphrase(a: MachineConfig, b: MachineConfig)
    requires
        a.user_id@ == b.user_id@,
        a.device_id@ == b.device_id@,
        (a.store_passphrase is Some) == (b.store_passphrase is Some),
    ensures
        config_render(a.user_id@, a.device_id@, a.store_passphrase is Some)
            == config_render(b.user_id@, b.device_id@, b.store_passphrase is Some),
{
}

/// Whether two configurations are the same.
pub fn same_config_as(a: &MachineConfig, b: &MachineConfig) -> (same: bool)
    ensures
        same == same_config(*a, *b),
{
    if a.user_id != b.user_id || a.device_id != b.device_id || a.store_path != b.store_path {
        return false;
    }
    match (&a.store_passphrase, &b.store_passphrase) {
        (Some(x), Some(y)) => *x == *y,
        (None, None) => true,
        _ => false,
    }
}

/// What creating or reopening the machine has to do.
#[derive(Debug, Clone, Copy, PartialEq, Eq, Structural)]
pub enum InitStep {
    /// A machine with exactly this configuration is already held.
    AlreadyHeld,
    /// No machine is held: build one.
    Build,
}

/// The rule for `create_machine` and `open_store`: an identical existing
/// machine is accepted, a different one refused, and only with none held is
/// a store opened.
pub fn init_step(held: Option<&MachineConfig>, config: &MachineConfig) -> (step: Result<InitStep, MachineError>)
    ensures
        held is None ==> step == Ok::<InitStep, MachineError>(InitStep::Build),
        held is Some && same_config(*held->0, *config) ==> step == Ok::<InitStep, MachineError>(InitStep::AlreadyHeld),
        held is Some && !same_config(*held->0, *config) ==> step == Err::<InitStep, MachineError>(MachineError::AlreadyInitialised),
{
    match held {
        Some(existing) => {
            if same_config_as(existing, config) {
                Ok(InitStep::AlreadyHeld)
            } else {
                Err(MachineError::AlreadyInitialised)
            }
        },
        None => Ok(InitStep::Build),
    }
}

/// Two configurations are the same exactly when they name the same user,
/// device and store, with the same passphrase or none: a configuration
/// that differs in any of these, the store path included, is refused by
/// `init_step` while the other is held.
pub proof fn a_configuration_is_the_same_only_in_every_field(a: MachineConfig, b: MachineConfig)
    ensures
        same_config(a, b) ==> {
            &&& a.user_id@ == b.user_id@
            &&& a.device_id@ == b.device_id@
            &&& a.store_path@ == b.store_path@
            &&& (a.store_passphrase is Some <==> b.store_passphrase is Some)
            &&& (a.store_passphrase is Some ==> a.store_passphrase->0@ == b.store_passphrase->0@)
        },
        a.user_id@ == b.user_id@ && a.device_id@ == b.device_id@ && a.store_path@ == b.store_path@
            && (a.store_passphrase is Some <==> b.store_passphrase is Some)
            && (a.store_passphrase is Some ==> a.store_passphrase->0@ == b.store_passphrase->0@) ==> same_config(a, b),
{
}

/// Creating twice with the same configuration is not an error, and with a
/// different one is refused, whichever order the two arrive in.
pub proof fn creation_is_idempotent_and_exclusive(a: MachineConfig, b: MachineConfig)
    ensures
        same_config(a, a),
        same_config(a, b) == same_config(b, a),
{
}

/// Whether a text parses as a Matrix user identifier.
///
/// The grammar is the Matrix specification's, as `ruma` implements it.
pub uninterp spec fn spec_user_id_parses(user_id: Seq<char>) -> bool;

/// Asks `ruma` whether `user_id` parses as a user identifier.
///
/// Calls `str::parse::<OwnedUserId>`, which validates with
/// `ruma_identifiers_validation::user_id::validate`. The contract names the
/// answer, and states the two facts that validation plainly checks first:
/// the leading `@` sigil, and a `:` before the server name.
#[verifier::external_body]
fn user_id_parses(user_id: &str) -> (ok: bool)
    ensures
        ok == spec_user_id_parses(user_id@),
        ok ==> user_id@.len() > 0 && user_id@[0] == '@' && user_id@.contains(':'),
{
    user_id.parse::<matrix_sdk_common::ruma::OwnedUserId>().is_ok()
}

/// Whether `error` is the malformed-identifier error with this detail.
pub open spec fn is_malformed(error: MachineError, detail: Seq<char>) -> bool {
    error matches MachineError::MalformedIdentifier { detail: d } && d@ == detail
}

/// Parses a user id, reporting a malformed one as the caller's mistake.
pub fn parse_user_id(user_id: &str) -> (r: Result<(), MachineError>)
    ensures
        r is Ok <==> spec_user_id_parses(user_id@),
        r is Ok ==> user_id@.len() > 0 && user_id@[0] == '@' && user_id@.contains(':'),
        r is Err ==> is_malformed(r->Err_0, "user id"@),
{
    if user_id_parses(user_id) {
        Ok(())
    } else {
        Err(MachineError::MalformedIdentifier { detail: String::from_str("user id") })
    }
}

/// Checks the identifiers of one device: the user id must parse, and the
/// device id must not be empty; the user id is checked first.
pub fn check_identifiers(user_id: &str, device_id: &str) -> (r: Result<(), MachineError>)
    ensures
        r is Ok <==> spec_user_id_parses(user_id@) && device_id@.len() > 0,
        r is Ok ==> user_id@.len() > 0 && user_id@[0] == '@' && user_id@.contains(':'),
        !spec_user_id_parses(user_id@) ==> is_malformed(r->Err_0, "user id"@),
        spec_user_id_parses(user_id@) && device_id@.len() == 0 ==> is_malformed(r->Err_0, "device id"@),
{
    parse_user_id(user_id)?;
    if device_id.unicode_len() == 0 {
        return Err(MachineError::MalformedIdentifier { detail: String::from_str("device id") });
    }
    Ok(())
}

/// A configuration is checked before any store is touched.
pub fn validate_config(config: &MachineConfig) -> (r: Result<(), MachineError>)
    ensures
        r is Ok <==> spec_user_id_parses(config.user_id@) && config.device_id@.len() > 0,
        r is Ok ==> config.user_id@.len() > 0 && config.user_id@[0] == '@' && config.user_id@.contains(':'),
        !spec_user_id_parses(config.user_id@) ==> is_malformed(r->Err_0, "user id"@),
        spec_user_id_parses(config.user_id@) && config.device_id@.len() == 0 ==> is_malformed(r->Err_0, "device id"@),
{
    check_identifiers(config.user_id.as_str(), config.device_id.as_str())
}

/// How a failure to open the machine over its store is reported: a store
/// written by another account distinctly, anything else by its shape.
pub fn open_failure(mismatched_account: bool) -> (error: MachineError)
    ensures
        mismatched_account ==> error == MachineError::MismatchedAccount,
        !mismatched_account ==> (error matches MachineError::Store { detail } && detail@ == store_failed_detail()),
{
    if mismatched_account {
        MachineError::MismatchedAccount
    } else {
        store_failed()
    }
}

} // verus!
