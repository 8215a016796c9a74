//! How accounts are created, rotated, revoked and shown.

use vstd::prelude::*;
use vstd::string::*;
use vstd::utf8::*;

use crate::admission::Refusal;
use crate::authorization::{Authorization, AuthorizationError, AuthorizationEvent};
use crate::contract::{
    CreateServiceAccountError, CreateServiceAccountRequest, CreateServiceAccountResponse,
    GetServiceAccountError, GetServiceAccountRequest, ListServiceAccountsError,
    ListServiceAccountsRequest, Nullable, RevokeServiceAccountError, RevokeServiceAccountRequest,
    RevokeServiceAccountResponse, RotateServiceAccountSecretError,
    RotateServiceAccountSecretRequest, RotateServiceAccountSecretResponse, ServiceAccountSummary,
};
use crate::create::{Create, CreateEvent, IdentityReply};
use crate::crypto::{argon2_accepts, argon2id_phc, secret_bytes, CredentialSecret};
use crate::entry::{Entry, EntryEvent};
use crate::error::{CryptoError, Failure, ServiceAccountPluginError};
use crate::inspect::{Get, GetEvent, List, ListEvent};
use crate::instant::rfc3339_text;
use crate::laws::values::{is_secret_of, lemma_decimal_spells, lemma_spelled_once};
use crate::laws::{among, identifier, spells, url_safe};
use crate::lifecycle::ActiveServiceAccount;
use crate::management::{
    create_error, map_authorization, map_create_authorization, map_get_authorization,
    map_list_authorization, map_revoke_authorization, map_rotate_authorization, revoke_error,
    rotate_error, summary, AuthorizationDomain,
};
use crate::revoke::{Revoke, RevokeEvent};
use crate::rotate::{Rotate, RotateEvent};
use crate::rows::{AccountRow, CommandKey, Mutation};
use crate::storage::{NewAccount, Revocation, Rotation, StoreError};
use crate::text::{decimal_text, trimmed};

verus! {

/// `text` is the textual form of the instant, or both are missing.
pub open spec fn shows_time(text: Nullable<String>, t: Option<i128>) -> bool {
    match (text.0, t) {
        (Some(text), Some(t)) => text@ == rfc3339_text(t as int),
        (None, None) => true,
        _ => false,
    }
}

/// `shown` is what a manager sees of the row.
pub open spec fn shows_row(shown: ServiceAccountSummary, row: AccountRow) -> bool {
    &&& shown.service_account_id@ == row.service_account_id@
    &&& shown.organization_id@ == row.organization_id@
    &&& shown.subject@ == row.subject@
    &&& shown.name@ == row.name@
    &&& row.status@ == "active"@ || row.status@ == "revoked"@
    &&& shown.status is Active <==> row.status@ == "active"@
    &&& spells(shown.revision@, row.revision as int)
    &&& shown.created_at@ == rfc3339_text(row.created_at as int)
    &&& shows_time(shown.rotated_at, row.rotated_at)
    &&& shows_time(shown.revoked_at, row.revoked_at)
    &&& shows_time(shown.credential_expires_at, row.credential_expires_at)
}

/// The instant has a textual form.
pub open spec fn is_writable(t: i128) -> bool {
    -62_167_219_200_000_000_000 <= t < 253_402_300_800_000_000_000
}

/// A row cannot be shown: its status is unknown, or else one of its instants has
/// no textual form.
pub open spec fn cannot_be_shown(row: AccountRow, error: ServiceAccountPluginError) -> bool {
    if row.status@ != "active"@ && row.status@ != "revoked"@ {
        error.says("unknown service-account status"@)
    } else {
        &&& error is FormatTime
        &&& {
            ||| !is_writable(row.created_at)
            ||| row.rotated_at is Some && !is_writable(row.rotated_at.unwrap())
            ||| row.revoked_at is Some && !is_writable(row.revoked_at.unwrap())
            ||| row.credential_expires_at is Some && !is_writable(
                row.credential_expires_at.unwrap(),
            )
        }
    }
}

pub proof fn lemma_summarizes(shown: ServiceAccountSummary, row: AccountRow)
    requires
        crate::management::summarizes(shown, row@),
    ensures
        shows_row(shown, row),
{
    reveal_strlit("active");
    reveal_strlit("revoked");
    assert("active"@.len() != "revoked"@.len());
    lemma_decimal_spells(row.revision as int);
}

proof fn lemma_unsummarizable(error: ServiceAccountPluginError, row: AccountRow)
    requires
        crate::management::unsummarizable(error, row@),
    ensures
        cannot_be_shown(row, error),
{
    reveal_strlit("active");
    reveal_strlit("revoked");
    assert("active"@.len() != "revoked"@.len());
}

/// A summary shows the row as it is, and fails only where it cannot be shown.
pub proof fn summaries_show_the_row(
    row: &AccountRow,
    r: Result<ServiceAccountSummary, ServiceAccountPluginError>,
)
    requires
        call_ensures(summary, (row,), r),
    ensures
        match r {
            Ok(shown) => shows_row(shown, *row),
            Err(error) => cannot_be_shown(*row, error),
        },
{
    match r {
        Ok(shown) => lemma_summarizes(shown, *row),
        Err(error) => lemma_unsummarizable(error, *row),
    }
}

/// What the caller is told is told apart from what failed.
pub proof fn refusals_are_told_apart_from_failures(
    error: AuthorizationError,
    r: Result<AuthorizationDomain, Failure>,
)
    requires
        call_ensures(map_authorization, (error,), r),
    ensures
        match error {
            AuthorizationError::Forbidden => r == Ok::<_, Failure>(AuthorizationDomain::Forbidden),
            AuthorizationError::OrganizationNotFound => r == Ok::<_, Failure>(
                AuthorizationDomain::OrganizationNotFound,
            ),
            AuthorizationError::MembershipRequired => r == Ok::<_, Failure>(
                AuthorizationDomain::MembershipRequired,
            ),
            AuthorizationError::AccessDenied => r == Ok::<_, Failure>(
                AuthorizationDomain::AccessDenied,
            ),
            AuthorizationError::Runtime(failure) => r == Err::<AuthorizationDomain, _>(failure),
        },
{
}

/// A refused caller of `create` is told why, but for what failed on the way.
pub proof fn refused_callers_of_create_are_told_why(
    error: AuthorizationError,
    r: Result<CreateServiceAccountError, Failure>,
)
    requires
        call_ensures(map_create_authorization, (error,), r),
    ensures
        match error {
            AuthorizationError::Forbidden => r == Ok::<_, Failure>(
                CreateServiceAccountError::Forbidden,
            ),
            AuthorizationError::OrganizationNotFound => r == Ok::<_, Failure>(
                CreateServiceAccountError::OrganizationNotFound,
            ),
            AuthorizationError::MembershipRequired => r == Ok::<_, Failure>(
                CreateServiceAccountError::MembershipRequired,
            ),
            AuthorizationError::AccessDenied => r == Ok::<_, Failure>(
                CreateServiceAccountError::AccessDenied,
            ),
            AuthorizationError::Runtime(failure) => r == Err::<CreateServiceAccountError, _>(failure),
        },
{
}

/// A refused caller of `get` is told why, but for what failed on the way.
pub proof fn refused_callers_of_get_are_told_why(
    error: AuthorizationError,
    r: Result<GetServiceAccountError, Failure>,
)
    requires
        call_ensures(map_get_authorization, (error,), r),
    ensures
        match error {
            AuthorizationError::Forbidden => r == Ok::<_, Failure>(
                GetServiceAccountError::Forbidden,
            ),
            AuthorizationError::OrganizationNotFound => r == Ok::<_, Failure>(
                GetServiceAccountError::OrganizationNotFound,
            ),
            AuthorizationError::MembershipRequired => r == Ok::<_, Failure>(
                GetServiceAccountError::MembershipRequired,
            ),
            AuthorizationError::AccessDenied => r == Ok::<_, Failure>(
                GetServiceAccountError::AccessDenied,
            ),
            AuthorizationError::Runtime(failure) => r == Err::<GetServiceAccountError, _>(failure),
        },
{
}

/// A refused caller of `list` is told why, but for what failed on the way.
pub proof fn refused_callers_of_list_are_told_why(
    error: AuthorizationError,
    r: Result<ListServiceAccountsError, Failure>,
)
    requires
        call_ensures(map_list_authorization, (error,), r),
    ensures
        match error {
            AuthorizationError::Forbidden => r == Ok::<_, Failure>(
                ListServiceAccountsError::Forbidden,
            ),
            AuthorizationError::OrganizationNotFound => r == Ok::<_, Failure>(
                ListServiceAccountsError::OrganizationNotFound,
            ),
            AuthorizationError::MembershipRequired => r == Ok::<_, Failure>(
                ListServiceAccountsError::MembershipRequired,
            ),
            AuthorizationError::AccessDenied => r == Ok::<_, Failure>(
                ListServiceAccountsError::AccessDenied,
            ),
            AuthorizationError::Runtime(failure) => r == Err::<ListServiceAccountsError, _>(failure),
        },
{
}

/// A refused caller of `rotate_secret` is told why, but for what failed on the
/// way.
pub proof fn refused_callers_of_rotate_secret_are_told_why(
    error: AuthorizationError,
    r: Result<RotateServiceAccountSecretError, Failure>,
)
    requires
        call_ensures(map_rotate_authorization, (error,), r),
    ensures
        match error {
            AuthorizationError::Forbidden => r == Ok::<_, Failure>(
                RotateServiceAccountSecretError::Forbidden,
            ),
            AuthorizationError::OrganizationNotFound => r == Ok::<_, Failure>(
                RotateServiceAccountSecretError::OrganizationNotFound,
            ),
            AuthorizationError::MembershipRequired => r == Ok::<_, Failure>(
                RotateServiceAccountSecretError::MembershipRequired,
            ),
            AuthorizationError::AccessDenied => r == Ok::<_, Failure>(
                RotateServiceAccountSecretError::AccessDenied,
            ),
            AuthorizationError::Runtime(failure) => r == Err::<RotateServiceAccountSecretError, _>(failure),
        },
{
}

/// A refused caller of `revoke` is told why, but for what failed on the way.
pub proof fn refused_callers_of_revoke_are_told_why(
    error: AuthorizationError,
    r: Result<RevokeServiceAccountError, Failure>,
)
    requires
        call_ensures(map_revoke_authorization, (error,), r),
    ensures
        match error {
            AuthorizationError::Forbidden => r == Ok::<_, Failure>(
                RevokeServiceAccountError::Forbidden,
            ),
            AuthorizationError::OrganizationNotFound => r == Ok::<_, Failure>(
                RevokeServiceAccountError::OrganizationNotFound,
            ),
            AuthorizationError::MembershipRequired => r == Ok::<_, Failure>(
                RevokeServiceAccountError::MembershipRequired,
            ),
            AuthorizationError::AccessDenied => r == Ok::<_, Failure>(
                RevokeServiceAccountError::AccessDenied,
            ),
            AuthorizationError::Runtime(failure) => r == Err::<RevokeServiceAccountError, _>(failure),
        },
{
}

/// A recorded code of a creation stands for its error, and no other code for any.
pub proof fn recorded_codes_of_creations_are_read(
    code: &str,
    r: Result<CreateServiceAccountError, ServiceAccountPluginError>,
)
    requires
        call_ensures(create_error, (code,), r),
    ensures
        code@ == "name_conflict"@ ==> r == Ok::<_, ServiceAccountPluginError>(
            CreateServiceAccountError::NameConflict,
        ),
        code@ == "directory_rejected"@ ==> r == Ok::<_, ServiceAccountPluginError>(
            CreateServiceAccountError::DirectoryRejected,
        ),
        code@ == "too_many_service_accounts"@ ==> r == Ok::<_, ServiceAccountPluginError>(
            CreateServiceAccountError::TooManyServiceAccounts,
        ),
        code@ != "name_conflict"@
            && code@ != "directory_rejected"@
            && code@ != "too_many_service_accounts"@ ==> (r matches Err(error)
            && error.says("unknown create receipt error"@)),
{
    reveal_strlit("name_conflict");
    reveal_strlit("directory_rejected");
    reveal_strlit("too_many_service_accounts");
    assert("name_conflict"@.len() == 13);
    assert("directory_rejected"@.len() == 18);
    assert("too_many_service_accounts"@.len() == 25);
}

/// A recorded code of a rotation stands for its error, and no other code for any.
pub proof fn recorded_codes_of_rotations_are_read(
    code: &str,
    r: Result<RotateServiceAccountSecretError, ServiceAccountPluginError>,
)
    requires
        call_ensures(rotate_error, (code,), r),
    ensures
        code@ == "not_found"@ ==> r == Ok::<_, ServiceAccountPluginError>(
            RotateServiceAccountSecretError::NotFound,
        ),
        code@ == "revoked"@ ==> r == Ok::<_, ServiceAccountPluginError>(
            RotateServiceAccountSecretError::Revoked,
        ),
        code@ == "revision_conflict"@ ==> r == Ok::<_, ServiceAccountPluginError>(
            RotateServiceAccountSecretError::RevisionConflict,
        ),
        code@ != "not_found"@
            && code@ != "revoked"@
            && code@ != "revision_conflict"@ ==> (r matches Err(error)
            && error.says("unknown rotate receipt error"@)),
{
    reveal_strlit("not_found");
    reveal_strlit("revoked");
    reveal_strlit("revision_conflict");
    assert("not_found"@.len() == 9);
    assert("revoked"@.len() == 7);
    assert("revision_conflict"@.len() == 17);
}

/// A recorded code of a revocation stands for its error, and no other code for
/// any.
pub proof fn recorded_codes_of_revocations_are_read(
    code: &str,
    r: Result<RevokeServiceAccountError, ServiceAccountPluginError>,
)
    requires
        call_ensures(revoke_error, (code,), r),
    ensures
        code@ == "not_found"@ ==> r == Ok::<_, ServiceAccountPluginError>(
            RevokeServiceAccountError::NotFound,
        ),
        code@ == "revision_conflict"@ ==> r == Ok::<_, ServiceAccountPluginError>(
            RevokeServiceAccountError::RevisionConflict,
        ),
        code@ != "not_found"@ && code@ != "revision_conflict"@ ==> (r matches Err(error)
            && error.says("unknown revoke receipt error"@)),
{
    reveal_strlit("not_found");
    reveal_strlit("revision_conflict");
    assert("not_found"@.len() == 9);
    assert("revision_conflict"@.len() == 17);
}

/// The entry is that of a mutation by the caller, to be authorized to manage the
/// organization for this very operation.
pub open spec fn asks_to_manage(
    entry: Entry,
    active: ActiveServiceAccount,
    caller: String,
    operation: Seq<char>,
    organization_id: Seq<char>,
    idempotency_key: Seq<char>,
) -> bool {
    &&& entry matches Entry::Authorize {
        operation: own_operation,
        idempotency_key: own_key,
        retention_seconds,
        authorization,
    }
    &&& own_operation@ == operation
    &&& own_key@ == idempotency_key
    &&& retention_seconds == active.config.receipt_ttl_seconds
    &&& authorization matches Authorization::ProjectActor { caller: own, capability_id, scope }
    &&& own == caller
    &&& capability_id@ == "lenso.service-account@1"@
    &&& scope.operation@ == operation
    &&& scope.organization_id@ == organization_id
    &&& scope.permission@ == "service-account.manage"@
}

/// A creation needs two identifiers and a display name. Any other request is
/// invalid, and a caller that is not on the allowlist is forbidden.
pub proof fn creations_start_with_request_and_caller(
    active: &ActiveServiceAccount,
    caller: Option<String>,
    request: CreateServiceAccountRequest,
    r: Create,
)
    requires
        call_ensures(Create::start, (active, caller, request), r),
    ensures
        ({
            let well_formed = identifier(request.idempotency_key@, 128) && identifier(
                request.organization_id@,
                256,
            ) && 1 <= trimmed(request.name@).len() <= 128 && forall|i: int|
                0 <= i < trimmed(request.name@).len() ==> ' ' <= #[trigger] trimmed(
                    request.name@,
                )[i] <= '~';
            let known = caller is Some && among(active.config.management_callers@, caller.unwrap()@);
            if !well_formed {
                r == Create::Done(Err(CreateServiceAccountError::InvalidRequest))
            } else if !known {
                r == Create::Done(Err(CreateServiceAccountError::Forbidden))
            } else {
                &&& r matches Create::Enter { request: own, entry }
                &&& own == request
                &&& asks_to_manage(
                    entry,
                    *active,
                    caller.unwrap(),
                    "create"@,
                    request.organization_id@,
                    request.idempotency_key@,
                )
            }
        }),
{
}

/// A rotation needs three identifiers and a revision. Any other request is
/// invalid, and a caller that is not on the allowlist is forbidden.
pub proof fn rotations_start_with_request_and_caller(
    active: &ActiveServiceAccount,
    caller: Option<String>,
    request: RotateServiceAccountSecretRequest,
    r: Rotate,
)
    requires
        call_ensures(Rotate::start, (active, caller, request), r),
    ensures
        ({
            let well_formed = identifier(request.idempotency_key@, 128) && identifier(
                request.organization_id@,
                256,
            ) && identifier(request.service_account_id@, 128) && exists|n: int|
                1 <= n <= 0x7fff_ffff_ffff_ffff && #[trigger] spells(
                    request.expected_revision@,
                    n,
                );
            let known = caller is Some && among(active.config.management_callers@, caller.unwrap()@);
            if !well_formed {
                r == Rotate::Done(Err(RotateServiceAccountSecretError::InvalidRequest))
            } else if !known {
                r == Rotate::Done(Err(RotateServiceAccountSecretError::Forbidden))
            } else {
                &&& r matches Rotate::Enter { request: own, expected_revision, entry }
                &&& own == request
                &&& expected_revision >= 1
                &&& spells(request.expected_revision@, expected_revision as int)
                &&& asks_to_manage(
                    entry,
                    *active,
                    caller.unwrap(),
                    "rotate_secret"@,
                    request.organization_id@,
                    request.idempotency_key@,
                )
            }
        }),
{
    lemma_revision(request.expected_revision@);
}

/// A revocation needs three identifiers and a revision. Any other request is
/// invalid, and a caller that is not on the allowlist is forbidden.
pub proof fn revocations_start_with_request_and_caller(
    active: &ActiveServiceAccount,
    caller: Option<String>,
    request: RevokeServiceAccountRequest,
    r: Revoke,
)
    requires
        call_ensures(Revoke::start, (active, caller, request), r),
    ensures
        ({
            let well_formed = identifier(request.idempotency_key@, 128) && identifier(
                request.organization_id@,
                256,
            ) && identifier(request.service_account_id@, 128) && exists|n: int|
                1 <= n <= 0x7fff_ffff_ffff_ffff && #[trigger] spells(
                    request.expected_revision@,
                    n,
                );
            let known = caller is Some && among(active.config.management_callers@, caller.unwrap()@);
            if !well_formed {
                r == Revoke::Done(Err(RevokeServiceAccountError::InvalidRequest))
            } else if !known {
                r == Revoke::Done(Err(RevokeServiceAccountError::Forbidden))
            } else {
                &&& r matches Revoke::Enter { request: own, expected_revision, entry }
                &&& own == request
                &&& expected_revision >= 1
                &&& spells(request.expected_revision@, expected_revision as int)
                &&& asks_to_manage(
                    entry,
                    *active,
                    caller.unwrap(),
                    "revoke"@,
                    request.organization_id@,
                    request.idempotency_key@,
                )
            }
        }),
{
    lemma_revision(request.expected_revision@);
}

proof fn lemma_revision(text: Seq<char>)
    ensures
        match crate::management::revision_of(text) {
            Some(n) => n >= 1 && spells(text, n as int),
            None => forall|n: int| 1 <= n <= 0x7fff_ffff_ffff_ffff ==> !#[trigger] spells(text, n),
        },
{
    match crate::management::revision_of(text) {
        Some(n) => {
            assert(exists|m: i64| m >= 1 && #[trigger] decimal_text(m as int) == text);
            lemma_decimal_spells(n as int);
        },
        None => {
            assert forall|n: int| 1 <= n <= 0x7fff_ffff_ffff_ffff implies !#[trigger] spells(
                text,
                n,
            ) by {
                if spells(text, n) {
                    lemma_spelled_once(text, n as nat);
                    assert(decimal_text((n as i64) as int) == text);
                }
            }
        },
    }
}

/// The secret is a new one, of the right form, under its own identifier, and the
/// verifier is one of it under the pepper with a salt of 16 bytes.
pub open spec fn is_fresh_secret(
    active: ActiveServiceAccount,
    secret: CredentialSecret,
    credential_id: Seq<char>,
    stored: Seq<char>,
) -> bool {
    let input = encode_utf8(secret.raw()) + seq![0u8] + secret_bytes(active.pepper);
    &&& credential_id == secret.credential_id@
    &&& secret.raw().len() == 81
    &&& is_secret_of(secret.raw(), credential_id, secret.raw().skip(38))
    &&& argon2_accepts(input, stored)
    &&& exists|salt: Seq<u8>| salt.len() == 16 && stored == #[trigger] argon2id_phc(input, salt)
}

/// No secret could be made: the random source failed, or the pepper is beyond all
/// measure.
pub open spec fn has_no_secret(active: ActiveServiceAccount, error: CryptoError) -> bool {
    error is Random || error is PasswordHash && secret_bytes(active.pepper).len() + 82
        >= 0x1_0000_0000
}

proof fn lemma_fresh(active: ActiveServiceAccount, secret: CredentialSecret, stored: Seq<char>)
    requires
        secret.has_full_length(),
        crate::crypto::is_salted_verifier(secret.raw(), secret_bytes(active.pepper), stored),
        crate::crypto::secret_verifies(secret.raw(), secret_bytes(active.pepper), stored),
    ensures
        is_fresh_secret(active, secret, secret.credential_id@, stored),
{
    reveal_strlit("lenso_sa_");
    reveal_strlit(".");
    let raw = secret.raw();
    assert(raw =~= "lenso_sa_"@ + secret.credential_id@ + "."@ + raw.skip(38));
    let input = encode_utf8(raw) + seq![0u8] + secret_bytes(active.pepper);
    let salt = choose|salt: Seq<u8>|
        salt.len() == 16 && stored == #[trigger] argon2id_phc(
            crate::crypto::peppered_input(raw, secret_bytes(active.pepper)),
            salt,
        );
    assert(stored == argon2id_phc(input, salt));
}

/// A creation follows its entry: one that is new is carried out, one that was
/// carried out is answered from its receipt, one that was refused is refused
/// alike, and a denied caller is told why.
pub proof fn creations_follow_their_entry(
    request: CreateServiceAccountRequest,
    entry: Entry,
    active: &ActiveServiceAccount,
    event: EntryEvent,
    next: Create,
) -> (decision: Entry)
    requires
        call_ensures(
            Create::resume,
            (Create::Enter { request, entry }, active, CreateEvent::Entry(event)),
            next,
        ),
    ensures
        entry.steps_to(active.receipt_cipher, event, decision),
        match decision {
            Entry::Admitted { command } => match next {
                Create::EnsureIdentity {
                    command: own,
                    request: same,
                    service_account_id,
                    provider,
                    external_subject,
                } => {
                    &&& own == command
                    &&& same == request
                    &&& service_account_id@.len() == 35
                    &&& service_account_id@.take(3) == "sa_"@
                    &&& url_safe(service_account_id@.skip(3))
                    &&& provider@ == active.config.directory_provider@
                    &&& external_subject@ == request.organization_id@ + ":"@ + service_account_id@
                },
                Create::Failed(Failure::Plugin(ServiceAccountPluginError::Random(_))) => true,
                _ => false,
            },
            Entry::Replayed { receipt } => next == (Create::DecodeReceipt { receipt }),
            Entry::Refused(Refusal::Recorded(code)) => {
                &&& code@ == "name_conflict"@ ==> next == Create::Done(
                    Err(CreateServiceAccountError::NameConflict),
                )
                &&& code@ == "directory_rejected"@ ==> next == Create::Done(
                    Err(CreateServiceAccountError::DirectoryRejected),
                )
                &&& code@ == "too_many_service_accounts"@ ==> next == Create::Done(
                    Err(CreateServiceAccountError::TooManyServiceAccounts),
                )
                &&& code@ != "name_conflict"@
                    && code@ != "directory_rejected"@
                    && code@ != "too_many_service_accounts"@ ==> (next matches Create::Failed(Failure::Plugin(error))
                    && error.says("unknown create receipt error"@))
            },
            Entry::Refused(Refusal::Conflict) => next == Create::Done(
                Err(CreateServiceAccountError::IdempotencyConflict),
            ),
            Entry::Refused(Refusal::InProgress) => next == Create::Done(
                Err(CreateServiceAccountError::OperationInProgress),
            ),
            Entry::Denied(error) => match error {
                AuthorizationError::Forbidden => next == Create::Done(
                    Err(CreateServiceAccountError::Forbidden),
                ),
                AuthorizationError::OrganizationNotFound => next == Create::Done(
                    Err(CreateServiceAccountError::OrganizationNotFound),
                ),
                AuthorizationError::MembershipRequired => next == Create::Done(
                    Err(CreateServiceAccountError::MembershipRequired),
                ),
                AuthorizationError::AccessDenied => next == Create::Done(
                    Err(CreateServiceAccountError::AccessDenied),
                ),
                AuthorizationError::Runtime(failure) => next == Create::Failed(failure),
            },
            Entry::Failed(failure) => next == Create::Failed(failure),
            pending => next == (Create::Enter { request, entry: pending }),
        },
{
    reveal_strlit("name_conflict");
    reveal_strlit("directory_rejected");
    reveal_strlit("too_many_service_accounts");
    assert("name_conflict"@.len() == 13);
    assert("directory_rejected"@.len() == 18);
    assert("too_many_service_accounts"@.len() == 25);
    let decision = choose|decision: Entry| #[trigger]
        entry.steps_to(active.receipt_cipher, event, decision) && next.follows_entry(
            *active,
            request,
            decision,
        );
    if decision is Admitted && next is EnsureIdentity {
        let command = decision->Admitted_command;
        let id = choose|id: Seq<char>|
            crate::management::is_random_id(id, "sa_"@) && #[trigger] next.ensures_identity(
                active.config.directory_provider,
                command,
                request,
                id,
            );
        lemma_account_id(id);
    }
    decision
}

/// The identifier of a new account is `sa_` and 32 characters of base64.
proof fn lemma_account_id(id: Seq<char>)
    requires
        crate::management::is_random_id(id, "sa_"@),
    ensures
        id.len() == 35,
        id.take(3) == "sa_"@,
        url_safe(id.skip(3)),
{
    reveal_strlit("sa_");
    let bytes = choose|bytes: Seq<u8>|
        bytes.len() == 24 && id == #[trigger] crate::management::identifier_of("sa_"@, bytes);
    crate::crypto::base64_length_and_alphabet(bytes);
    assert(id.take(3) =~= "sa_"@);
    assert(id.skip(3) =~= crate::crypto::base64_text(bytes));
}

/// A rotation follows its entry: one that is new is carried out, one that was
/// carried out is answered from its receipt, one that was refused is refused
/// alike, and a denied caller is told why.
pub proof fn rotations_follow_their_entry(
    request: RotateServiceAccountSecretRequest,
    expected_revision: i64,
    entry: Entry,
    active: &ActiveServiceAccount,
    event: EntryEvent,
    next: Rotate,
) -> (decision: Entry)
    requires
        call_ensures(
            Rotate::resume,
            (Rotate::Enter { request, expected_revision, entry }, active, RotateEvent::Entry(event)),
            next,
        ),
    ensures
        entry.steps_to(active.receipt_cipher, event, decision),
        match decision {
            Entry::Admitted { command } => match next {
                Rotate::Update { command: own, rotation, secret } => {
                    &&& own == command
                    &&& rotation.organization_id@ == request.organization_id@
                    &&& rotation.service_account_id@ == request.service_account_id@
                    &&& rotation.expected_revision == expected_revision
                    &&& rotation.overlap_until - rotation.valid_from
                        == active.config.rotation_overlap_seconds * 1_000_000_000
                    &&& rotation.valid_until - rotation.valid_from
                        == active.config.credential_ttl_seconds * 1_000_000_000
                    &&& is_fresh_secret(
                        *active,
                        secret,
                        rotation.credential_id@,
                        rotation.verifier@,
                    )
                },
                Rotate::Failed(Failure::Plugin(ServiceAccountPluginError::Crypto(error))) => {
                    has_no_secret(*active, error)
                },
                _ => false,
            },
            Entry::Replayed { receipt } => next == (Rotate::DecodeReceipt { receipt }),
            Entry::Refused(Refusal::Recorded(code)) => {
                &&& code@ == "not_found"@ ==> next == Rotate::Done(
                    Err(RotateServiceAccountSecretError::NotFound),
                )
                &&& code@ == "revoked"@ ==> next == Rotate::Done(
                    Err(RotateServiceAccountSecretError::Revoked),
                )
                &&& code@ == "revision_conflict"@ ==> next == Rotate::Done(
                    Err(RotateServiceAccountSecretError::RevisionConflict),
                )
                &&& code@ != "not_found"@
                    && code@ != "revoked"@
                    && code@ != "revision_conflict"@ ==> (next matches Rotate::Failed(Failure::Plugin(error))
                    && error.says("unknown rotate receipt error"@))
            },
            Entry::Refused(Refusal::Conflict) => next == Rotate::Done(
                Err(RotateServiceAccountSecretError::IdempotencyConflict),
            ),
            Entry::Refused(Refusal::InProgress) => next == Rotate::Done(
                Err(RotateServiceAccountSecretError::OperationInProgress),
            ),
            Entry::Denied(error) => match error {
                AuthorizationError::Forbidden => next == Rotate::Done(
                    Err(RotateServiceAccountSecretError::Forbidden),
                ),
                AuthorizationError::OrganizationNotFound => next == Rotate::Done(
                    Err(RotateServiceAccountSecretError::OrganizationNotFound),
                ),
                AuthorizationError::MembershipRequired => next == Rotate::Done(
                    Err(RotateServiceAccountSecretError::MembershipRequired),
                ),
                AuthorizationError::AccessDenied => next == Rotate::Done(
                    Err(RotateServiceAccountSecretError::AccessDenied),
                ),
                AuthorizationError::Runtime(failure) => next == Rotate::Failed(failure),
            },
            Entry::Failed(failure) => next == Rotate::Failed(failure),
            pending => next == (Rotate::Enter { request, expected_revision, entry: pending }),
        },
{
    reveal_strlit("not_found");
    reveal_strlit("revoked");
    reveal_strlit("revision_conflict");
    assert("not_found"@.len() == 9);
    assert("revoked"@.len() == 7);
    assert("revision_conflict"@.len() == 17);
    let decision = choose|decision: Entry| #[trigger]
        entry.steps_to(active.receipt_cipher, event, decision) && next.follows_entry(
            *active,
            request,
            expected_revision,
            decision,
        );
    if decision is Admitted && next is Update {
        let command = decision->Admitted_command;
        let (secret, stored, now) = choose|
            secret: CredentialSecret,
            verifier_text: String,
            now: int,
        |
            {
                &&& #[trigger] next.updates(
                    *active,
                    command,
                    request,
                    expected_revision,
                    secret,
                    verifier_text,
                    now,
                )
                &&& secret.has_full_length()
                &&& crate::crypto::is_salted_verifier(
                    secret.raw(),
                    secret_bytes(active.pepper),
                    verifier_text@,
                )
                &&& crate::crypto::secret_verifies(
                    secret.raw(),
                    secret_bytes(active.pepper),
                    verifier_text@,
                )
            };
        lemma_fresh(*active, secret, stored@);
    }
    decision
}

/// A revocation follows its entry: one that is new is carried out, one that was
/// carried out is answered from its receipt, one that was refused is refused
/// alike, and a denied caller is told why.
pub proof fn revocations_follow_their_entry(
    request: RevokeServiceAccountRequest,
    expected_revision: i64,
    entry: Entry,
    active: &ActiveServiceAccount,
    event: EntryEvent,
    next: Revoke,
) -> (decision: Entry)
    requires
        call_ensures(
            Revoke::resume,
            (Revoke::Enter { request, expected_revision, entry }, active, RevokeEvent::Entry(event)),
            next,
        ),
    ensures
        entry.steps_to(active.receipt_cipher, event, decision),
        match decision {
            Entry::Admitted { command } => next == (Revoke::Update {
                command,
                revocation: Revocation {
                    organization_id: request.organization_id,
                    service_account_id: request.service_account_id,
                    expected_revision,
                },
            }),
            Entry::Replayed { receipt } => next == (Revoke::DecodeReceipt { receipt }),
            Entry::Refused(Refusal::Recorded(code)) => {
                &&& code@ == "not_found"@ ==> next == Revoke::Done(
                    Err(RevokeServiceAccountError::NotFound),
                )
                &&& code@ == "revision_conflict"@ ==> next == Revoke::Done(
                    Err(RevokeServiceAccountError::RevisionConflict),
                )
                &&& code@ != "not_found"@
                    && code@ != "revision_conflict"@ ==> (next matches Revoke::Failed(Failure::Plugin(error))
                    && error.says("unknown revoke receipt error"@))
            },
            Entry::Refused(Refusal::Conflict) => next == Revoke::Done(
                Err(RevokeServiceAccountError::IdempotencyConflict),
            ),
            Entry::Refused(Refusal::InProgress) => next == Revoke::Done(
                Err(RevokeServiceAccountError::OperationInProgress),
            ),
            Entry::Denied(error) => match error {
                AuthorizationError::Forbidden => next == Revoke::Done(
                    Err(RevokeServiceAccountError::Forbidden),
                ),
                AuthorizationError::OrganizationNotFound => next == Revoke::Done(
                    Err(RevokeServiceAccountError::OrganizationNotFound),
                ),
                AuthorizationError::MembershipRequired => next == Revoke::Done(
                    Err(RevokeServiceAccountError::MembershipRequired),
                ),
                AuthorizationError::AccessDenied => next == Revoke::Done(
                    Err(RevokeServiceAccountError::AccessDenied),
                ),
                AuthorizationError::Runtime(failure) => next == Revoke::Failed(failure),
            },
            Entry::Failed(failure) => next == Revoke::Failed(failure),
            pending => next == (Revoke::Enter { request, expected_revision, entry: pending }),
        },
{
    reveal_strlit("not_found");
    reveal_strlit("revision_conflict");
    assert("not_found"@.len() == 9);
    assert("revision_conflict"@.len() == 17);
    choose|decision: Entry| #[trigger]
        entry.steps_to(active.receipt_cipher, event, decision) && next.follows_entry(
            request,
            expected_revision,
            decision,
        )
}

/// A repeated creation is answered with the account of its receipt, no secret,
/// and that nothing was created; a receipt that cannot be read ends the call.
pub proof fn repeated_creations_show_the_account_only(
    receipt: Vec<u8>,
    active: &ActiveServiceAccount,
    decoded: Result<CreateServiceAccountResponse, serde_json::Error>,
    next: Create,
)
    requires
        call_ensures(
            Create::resume,
            (Create::DecodeReceipt { receipt }, active, CreateEvent::ReceiptDecoded(decoded)),
            next,
        ),
    ensures
        match decoded {
            Ok(response) => next == Create::Done(
                Ok(CreateServiceAccountResponse {
                    account: response.account,
                    created: false,
                    secret: Nullable(None),
                }),
            ),
            Err(error) => next == Create::Failed(
                Failure::Plugin(ServiceAccountPluginError::Crypto(CryptoError::Deserialize(error))),
            ),
        },
{
}

/// The command is to be completed with this error, under this code.
pub open spec fn creation_refused(
    next: Create,
    command: CommandKey,
    code: Seq<char>,
    error: CreateServiceAccountError,
) -> bool {
    &&& next matches Create::RecordError { command: own, code: text, error: answer }
    &&& own == command
    &&& text@ == code
    &&& answer == error
}

/// A refusal of a creation that was recorded is what is answered.
pub proof fn recorded_refusals_of_creations_are_answered(
    command: CommandKey,
    code: String,
    error: CreateServiceAccountError,
    active: &ActiveServiceAccount,
    next: Create,
)
    requires
        call_ensures(
            Create::resume,
            (Create::RecordError { command, code, error }, active, CreateEvent::Recorded),
            next,
        ),
    ensures
        next == Create::Done(Err(error)),
{
}

/// A repeated rotation is answered with the account of its receipt, no secret,
/// and that nothing was rotated; a receipt that cannot be read ends the call.
pub proof fn repeated_rotations_show_the_account_only(
    receipt: Vec<u8>,
    active: &ActiveServiceAccount,
    decoded: Result<RotateServiceAccountSecretResponse, serde_json::Error>,
    next: Rotate,
)
    requires
        call_ensures(
            Rotate::resume,
            (Rotate::DecodeReceipt { receipt }, active, RotateEvent::ReceiptDecoded(decoded)),
            next,
        ),
    ensures
        match decoded {
            Ok(response) => next == Rotate::Done(
                Ok(RotateServiceAccountSecretResponse {
                    account: response.account,
                    rotated: false,
                    secret: Nullable(None),
                }),
            ),
            Err(error) => next == Rotate::Failed(
                Failure::Plugin(ServiceAccountPluginError::Crypto(CryptoError::Deserialize(error))),
            ),
        },
{
}

/// The command is to be completed with this error, under this code.
pub open spec fn rotation_refused(
    next: Rotate,
    command: CommandKey,
    code: Seq<char>,
    error: RotateServiceAccountSecretError,
) -> bool {
    &&& next matches Rotate::RecordError { command: own, code: text, error: answer }
    &&& own == command
    &&& text@ == code
    &&& answer == error
}

/// A refusal of a rotation that was recorded is what is answered.
pub proof fn recorded_refusals_of_rotations_are_answered(
    command: CommandKey,
    code: String,
    error: RotateServiceAccountSecretError,
    active: &ActiveServiceAccount,
    next: Rotate,
)
    requires
        call_ensures(
            Rotate::resume,
            (Rotate::RecordError { command, code, error }, active, RotateEvent::Recorded),
            next,
        ),
    ensures
        next == Rotate::Done(Err(error)),
{
}

/// A repeated revocation is answered with the account of its receipt, and that
/// nothing was revoked; a receipt that cannot be read ends the call.
pub proof fn repeated_revocations_show_the_account_only(
    receipt: Vec<u8>,
    active: &ActiveServiceAccount,
    decoded: Result<RevokeServiceAccountResponse, serde_json::Error>,
    next: Revoke,
)
    requires
        call_ensures(
            Revoke::resume,
            (Revoke::DecodeReceipt { receipt }, active, RevokeEvent::ReceiptDecoded(decoded)),
            next,
        ),
    ensures
        match decoded {
            Ok(response) => next == Revoke::Done(
                Ok(RevokeServiceAccountResponse {
                    account: response.account,
                    revoked: false,
                }),
            ),
            Err(error) => next == Revoke::Failed(
                Failure::Plugin(ServiceAccountPluginError::Crypto(CryptoError::Deserialize(error))),
            ),
        },
{
}

/// The command is to be completed with this error, under this code.
pub open spec fn revocation_refused(
    next: Revoke,
    command: CommandKey,
    code: Seq<char>,
    error: RevokeServiceAccountError,
) -> bool {
    &&& next matches Revoke::RecordError { command: own, code: text, error: answer }
    &&& own == command
    &&& text@ == code
    &&& answer == error
}

/// A refusal of a revocation that was recorded is what is answered.
pub proof fn recorded_refusals_of_revocations_are_answered(
    command: CommandKey,
    code: String,
    error: RevokeServiceAccountError,
    active: &ActiveServiceAccount,
    next: Revoke,
)
    requires
        call_ensures(
            Revoke::resume,
            (Revoke::RecordError { command, code, error }, active, RevokeEvent::Recorded),
            next,
        ),
    ensures
        next == Revoke::Done(Err(error)),
{
}

/// The account is to be inserted as the request has it: with its trimmed name,
/// keyed by the lower-case form of that, its secret valid from now on for the
/// configured lifetime of secrets and for nothing else, and under the configured
/// limit of accounts.
pub open spec fn is_asked_for(
    account: NewAccount,
    max_accounts: u32,
    active: ActiveServiceAccount,
    request: CreateServiceAccountRequest,
    service_account_id: Seq<char>,
    subject: Seq<char>,
) -> bool {
    &&& account.service_account_id@ == service_account_id
    &&& account.organization_id@ == request.organization_id@
    &&& account.subject@ == subject
    &&& account.name@ == trimmed(request.name@)
    &&& account.name_key@.len() == account.name@.len()
    &&& forall|i: int|
        0 <= i < account.name@.len() ==> if 'A' <= account.name@[i] <= 'Z' {
            (#[trigger] account.name_key@[i]) as int == account.name@[i] as int + 32
        } else {
            account.name_key@[i] == account.name@[i]
        }
    &&& account.valid_until - account.valid_from == active.config.credential_ttl_seconds
        * 1_000_000_000
    &&& max_accounts == active.config.max_accounts_per_organization
}

/// The insertion that is asked for at `now` is what the request asks for, with
/// the given secret from now on.
pub proof fn insertions_last_the_configured_lifetime(
    active: &ActiveServiceAccount,
    command: CommandKey,
    request: CreateServiceAccountRequest,
    service_account_id: String,
    subject: String,
    secret: CredentialSecret,
    stored: String,
    now: i128,
    r: Create,
)
    requires
        call_ensures(
            Create::insertion,
            (active, command, request, service_account_id, subject, secret, stored, now),
            r,
        ),
    ensures
        r matches Create::Insert { command: own, account, max_accounts, secret: same } && {
            &&& own == command
            &&& same == secret
            &&& account.credential_id@ == secret.credential_id@
            &&& account.verifier@ == stored@
            &&& account.valid_from == now
            &&& is_asked_for(
                account,
                max_accounts,
                *active,
                request,
                service_account_id@,
                subject@,
            )
        },
{
}

/// A subject is asked for under the organization and the new identifier.
pub proof fn subjects_are_asked_for_by_organization_and_account(
    active: &ActiveServiceAccount,
    command: CommandKey,
    request: CreateServiceAccountRequest,
    service_account_id: String,
    r: Create,
)
    requires
        call_ensures(Create::ensure_identity, (active, command, request, service_account_id), r),
    ensures
        r matches Create::EnsureIdentity {
            command: own,
            request: same,
            service_account_id: id,
            provider,
            external_subject,
        } && {
            &&& own == command
            &&& same == request
            &&& id@ == service_account_id@
            &&& provider@ == active.config.directory_provider@
            &&& external_subject@ == request.organization_id@ + ":"@ + service_account_id@
        },
{
}

/// Once the Directory has given a subject that is an identifier, the account is
/// to be inserted with a fresh secret. Any other answer of the Directory is
/// refused as such, and its failure ends the call.
pub proof fn accounts_are_inserted_with_a_fresh_secret(
    command: CommandKey,
    request: CreateServiceAccountRequest,
    service_account_id: String,
    provider: String,
    external_subject: String,
    active: &ActiveServiceAccount,
    reply: IdentityReply,
    next: Create,
)
    requires
        call_ensures(
            Create::resume,
            (
                Create::EnsureIdentity {
                    command,
                    request,
                    service_account_id,
                    provider,
                    external_subject,
                },
                active,
                CreateEvent::IdentityEnsured(reply),
            ),
            next,
        ),
    ensures
        match reply {
            IdentityReply::Subject(subject) => if identifier(subject@, 256) {
                match next {
                    Create::Insert { command: own, account, max_accounts, secret } => {
                        &&& own == command
                        &&& is_asked_for(
                            account,
                            max_accounts,
                            *active,
                            request,
                            service_account_id@,
                            subject@,
                        )
                        &&& is_fresh_secret(
                            *active,
                            secret,
                            account.credential_id@,
                            account.verifier@,
                        )
                    },
                    Create::Failed(Failure::Plugin(ServiceAccountPluginError::Crypto(error))) => {
                        has_no_secret(*active, error)
                    },
                    _ => false,
                }
            } else {
                creation_refused(
                    next,
                    command,
                    "directory_rejected"@,
                    CreateServiceAccountError::DirectoryRejected,
                )
            },
            IdentityReply::Rejected => creation_refused(
                next,
                command,
                "directory_rejected"@,
                CreateServiceAccountError::DirectoryRejected,
            ),
            IdentityReply::Failed => next == Create::Failed(Failure::Relayed),
        },
{
    if let IdentityReply::Subject(subject) = reply {
        if next is Insert {
            let (secret, stored, now) = choose|
                secret: CredentialSecret,
                verifier_text: String,
                now: int,
            |
                {
                    &&& #[trigger] next.inserts(
                        *active,
                        command,
                        request,
                        service_account_id,
                        subject,
                        secret,
                        verifier_text,
                        now,
                    )
                    &&& secret.has_full_length()
                    &&& crate::crypto::is_salted_verifier(
                        secret.raw(),
                        secret_bytes(active.pepper),
                        verifier_text@,
                    )
                    &&& crate::crypto::secret_verifies(
                        secret.raw(),
                        secret_bytes(active.pepper),
                        verifier_text@,
                    )
                };
            lemma_fresh(*active, secret, stored@);
        }
    }
}

/// An account that was inserted is answered with its row and its secret. A full
/// organization, a name that is taken and a subject that is taken are refused as
/// such; any other failure ends the call.
pub proof fn inserted_accounts_are_answered_with_their_secret(
    command: CommandKey,
    account: NewAccount,
    max_accounts: u32,
    secret: CredentialSecret,
    active: &ActiveServiceAccount,
    outcome: Result<Option<AccountRow>, StoreError>,
    next: Create,
)
    requires
        call_ensures(
            Create::resume,
            (
                Create::Insert { command, account, max_accounts, secret },
                active,
                CreateEvent::Inserted(outcome),
            ),
            next,
        ),
    ensures
        match outcome {
            Ok(Some(row)) => match next {
                Create::Done(Ok(response)) => {
                    &&& shows_row(response.account, row)
                    &&& response.created
                    &&& response.secret.0 matches Some(text)
                    &&& text@ == secret.raw()
                },
                Create::Failed(Failure::Plugin(error)) => cannot_be_shown(row, error),
                _ => false,
            },
            Ok(None) => creation_refused(
                next,
                command,
                "too_many_service_accounts"@,
                CreateServiceAccountError::TooManyServiceAccounts,
            ),
            Err(StoreError::Unique(name)) => {
                &&& name@ == "service_accounts_organization_name_unique"@ ==> creation_refused(
                    next,
                    command,
                    "name_conflict"@,
                    CreateServiceAccountError::NameConflict,
                )
                &&& name@ == "service_accounts_subject_unique"@ ==> creation_refused(
                    next,
                    command,
                    "directory_rejected"@,
                    CreateServiceAccountError::DirectoryRejected,
                )
                &&& name@ != "service_accounts_organization_name_unique"@ && name@
                    != "service_accounts_subject_unique"@ ==> next == Create::Failed(
                    Failure::Constraint(name),
                )
            },
            Err(StoreError::Plugin(error)) => next == Create::Failed(Failure::Plugin(error)),
        },
{
    reveal_strlit("service_accounts_organization_name_unique");
    reveal_strlit("service_accounts_subject_unique");
    assert("service_accounts_organization_name_unique"@.len()
        != "service_accounts_subject_unique"@.len());
    if let Ok(Some(row)) = outcome {
        match next {
            Create::Done(Ok(response)) => lemma_summarizes(response.account, row),
            Create::Failed(Failure::Plugin(error)) => lemma_unsummarizable(error, row),
            _ => {},
        }
    }
}

/// A reply that was not asked for ends a creation.
pub proof fn stray_replies_end_a_creation(
    state: Create,
    active: &ActiveServiceAccount,
    event: CreateEvent,
    next: Create,
)
    requires
        call_ensures(Create::resume, (state, active, event), next),
        event is Entry ==> !(state is Enter),
        event is ReceiptDecoded ==> !(state is DecodeReceipt),
        event is IdentityEnsured ==> !(state is EnsureIdentity),
        event is Inserted ==> !(state is Insert),
        event is Recorded ==> !(state is RecordError),
    ensures
        next == Create::Failed(Failure::UnexpectedReply),
{
}

/// The update that is asked for at `now` replaces the secret from now on, for the
/// configured lifetime of secrets, and ends the old ones after the configured
/// overlap.
pub proof fn updates_last_the_configured_lifetime(
    active: &ActiveServiceAccount,
    command: CommandKey,
    request: RotateServiceAccountSecretRequest,
    expected_revision: i64,
    secret: CredentialSecret,
    stored: String,
    now: i128,
    r: Rotate,
)
    requires
        call_ensures(
            Rotate::update,
            (active, command, request, expected_revision, secret, stored, now),
            r,
        ),
    ensures
        r matches Rotate::Update { command: own, rotation, secret: same } && {
            &&& own == command
            &&& same == secret
            &&& rotation.organization_id@ == request.organization_id@
            &&& rotation.service_account_id@ == request.service_account_id@
            &&& rotation.expected_revision == expected_revision
            &&& rotation.credential_id@ == secret.credential_id@
            &&& rotation.verifier@ == stored@
            &&& rotation.valid_from == now
            &&& rotation.overlap_until - now == active.config.rotation_overlap_seconds
                * 1_000_000_000
            &&& rotation.valid_until - now == active.config.credential_ttl_seconds
                * 1_000_000_000
        },
{
}

/// A rotation that was carried out is answered with the row and the new secret.
/// An account that is missing, revoked or at another revision is refused as such;
/// any other failure ends the call.
pub proof fn rotated_accounts_are_answered_with_their_secret(
    command: CommandKey,
    rotation: Rotation,
    secret: CredentialSecret,
    active: &ActiveServiceAccount,
    outcome: Result<Mutation<AccountRow>, StoreError>,
    next: Rotate,
)
    requires
        call_ensures(
            Rotate::resume,
            (
                Rotate::Update { command, rotation, secret },
                active,
                RotateEvent::Updated(outcome),
            ),
            next,
        ),
    ensures
        match outcome {
            Ok(Mutation::Updated(row)) => match next {
                Rotate::Done(Ok(response)) => {
                    &&& shows_row(response.account, row)
                    &&& response.rotated
                    &&& response.secret.0 matches Some(text)
                    &&& text@ == secret.raw()
                },
                Rotate::Failed(Failure::Plugin(error)) => cannot_be_shown(row, error),
                _ => false,
            },
            Ok(Mutation::NotFound) => rotation_refused(
                next,
                command,
                "not_found"@,
                RotateServiceAccountSecretError::NotFound,
            ),
            Ok(Mutation::Revoked) => rotation_refused(
                next,
                command,
                "revoked"@,
                RotateServiceAccountSecretError::Revoked,
            ),
            Ok(Mutation::RevisionConflict) => rotation_refused(
                next,
                command,
                "revision_conflict"@,
                RotateServiceAccountSecretError::RevisionConflict,
            ),
            Err(StoreError::Unique(name)) => next == Rotate::Failed(Failure::Constraint(name)),
            Err(StoreError::Plugin(error)) => next == Rotate::Failed(Failure::Plugin(error)),
        },
{
    if let Ok(Mutation::Updated(row)) = outcome {
        match next {
            Rotate::Done(Ok(response)) => lemma_summarizes(response.account, row),
            Rotate::Failed(Failure::Plugin(error)) => lemma_unsummarizable(error, row),
            _ => {},
        }
    }
}

/// A reply that was not asked for ends a rotation.
pub proof fn stray_replies_end_a_rotation(
    state: Rotate,
    active: &ActiveServiceAccount,
    event: RotateEvent,
    next: Rotate,
)
    requires
        call_ensures(Rotate::resume, (state, active, event), next),
        event is Entry ==> !(state is Enter),
        event is ReceiptDecoded ==> !(state is DecodeReceipt),
        event is Updated ==> !(state is Update),
        event is Recorded ==> !(state is RecordError),
    ensures
        next == Rotate::Failed(Failure::UnexpectedReply),
{
}

/// A revocation that was carried out is answered with the row and whether it
/// changed. An account that is missing or at another revision is refused as such;
/// any other failure ends the call.
pub proof fn revoked_accounts_are_answered_with_their_row(
    command: CommandKey,
    revocation: Revocation,
    active: &ActiveServiceAccount,
    outcome: Result<Mutation<(AccountRow, bool)>, StoreError>,
    next: Revoke,
)
    requires
        call_ensures(
            Revoke::resume,
            (Revoke::Update { command, revocation }, active, RevokeEvent::Updated(outcome)),
            next,
        ),
    ensures
        match outcome {
            Ok(Mutation::Updated(result)) => match next {
                Revoke::Done(Ok(response)) => {
                    &&& shows_row(response.account, result.0)
                    &&& response.revoked == result.1
                },
                Revoke::Failed(Failure::Plugin(error)) => cannot_be_shown(result.0, error),
                _ => false,
            },
            Ok(Mutation::NotFound) => revocation_refused(
                next,
                command,
                "not_found"@,
                RevokeServiceAccountError::NotFound,
            ),
            Ok(Mutation::RevisionConflict) => revocation_refused(
                next,
                command,
                "revision_conflict"@,
                RevokeServiceAccountError::RevisionConflict,
            ),
            Ok(Mutation::Revoked) => {
                &&& next matches Revoke::Failed(Failure::Plugin(error))
                &&& error.says("revocation returned an impossible state"@)
            },
            Err(StoreError::Unique(name)) => next == Revoke::Failed(Failure::Constraint(name)),
            Err(StoreError::Plugin(error)) => next == Revoke::Failed(Failure::Plugin(error)),
        },
{
    if let Ok(Mutation::Updated(result)) = outcome {
        match next {
            Revoke::Done(Ok(response)) => lemma_summarizes(response.account, result.0),
            Revoke::Failed(Failure::Plugin(error)) => lemma_unsummarizable(error, result.0),
            _ => {},
        }
    }
}

/// A reply that was not asked for ends a revocation.
pub proof fn stray_replies_end_a_revocation(
    state: Revoke,
    active: &ActiveServiceAccount,
    event: RevokeEvent,
    next: Revoke,
)
    requires
        call_ensures(Revoke::resume, (state, active, event), next),
        event is Entry ==> !(state is Enter),
        event is ReceiptDecoded ==> !(state is DecodeReceipt),
        event is Updated ==> !(state is Update),
        event is Recorded ==> !(state is RecordError),
    ensures
        next == Revoke::Failed(Failure::UnexpectedReply),
{
}

/// The call by the caller is to be authorized to read the organization for this
/// very operation.
pub open spec fn asks_to_read(
    authorization: Authorization,
    caller: String,
    operation: Seq<char>,
    organization_id: Seq<char>,
) -> bool {
    &&& authorization matches Authorization::ProjectActor { caller: own, capability_id, scope }
    &&& own == caller
    &&& capability_id@ == "lenso.service-account@1"@
    &&& scope.operation@ == operation
    &&& scope.organization_id@ == organization_id
    &&& scope.permission@ == "service-account.read"@
}

/// Showing an account needs two identifiers. Any other request is invalid, and a
/// caller that is not on the allowlist is forbidden.
pub proof fn showing_an_account_starts_with_request_and_caller(
    active: &ActiveServiceAccount,
    caller: Option<String>,
    request: GetServiceAccountRequest,
    r: Get,
)
    requires
        call_ensures(Get::start, (active, caller, request), r),
    ensures
        ({
            let well_formed = identifier(request.organization_id@, 256) && identifier(
                request.service_account_id@,
                128,
            );
            let known = caller is Some && among(active.config.management_callers@, caller.unwrap()@);
            if !well_formed {
                r == Get::Done(Err(GetServiceAccountError::InvalidRequest))
            } else if !known {
                r == Get::Done(Err(GetServiceAccountError::Forbidden))
            } else {
                &&& r matches Get::Authorize { request: own, authorization }
                &&& own == request
                &&& asks_to_read(authorization, caller.unwrap(), "get"@, request.organization_id@)
            }
        }),
{
}

/// Exactly a granted call loads the account that it asks for; a denied caller is
/// told why.
pub proof fn granted_callers_are_shown_the_account(
    request: GetServiceAccountRequest,
    authorization: Authorization,
    event: AuthorizationEvent,
    next: Get,
) -> (decision: Authorization)
    requires
        call_ensures(
            Get::resume,
            (Get::Authorize { request, authorization }, GetEvent::Authorization(event)),
            next,
        ),
    ensures
        authorization.steps_to(event, decision),
        match decision {
            Authorization::Granted(_) => next == (Get::Load {
                organization_id: request.organization_id,
                service_account_id: request.service_account_id,
            }),
            Authorization::Denied(error) => match error {
                AuthorizationError::Forbidden => next == Get::Done(
                    Err(GetServiceAccountError::Forbidden),
                ),
                AuthorizationError::OrganizationNotFound => next == Get::Done(
                    Err(GetServiceAccountError::OrganizationNotFound),
                ),
                AuthorizationError::MembershipRequired => next == Get::Done(
                    Err(GetServiceAccountError::MembershipRequired),
                ),
                AuthorizationError::AccessDenied => next == Get::Done(
                    Err(GetServiceAccountError::AccessDenied),
                ),
                AuthorizationError::Runtime(failure) => next == Get::Failed(failure),
            },
            pending => next == (Get::Authorize { request, authorization: pending }),
        },
{
    choose|decision: Authorization| #[trigger]
        authorization.steps_to(event, decision) && next == Get::follows_authorization(
            request,
            decision,
        )
}

/// An account that was loaded is shown, and one that was not is not found.
pub proof fn loaded_accounts_are_shown(
    organization_id: String,
    service_account_id: String,
    loaded: Option<AccountRow>,
    next: Get,
)
    requires
        call_ensures(
            Get::resume,
            (Get::Load { organization_id, service_account_id }, GetEvent::Loaded(loaded)),
            next,
        ),
    ensures
        match loaded {
            None => next == Get::Done(Err(GetServiceAccountError::NotFound)),
            Some(row) => match next {
                Get::Done(Ok(response)) => shows_row(response.account, row),
                Get::Failed(Failure::Plugin(error)) => cannot_be_shown(row, error),
                _ => false,
            },
        },
{
    if let Some(row) = loaded {
        match next {
            Get::Done(Ok(response)) => lemma_summarizes(response.account, row),
            Get::Failed(Failure::Plugin(error)) => lemma_unsummarizable(error, row),
            _ => {},
        }
    }
}

/// A reply that was not asked for ends the showing of an account.
pub proof fn stray_replies_end_a_showing(state: Get, event: GetEvent, next: Get)
    requires
        call_ensures(Get::resume, (state, event), next),
        event is Authorization ==> !(state is Authorize),
        event is Loaded ==> !(state is Load),
    ensures
        next == Get::Failed(Failure::UnexpectedReply),
{
}

/// A listing needs an organization, a page size from 1 to the configured
/// greatest, and a cursor that is an identifier if there is one. Any other
/// request is invalid, and a caller that is not on the allowlist is forbidden.
pub proof fn listings_start_with_request_and_caller(
    active: &ActiveServiceAccount,
    caller: Option<String>,
    request: ListServiceAccountsRequest,
    r: List,
)
    requires
        call_ensures(List::start, (active, caller, request), r),
    ensures
        ({
            let well_formed = identifier(request.organization_id@, 256) && (request.after.0 is Some
                ==> identifier(request.after.0.unwrap()@, 128)) && exists|n: int|
                1 <= n <= active.config.max_page_size && #[trigger] spells(request.limit@, n);
            let known = caller is Some && among(active.config.management_callers@, caller.unwrap()@);
            if !well_formed {
                r == List::Done(Err(ListServiceAccountsError::InvalidRequest))
            } else if !known {
                r == List::Done(Err(ListServiceAccountsError::Forbidden))
            } else {
                &&& r matches List::Authorize { request: own, limit, authorization }
                &&& own == request
                &&& 1 <= limit <= active.config.max_page_size
                &&& spells(request.limit@, limit as int)
                &&& asks_to_read(authorization, caller.unwrap(), "list"@, request.organization_id@)
            }
        }),
{
    let max = active.config.max_page_size;
    if exists|n: int| 1 <= n <= max && #[trigger] spells(request.limit@, n) {
        let n = choose|n: int| 1 <= n <= max && #[trigger] spells(request.limit@, n);
        lemma_spelled_once(request.limit@, n as nat);
        assert(decimal_text((n as u32) as int) == request.limit@);
        if identifier(request.organization_id@, 256) && (request.after.0 is Some ==> identifier(
            request.after.0.unwrap()@,
            128,
        )) {
            assert(crate::inspect::is_page_request(request, max, n as u32));
        }
    }
    assert forall|limit: u32| crate::inspect::is_page_request(request, max, limit) implies spells(
        request.limit@,
        limit as int,
    ) by {
        lemma_decimal_spells(limit as int);
    }
}

/// Exactly a granted call loads the page that it asks for, and one account more;
/// a denied caller is told why.
pub proof fn granted_callers_are_listed_the_page(
    request: ListServiceAccountsRequest,
    limit: u32,
    authorization: Authorization,
    event: AuthorizationEvent,
    next: List,
) -> (decision: Authorization)
    requires
        call_ensures(
            List::resume,
            (
                List::Authorize { request, limit, authorization },
                ListEvent::Authorization(event),
            ),
            next,
        ),
    ensures
        authorization.steps_to(event, decision),
        match decision {
            Authorization::Granted(_) => next matches List::Load {
                organization_id,
                after,
                limit: own,
                row_limit,
            } && {
                &&& organization_id == request.organization_id
                &&& after == request.after.0
                &&& own == limit
                &&& row_limit == limit + 1
            },
            Authorization::Denied(error) => match error {
                AuthorizationError::Forbidden => next == List::Done(
                    Err(ListServiceAccountsError::Forbidden),
                ),
                AuthorizationError::OrganizationNotFound => next == List::Done(
                    Err(ListServiceAccountsError::OrganizationNotFound),
                ),
                AuthorizationError::MembershipRequired => next == List::Done(
                    Err(ListServiceAccountsError::MembershipRequired),
                ),
                AuthorizationError::AccessDenied => next == List::Done(
                    Err(ListServiceAccountsError::AccessDenied),
                ),
                AuthorizationError::Runtime(failure) => next == List::Failed(failure),
            },
            pending => next == (List::Authorize { request, limit, authorization: pending }),
        },
{
    choose|decision: Authorization| #[trigger]
        authorization.steps_to(event, decision) && next == List::follows_authorization(
            request,
            limit,
            decision,
        )
}

/// A page shows the rows that were loaded, in their order, up to its size, and
/// names the last of them as the next cursor exactly if more were loaded.
pub proof fn pages_show_what_was_loaded(
    organization_id: String,
    after: Option<String>,
    limit: u32,
    row_limit: u64,
    rows: Vec<AccountRow>,
    next: List,
)
    requires
        limit > 0,
        call_ensures(
            List::resume,
            (
                List::Load { organization_id, after, limit, row_limit },
                ListEvent::Loaded(rows),
            ),
            next,
        ),
    ensures
        match next {
            List::Done(Ok(response)) => {
                let shown = response.accounts@;
                &&& shown.len() == if rows@.len() <= limit {
                    rows@.len() as int
                } else {
                    limit as int
                }
                &&& forall|i: int| 0 <= i < shown.len() ==> shows_row(#[trigger] shown[i], rows@[i])
                &&& rows@.len() <= limit ==> response.next_cursor.0 is None
                &&& rows@.len() > limit ==> (response.next_cursor.0 matches Some(cursor) && cursor@
                    == rows@[limit - 1].service_account_id@)
            },
            List::Failed(Failure::Plugin(error)) => exists|i: int|
                0 <= i < rows@.len() && i < limit && cannot_be_shown(#[trigger] rows@[i], error),
            _ => false,
        },
{
    let loaded = crate::inspect::shown_rows(rows@, limit);
    match next {
        List::Done(Ok(response)) => {
            assert forall|i: int| 0 <= i < response.accounts@.len() implies shows_row(
                #[trigger] response.accounts@[i],
                rows@[i],
            ) by {
                assert(crate::management::summarizes(response.accounts@[i], loaded[i]@));
                lemma_summarizes(response.accounts@[i], rows@[i]);
            }
        },
        List::Failed(Failure::Plugin(error)) => {
            let i = choose|i: int|
                0 <= i < loaded.len() && crate::management::unsummarizable(
                    error,
                    (#[trigger] loaded[i])@,
                );
            lemma_unsummarizable(error, rows@[i]);
        },
        _ => {},
    }
}

/// A reply that was not asked for ends a listing.
pub proof fn stray_replies_end_a_listing(state: List, event: ListEvent, next: List)
    requires
        call_ensures(List::resume, (state, event), next),
        event is Authorization ==> !(state is Authorize),
        event is Loaded ==> !(state is Load),
    ensures
        next == List::Failed(Failure::UnexpectedReply),
{
}

} // verus!
