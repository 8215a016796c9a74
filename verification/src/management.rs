//! Rules that the management operations share: request validation, summaries,
//! error codes and identifiers.

use vstd::prelude::*;
use vstd::string::*;

use crate::authorization::AuthorizationError;
use crate::contract::{
    CreateServiceAccountError, GetServiceAccountError, ListServiceAccountsError, Nullable,
    RevokeServiceAccountError, RevokeServiceAccountRequest, RotateServiceAccountSecretError,
    RotateServiceAccountSecretRequest, ServiceAccountStatus, ServiceAccountSummary,
};
use crate::crypto::{base64_length_and_alphabet, base64_text, encode_base64, random_material};
use crate::error::{Failure, ServiceAccountPluginError};
use crate::instant::{format_time, rfc3339_range, rfc3339_text};
use crate::rows::{AccountRow, AccountRowView};
use crate::text::{
    all_token, decimal, decimal_round_trip, decimal_text, is_token, parse_positive, same_text,
    spells_none, token_char, valid_token,
};

verus! {

/// An idempotency key is an identifier of at most 128 characters.
pub fn valid_idempotency_key(value: &str) -> (r: bool)
    ensures
        r == is_token(value@, 128),
{
    valid_token(value, 128)
}

/// The revision whose decimal form is `value`, if there is one. Revisions are
/// positive.
pub open spec fn revision_of(value: Seq<char>) -> Option<i64> {
    if exists|n: i64| n >= 1 && #[trigger] decimal_text(n as int) == value {
        Some(choose|n: i64| n >= 1 && #[trigger] decimal_text(n as int) == value)
    } else {
        None
    }
}

/// The revision whose decimal form is `value`.
pub fn parse_revision(value: &str) -> (r: Option<i64>)
    ensures
        r == revision_of(value@),
{
    match parse_positive(value, i64::MAX as u64) {
        Some(n) => {
            let revision: i64 = n as i64;
            proof {
                assert(decimal_text(revision as int) == value@);
                let chosen = choose|n: i64| n >= 1 && #[trigger] decimal_text(n as int) == value@;
                decimal_round_trip(revision as int, chosen as int);
            }
            Some(revision)
        },
        None => None,
    }
}

/// The revision that a summary shows is parsed back to itself.
pub proof fn revisions_round_trip(revision: i64)
    requires
        revision >= 1,
    ensures
        revision_of(decimal_text(revision as int)) == Some(revision),
{
    let value = decimal_text(revision as int);
    let chosen = choose|n: i64| n >= 1 && #[trigger] decimal_text(n as int) == value;
    decimal_round_trip(revision as int, chosen as int);
}

/// The page size from 1 to `max` whose decimal form is `value`.
pub fn parse_page_limit(value: &str, max: u32) -> (r: Option<u32>)
    ensures
        match r {
            Some(limit) => 1 <= limit <= max && decimal_text(limit as int) == value@,
            None => spells_none(value@, max as int),
        },
{
    match parse_positive(value, max as u64) {
        Some(n) => Some(n as u32),
        None => None,
    }
}

/// The key, the organization and the account of a mutation are identifiers.
pub open spec fn identifiers_hold(
    idempotency_key: Seq<char>,
    organization_id: Seq<char>,
    service_account_id: Seq<char>,
) -> bool {
    &&& is_token(idempotency_key, 128)
    &&& is_token(organization_id, 256)
    &&& is_token(service_account_id, 128)
}

/// The expected revision of a well-formed rotation request.
pub open spec fn rotation_revision(request: RotateServiceAccountSecretRequest) -> Option<i64> {
    if identifiers_hold(
        request.idempotency_key@,
        request.organization_id@,
        request.service_account_id@,
    ) {
        revision_of(request.expected_revision@)
    } else {
        None
    }
}

/// The expected revision of a well-formed rotation request.
pub fn valid_rotation(request: &RotateServiceAccountSecretRequest) -> (r: Option<i64>)
    ensures
        r == rotation_revision(*request),
{
    match parse_revision(request.expected_revision.as_str()) {
        Some(revision) => if valid_idempotency_key(request.idempotency_key.as_str())
            && valid_token(request.organization_id.as_str(), 256) && valid_token(
            request.service_account_id.as_str(),
            128,
        ) {
            Some(revision)
        } else {
            None
        },
        None => None,
    }
}

/// The expected revision of a well-formed revocation request.
pub open spec fn revocation_revision(request: RevokeServiceAccountRequest) -> Option<i64> {
    if identifiers_hold(
        request.idempotency_key@,
        request.organization_id@,
        request.service_account_id@,
    ) {
        revision_of(request.expected_revision@)
    } else {
        None
    }
}

/// The expected revision of a well-formed revocation request.
pub fn valid_revocation(request: &RevokeServiceAccountRequest) -> (r: Option<i64>)
    ensures
        r == revocation_revision(*request),
{
    match parse_revision(request.expected_revision.as_str()) {
        Some(revision) => if valid_idempotency_key(request.idempotency_key.as_str())
            && valid_token(request.organization_id.as_str(), 256) && valid_token(
            request.service_account_id.as_str(),
            128,
        ) {
            Some(revision)
        } else {
            None
        },
        None => None,
    }
}

/// An identifier made of a prefix and of random bytes.
pub open spec fn identifier_of(prefix: Seq<char>, bytes: Seq<u8>) -> Seq<char> {
    prefix + base64_text(bytes)
}

/// Base64 after a prefix of identifier characters makes an identifier.
proof fn lemma_identifier(prefix: Seq<char>, bytes: Seq<u8>)
    ensures
        identifier_of(prefix, bytes).len() == prefix.len() + (bytes.len() * 4 + 2) / 3,
        all_token(prefix) ==> all_token(identifier_of(prefix, bytes)),
{
    base64_length_and_alphabet(bytes);
    let text = base64_text(bytes);
    let id = identifier_of(prefix, bytes);
    if all_token(prefix) {
        assert forall|i: int| 0 <= i < id.len() implies token_char(#[trigger] id[i]) by {
            if i < prefix.len() {
                assert(id[i] == prefix[i]);
            } else {
                assert(id[i] == text[i - prefix.len()]);
            }
        }
    }
}

/// An identifier made of a prefix and of the given bytes.
pub fn identifier(prefix: &str, bytes: &[u8]) -> (r: String)
    ensures
        r@ == identifier_of(prefix@, bytes@),
        r@.len() == prefix@.len() + (bytes@.len() * 4 + 2) / 3,
        all_token(prefix@) ==> all_token(r@),
{
    proof {
        lemma_identifier(prefix@, bytes@);
    }
    let mut out: String = prefix.to_string();
    out.append(encode_base64(bytes).as_str());
    out
}

/// `id` is `prefix` followed by 24 bytes in base64.
pub open spec fn is_random_id(id: Seq<char>, prefix: Seq<char>) -> bool {
    exists|bytes: Seq<u8>| bytes.len() == 24 && id == #[trigger] identifier_of(prefix, bytes)
}

/// A new identifier of 192 random bits. Under a prefix of at most 96 characters
/// of an identifier it is one that a request can name.
pub fn random_id(prefix: &str) -> (r: Result<String, ServiceAccountPluginError>)
    ensures
        match r {
            Ok(id) => {
                &&& is_random_id(id@, prefix@)
                &&& id@.len() == prefix@.len() + 32
                &&& prefix@.len() <= 96 && all_token(prefix@) ==> is_token(id@, 128)
            },
            Err(error) => error is Random,
        },
{
    match random_material(24) {
        Ok(bytes) => {
            let id: String = identifier(prefix, bytes.as_slice());
            assert(id@ == identifier_of(prefix@, bytes@));
            Ok(id)
        },
        Err(error) => Err(ServiceAccountPluginError::Random(error)),
    }
}

/// A random identifier under a prefix of at most 96 characters of an identifier
/// is one that a request can name.
pub proof fn random_ids_can_be_named(id: Seq<char>, prefix: Seq<char>)
    requires
        is_random_id(id, prefix),
        prefix.len() <= 96,
        all_token(prefix),
    ensures
        id.len() == prefix.len() + 32,
        is_token(id, 128),
{
    let bytes = choose|bytes: Seq<u8>|
        bytes.len() == 24 && id == #[trigger] identifier_of(prefix, bytes);
    lemma_identifier(prefix, bytes);
}

/// The status that a stored text stands for.
pub open spec fn status_of(text: Seq<char>) -> Option<ServiceAccountStatus> {
    if text == "active"@ {
        Some(ServiceAccountStatus::Active)
    } else if text == "revoked"@ {
        Some(ServiceAccountStatus::Revoked)
    } else {
        None
    }
}

pub open spec fn formattable(t: Option<int>) -> bool {
    t matches Some(t) ==> rfc3339_range(t)
}

/// Every instant of the row has an RFC 3339 form.
pub open spec fn instants_formattable(row: AccountRowView) -> bool {
    &&& rfc3339_range(row.created_at)
    &&& formattable(row.rotated_at)
    &&& formattable(row.revoked_at)
    &&& formattable(row.credential_expires_at)
}

/// `text` is the RFC 3339 form of `t`, or both are missing.
pub open spec fn shows_instant(text: Nullable<String>, t: Option<int>) -> bool {
    match t {
        Some(t) => text.0 matches Some(text) && text@ == rfc3339_text(t),
        None => text.0 is None,
    }
}

/// `summary` shows the row.
pub open spec fn summarizes(summary: ServiceAccountSummary, row: AccountRowView) -> bool {
    &&& summary.service_account_id@ == row.service_account_id
    &&& summary.organization_id@ == row.organization_id
    &&& summary.subject@ == row.subject
    &&& summary.name@ == row.name
    &&& status_of(row.status) == Some(summary.status)
    &&& summary.revision@ == decimal_text(row.revision)
    &&& summary.created_at@ == rfc3339_text(row.created_at)
    &&& shows_instant(summary.rotated_at, row.rotated_at)
    &&& shows_instant(summary.revoked_at, row.revoked_at)
    &&& shows_instant(summary.credential_expires_at, row.credential_expires_at)
}

/// Two nullable texts read alike.
pub open spec fn same_nullable(a: Nullable<String>, b: Nullable<String>) -> bool {
    a.0.deep_view() == b.0.deep_view()
}

/// Two summaries read alike, field by field.
pub open spec fn same_account(a: ServiceAccountSummary, b: ServiceAccountSummary) -> bool {
    &&& a.service_account_id@ == b.service_account_id@
    &&& a.organization_id@ == b.organization_id@
    &&& a.subject@ == b.subject@
    &&& a.name@ == b.name@
    &&& a.status == b.status
    &&& a.revision@ == b.revision@
    &&& a.created_at@ == b.created_at@
    &&& same_nullable(a.rotated_at, b.rotated_at)
    &&& same_nullable(a.revoked_at, b.revoked_at)
    &&& same_nullable(a.credential_expires_at, b.credential_expires_at)
}

/// All summaries of one row read alike.
pub proof fn one_row_has_one_summary(
    a: ServiceAccountSummary,
    b: ServiceAccountSummary,
    row: AccountRowView,
)
    requires
        summarizes(a, row),
        summarizes(b, row),
    ensures
        same_account(a, b),
{
}

/// Why a row has no summary: its status is unknown, or else an instant has no
/// RFC 3339 form.
pub open spec fn unsummarizable(error: ServiceAccountPluginError, row: AccountRowView) -> bool {
    if status_of(row.status) is None {
        error.says("unknown service-account status"@)
    } else {
        !instants_formattable(row) && error is FormatTime
    }
}

fn optional_time(value: Option<i128>) -> (r: Result<Nullable<String>, ServiceAccountPluginError>)
    ensures
        match r {
            Ok(text) => formattable(crate::instant::instant_view(value)) && shows_instant(
                text,
                crate::instant::instant_view(value),
            ),
            Err(error) => !formattable(crate::instant::instant_view(value)) && error is FormatTime,
        },
{
    match value {
        Some(value) => match format_time(value) {
            Ok(text) => Ok(Nullable(Some(text))),
            Err(error) => Err(error),
        },
        None => Ok(Nullable(None)),
    }
}

/// What a manager sees of a row.
pub fn summary(row: &AccountRow) -> (r: Result<ServiceAccountSummary, ServiceAccountPluginError>)
    ensures
        match r {
            Ok(summary) => summarizes(summary, row@) && instants_formattable(row@),
            Err(error) => unsummarizable(error, row@),
        },
{
    let status: ServiceAccountStatus = if same_text(row.status.as_str(), "active") {
        ServiceAccountStatus::Active
    } else if same_text(row.status.as_str(), "revoked") {
        ServiceAccountStatus::Revoked
    } else {
        return Err(ServiceAccountPluginError::Invariant("unknown service-account status"));
    };
    let created_at: String = match format_time(row.created_at) {
        Ok(text) => text,
        Err(error) => {
            return Err(error);
        },
    };
    let rotated_at: Nullable<String> = match optional_time(row.rotated_at) {
        Ok(text) => text,
        Err(error) => {
            return Err(error);
        },
    };
    let revoked_at: Nullable<String> = match optional_time(row.revoked_at) {
        Ok(text) => text,
        Err(error) => {
            return Err(error);
        },
    };
    let credential_expires_at: Nullable<String> = match optional_time(row.credential_expires_at) {
        Ok(text) => text,
        Err(error) => {
            return Err(error);
        },
    };
    Ok(
        ServiceAccountSummary {
            service_account_id: row.service_account_id.clone(),
            organization_id: row.organization_id.clone(),
            subject: row.subject.clone(),
            name: row.name.clone(),
            status,
            revision: decimal(row.revision),
            created_at,
            rotated_at,
            revoked_at,
            credential_expires_at,
        },
    )
}

/// A refusal that the caller is told of.
pub enum AuthorizationDomain {
    Forbidden,
    OrganizationNotFound,
    MembershipRequired,
    AccessDenied,
}

/// Separates what the caller is told from what failed.
pub fn map_authorization(error: AuthorizationError) -> (r: Result<AuthorizationDomain, Failure>)
    ensures
        match error {
            AuthorizationError::Forbidden => r == Ok::<_, Failure>(AuthorizationDomain::Forbidden),
            AuthorizationError::OrganizationNotFound => r == Ok::<_, Failure>(
                AuthorizationDomain::OrganizationNotFound,
            ),
            AuthorizationError::MembershipRequired => r == Ok::<_, Failure>(
                AuthorizationDomain::MembershipRequired,
            ),
            AuthorizationError::AccessDenied => r == Ok::<_, Failure>(
                AuthorizationDomain::AccessDenied,
            ),
            AuthorizationError::Runtime(failure) => r == Err::<AuthorizationDomain, _>(failure),
        },
{
    match error {
        AuthorizationError::Forbidden => Ok(AuthorizationDomain::Forbidden),
        AuthorizationError::OrganizationNotFound => Ok(AuthorizationDomain::OrganizationNotFound),
        AuthorizationError::MembershipRequired => Ok(AuthorizationDomain::MembershipRequired),
        AuthorizationError::AccessDenied => Ok(AuthorizationDomain::AccessDenied),
        AuthorizationError::Runtime(failure) => Err(failure),
    }
}

/// What a refused caller of `create` is told.
pub open spec fn create_refusal(error: AuthorizationError) -> Result<CreateServiceAccountError, Failure> {
    match error {
        AuthorizationError::Forbidden => Ok(CreateServiceAccountError::Forbidden),
        AuthorizationError::OrganizationNotFound => Ok(CreateServiceAccountError::OrganizationNotFound),
        AuthorizationError::MembershipRequired => Ok(CreateServiceAccountError::MembershipRequired),
        AuthorizationError::AccessDenied => Ok(CreateServiceAccountError::AccessDenied),
        AuthorizationError::Runtime(failure) => Err(failure),
    }
}

pub fn map_create_authorization(error: AuthorizationError) -> (r: Result<CreateServiceAccountError, Failure>)
    ensures
        r == create_refusal(error),
{
    match map_authorization(error) {
        Ok(AuthorizationDomain::Forbidden) => Ok(CreateServiceAccountError::Forbidden),
        Ok(AuthorizationDomain::OrganizationNotFound) => Ok(CreateServiceAccountError::OrganizationNotFound),
        Ok(AuthorizationDomain::MembershipRequired) => Ok(CreateServiceAccountError::MembershipRequired),
        Ok(AuthorizationDomain::AccessDenied) => Ok(CreateServiceAccountError::AccessDenied),
        Err(failure) => Err(failure),
    }
}

/// What a refused caller of `get` is told.
pub open spec fn get_refusal(error: AuthorizationError) -> Result<GetServiceAccountError, Failure> {
    match error {
        AuthorizationError::Forbidden => Ok(GetServiceAccountError::Forbidden),
        AuthorizationError::OrganizationNotFound => Ok(GetServiceAccountError::OrganizationNotFound),
        AuthorizationError::MembershipRequired => Ok(GetServiceAccountError::MembershipRequired),
        AuthorizationError::AccessDenied => Ok(GetServiceAccountError::AccessDenied),
        AuthorizationError::Runtime(failure) => Err(failure),
    }
}

pub fn map_get_authorization(error: AuthorizationError) -> (r: Result<GetServiceAccountError, Failure>)
    ensures
        r == get_refusal(error),
{
    match map_authorization(error) {
        Ok(AuthorizationDomain::Forbidden) => Ok(GetServiceAccountError::Forbidden),
        Ok(AuthorizationDomain::OrganizationNotFound) => Ok(GetServiceAccountError::OrganizationNotFound),
        Ok(AuthorizationDomain::MembershipRequired) => Ok(GetServiceAccountError::MembershipRequired),
        Ok(AuthorizationDomain::AccessDenied) => Ok(GetServiceAccountError::AccessDenied),
        Err(failure) => Err(failure),
    }
}

/// What a refused caller of `list` is told.
pub open spec fn list_refusal(error: AuthorizationError) -> Result<ListServiceAccountsError, Failure> {
    match error {
        AuthorizationError::Forbidden => Ok(ListServiceAccountsError::Forbidden),
        AuthorizationError::OrganizationNotFound => Ok(ListServiceAccountsError::OrganizationNotFound),
        AuthorizationError::MembershipRequired => Ok(ListServiceAccountsError::MembershipRequired),
        AuthorizationError::AccessDenied => Ok(ListServiceAccountsError::AccessDenied),
        AuthorizationError::Runtime(failure) => Err(failure),
    }
}

pub fn map_list_authorization(error: AuthorizationError) -> (r: Result<ListServiceAccountsError, Failure>)
    ensures
        r == list_refusal(error),
{
    match map_authorization(error) {
        Ok(AuthorizationDomain::Forbidden) => Ok(ListServiceAccountsError::Forbidden),
        Ok(AuthorizationDomain::OrganizationNotFound) => Ok(ListServiceAccountsError::OrganizationNotFound),
        Ok(AuthorizationDomain::MembershipRequired) => Ok(ListServiceAccountsError::MembershipRequired),
        Ok(AuthorizationDomain::AccessDenied) => Ok(ListServiceAccountsError::AccessDenied),
        Err(failure) => Err(failure),
    }
}

/// What a refused caller of `rotate_secret` is told.
pub open spec fn rotate_refusal(error: AuthorizationError) -> Result<RotateServiceAccountSecretError, Failure> {
    match error {
        AuthorizationError::Forbidden => Ok(RotateServiceAccountSecretError::Forbidden),
        AuthorizationError::OrganizationNotFound => Ok(RotateServiceAccountSecretError::OrganizationNotFound),
        AuthorizationError::MembershipRequired => Ok(RotateServiceAccountSecretError::MembershipRequired),
        AuthorizationError::AccessDenied => Ok(RotateServiceAccountSecretError::AccessDenied),
        AuthorizationError::Runtime(failure) => Err(failure),
    }
}

pub fn map_rotate_authorization(error: AuthorizationError) -> (r: Result<RotateServiceAccountSecretError, Failure>)
    ensures
        r == rotate_refusal(error),
{
    match map_authorization(error) {
        Ok(AuthorizationDomain::Forbidden) => Ok(RotateServiceAccountSecretError::Forbidden),
        Ok(AuthorizationDomain::OrganizationNotFound) => Ok(RotateServiceAccountSecretError::OrganizationNotFound),
        Ok(AuthorizationDomain::MembershipRequired) => Ok(RotateServiceAccountSecretError::MembershipRequired),
        Ok(AuthorizationDomain::AccessDenied) => Ok(RotateServiceAccountSecretError::AccessDenied),
        Err(failure) => Err(failure),
    }
}

/// What a refused caller of `revoke` is told.
pub open spec fn revoke_refusal(error: AuthorizationError) -> Result<RevokeServiceAccountError, Failure> {
    match error {
        AuthorizationError::Forbidden => Ok(RevokeServiceAccountError::Forbidden),
        AuthorizationError::OrganizationNotFound => Ok(RevokeServiceAccountError::OrganizationNotFound),
        AuthorizationError::MembershipRequired => Ok(RevokeServiceAccountError::MembershipRequired),
        AuthorizationError::AccessDenied => Ok(RevokeServiceAccountError::AccessDenied),
        AuthorizationError::Runtime(failure) => Err(failure),
    }
}

pub fn map_revoke_authorization(error: AuthorizationError) -> (r: Result<RevokeServiceAccountError, Failure>)
    ensures
        r == revoke_refusal(error),
{
    match map_authorization(error) {
        Ok(AuthorizationDomain::Forbidden) => Ok(RevokeServiceAccountError::Forbidden),
        Ok(AuthorizationDomain::OrganizationNotFound) => Ok(RevokeServiceAccountError::OrganizationNotFound),
        Ok(AuthorizationDomain::MembershipRequired) => Ok(RevokeServiceAccountError::MembershipRequired),
        Ok(AuthorizationDomain::AccessDenied) => Ok(RevokeServiceAccountError::AccessDenied),
        Err(failure) => Err(failure),
    }
}

/// The error that a recorded code of `create` stands for.
pub open spec fn create_error_of(code: Seq<char>) -> Option<CreateServiceAccountError> {
    if code == "name_conflict"@ {
        Some(CreateServiceAccountError::NameConflict)
    } else if code == "directory_rejected"@ {
        Some(CreateServiceAccountError::DirectoryRejected)
    } else if code == "too_many_service_accounts"@ {
        Some(CreateServiceAccountError::TooManyServiceAccounts)
    } else {
        None
    }
}

/// The error that a recorded code stands for.
pub fn create_error(code: &str) -> (r: Result<CreateServiceAccountError, ServiceAccountPluginError>)
    ensures
        match r {
            Ok(error) => create_error_of(code@) == Some(error),
            Err(error) => create_error_of(code@) is None && error.says(
                "unknown create receipt error"@,
            ),
        },
{
    if same_text(code, "name_conflict") {
        Ok(CreateServiceAccountError::NameConflict)
    } else if same_text(code, "directory_rejected") {
        Ok(CreateServiceAccountError::DirectoryRejected)
    } else if same_text(code, "too_many_service_accounts") {
        Ok(CreateServiceAccountError::TooManyServiceAccounts)
    } else {
        Err(ServiceAccountPluginError::Invariant("unknown create receipt error"))
    }
}

/// The error that a recorded code of `rotate_secret` stands for.
pub open spec fn rotate_error_of(code: Seq<char>) -> Option<RotateServiceAccountSecretError> {
    if code == "not_found"@ {
        Some(RotateServiceAccountSecretError::NotFound)
    } else if code == "revoked"@ {
        Some(RotateServiceAccountSecretError::Revoked)
    } else if code == "revision_conflict"@ {
        Some(RotateServiceAccountSecretError::RevisionConflict)
    } else {
        None
    }
}

/// The error that a recorded code stands for.
pub fn rotate_error(code: &str) -> (r: Result<RotateServiceAccountSecretError, ServiceAccountPluginError>)
    ensures
        match r {
            Ok(error) => rotate_error_of(code@) == Some(error),
            Err(error) => rotate_error_of(code@) is None && error.says(
                "unknown rotate receipt error"@,
            ),
        },
{
    if same_text(code, "not_found") {
        Ok(RotateServiceAccountSecretError::NotFound)
    } else if same_text(code, "revoked") {
        Ok(RotateServiceAccountSecretError::Revoked)
    } else if same_text(code, "revision_conflict") {
        Ok(RotateServiceAccountSecretError::RevisionConflict)
    } else {
        Err(ServiceAccountPluginError::Invariant("unknown rotate receipt error"))
    }
}

/// The error that a recorded code of `revoke` stands for.
pub open spec fn revoke_error_of(code: Seq<char>) -> Option<RevokeServiceAccountError> {
    if code == "not_found"@ {
        Some(RevokeServiceAccountError::NotFound)
    } else if code == "revision_conflict"@ {
        Some(RevokeServiceAccountError::RevisionConflict)
    } else {
        None
    }
}

/// The error that a recorded code stands for.
pub fn revoke_error(code: &str) -> (r: Result<RevokeServiceAccountError, ServiceAccountPluginError>)
    ensures
        match r {
            Ok(error) => revoke_error_of(code@) == Some(error),
            Err(error) => revoke_error_of(code@) is None && error.says(
                "unknown revoke receipt error"@,
            ),
        },
{
    if same_text(code, "not_found") {
        Ok(RevokeServiceAccountError::NotFound)
    } else if same_text(code, "revision_conflict") {
        Ok(RevokeServiceAccountError::RevisionConflict)
    } else {
        Err(ServiceAccountPluginError::Invariant("unknown revoke receipt error"))
    }
}

} // verus!
