//! Requests and answers of Service Account management, capability
//! `lenso.service-account@1`.

use vstd::prelude::*;
use vstd::string::*;

use crate::debug::{
    bool_text, debug_bool, debug_struct, field_views, optional_text, quoted, quoted_option,
    quoted_text, redacted, redacted_text, redaction_is_shown, struct_text,
};
use crate::text::holds_text;

verus! {

/// The capability that manages service accounts.
pub const CAPABILITY_ID: &'static str = "lenso.service-account@1";

pub const CREATE_OPERATION: &'static str = "create";

pub const GET_OPERATION: &'static str = "get";

pub const LIST_OPERATION: &'static str = "list";

pub const ROTATE_SECRET_OPERATION: &'static str = "rotate_secret";

pub const REVOKE_OPERATION: &'static str = "revoke";

/// A field that is always written, as a value or as null.
#[derive(Clone, Debug, PartialEq, Eq)]
pub struct Nullable<T>(pub Option<T>);

/// Whether an account can still be used.
#[derive(Clone, Copy, Debug, PartialEq, Eq)]
pub enum ServiceAccountStatus {
    Active,
    Revoked,
}

/// What a manager sees of an account.
#[derive(Clone, Debug, PartialEq, Eq)]
pub struct ServiceAccountSummary {
    pub service_account_id: String,
    pub organization_id: String,
    pub subject: String,
    pub name: String,
    pub status: ServiceAccountStatus,
    pub revision: String,
    pub created_at: String,
    pub rotated_at: Nullable<String>,
    pub revoked_at: Nullable<String>,
    pub credential_expires_at: Nullable<String>,
}

/// Asks for a new account.
#[derive(Clone, Debug, PartialEq, Eq)]
pub struct CreateServiceAccountRequest {
    pub idempotency_key: String,
    pub organization_id: String,
    pub name: String,
}

/// The account, and its secret the first time only.
#[derive(Clone, PartialEq, Eq)]
pub struct CreateServiceAccountResponse {
    pub account: ServiceAccountSummary,
    pub created: bool,
    pub secret: Nullable<String>,
}

/// Why no account was created.
#[derive(Clone, Copy, Debug, PartialEq, Eq)]
pub enum CreateServiceAccountError {
    Forbidden,
    InvalidRequest,
    OrganizationNotFound,
    MembershipRequired,
    AccessDenied,
    NameConflict,
    DirectoryRejected,
    IdempotencyConflict,
    OperationInProgress,
    TooManyServiceAccounts,
}

/// Asks for one account.
#[derive(Clone, Debug, PartialEq, Eq)]
pub struct GetServiceAccountRequest {
    pub organization_id: String,
    pub service_account_id: String,
}

#[derive(Clone, Debug, PartialEq, Eq)]
pub struct GetServiceAccountResponse {
    pub account: ServiceAccountSummary,
}

/// Why no account was shown.
#[derive(Clone, Copy, Debug, PartialEq, Eq)]
pub enum GetServiceAccountError {
    Forbidden,
    InvalidRequest,
    OrganizationNotFound,
    MembershipRequired,
    AccessDenied,
    NotFound,
}

/// Asks for a page of accounts that follow `after`.
#[derive(Clone, Debug, PartialEq, Eq)]
pub struct ListServiceAccountsRequest {
    pub organization_id: String,
    pub after: Nullable<String>,
    pub limit: String,
}

/// A page, and where the next one starts.
#[derive(Clone, Debug, PartialEq, Eq)]
pub struct ListServiceAccountsResponse {
    pub accounts: Vec<ServiceAccountSummary>,
    pub next_cursor: Nullable<String>,
}

/// Why no page was shown.
#[derive(Clone, Copy, Debug, PartialEq, Eq)]
pub enum ListServiceAccountsError {
    Forbidden,
    InvalidRequest,
    OrganizationNotFound,
    MembershipRequired,
    AccessDenied,
}

/// Asks for a new secret, if the account is still at `expected_revision`.
#[derive(Clone, Debug, PartialEq, Eq)]
pub struct RotateServiceAccountSecretRequest {
    pub idempotency_key: String,
    pub organization_id: String,
    pub service_account_id: String,
    pub expected_revision: String,
}

/// The account, and its new secret the first time only.
#[derive(Clone, PartialEq, Eq)]
pub struct RotateServiceAccountSecretResponse {
    pub account: ServiceAccountSummary,
    pub rotated: bool,
    pub secret: Nullable<String>,
}

/// Why the secret was not rotated.
#[derive(Clone, Copy, Debug, PartialEq, Eq)]
pub enum RotateServiceAccountSecretError {
    Forbidden,
    InvalidRequest,
    OrganizationNotFound,
    MembershipRequired,
    AccessDenied,
    NotFound,
    Revoked,
    RevisionConflict,
    IdempotencyConflict,
    OperationInProgress,
}

/// Asks to revoke the account, if it is still at `expected_revision`.
#[derive(Clone, Debug, PartialEq, Eq)]
pub struct RevokeServiceAccountRequest {
    pub idempotency_key: String,
    pub organization_id: String,
    pub service_account_id: String,
    pub expected_revision: String,
}

/// The account, and whether this call revoked it.
#[derive(Clone, Debug, PartialEq, Eq)]
pub struct RevokeServiceAccountResponse {
    pub account: ServiceAccountSummary,
    pub revoked: bool,
}

/// Why the account was not revoked.
#[derive(Clone, Copy, Debug, PartialEq, Eq)]
pub enum RevokeServiceAccountError {
    Forbidden,
    InvalidRequest,
    OrganizationNotFound,
    MembershipRequired,
    AccessDenied,
    NotFound,
    RevisionConflict,
    IdempotencyConflict,
    OperationInProgress,
}

impl ServiceAccountStatus {
    pub open spec fn debug_view(self) -> Seq<char> {
        match self {
            ServiceAccountStatus::Active => "Active"@,
            ServiceAccountStatus::Revoked => "Revoked"@,
        }
    }

    pub fn debug_text(&self) -> (r: String)
        ensures
            r@ == self.debug_view(),
    {
        match self {
            ServiceAccountStatus::Active => "Active".to_string(),
            ServiceAccountStatus::Revoked => "Revoked".to_string(),
        }
    }
}

impl ServiceAccountSummary {
    /// The form of a summary in diagnostics.
    pub open spec fn debug_view(self) -> Seq<char> {
        struct_text(
            "ServiceAccountSummary"@,
            seq![
                ("created_at"@, quoted_text(self.created_at@)),
                ("credential_expires_at"@, optional_text(self.credential_expires_at.0.deep_view())),
                ("name"@, quoted_text(self.name@)),
                ("organization_id"@, quoted_text(self.organization_id@)),
                ("revision"@, quoted_text(self.revision@)),
                ("revoked_at"@, optional_text(self.revoked_at.0.deep_view())),
                ("rotated_at"@, optional_text(self.rotated_at.0.deep_view())),
                ("service_account_id"@, quoted_text(self.service_account_id@)),
                ("status"@, self.status.debug_view()),
                ("subject"@, quoted_text(self.subject@)),
            ],
        )
    }

    pub fn debug_text(&self) -> (r: String)
        ensures
            r@ == self.debug_view(),
    {
        let fields: Vec<(&str, String)> = vec![
            ("created_at", quoted(self.created_at.as_str())),
            ("credential_expires_at", quoted_option(&self.credential_expires_at.0)),
            ("name", quoted(self.name.as_str())),
            ("organization_id", quoted(self.organization_id.as_str())),
            ("revision", quoted(self.revision.as_str())),
            ("revoked_at", quoted_option(&self.revoked_at.0)),
            ("rotated_at", quoted_option(&self.rotated_at.0)),
            ("service_account_id", quoted(self.service_account_id.as_str())),
            ("status", self.status.debug_text()),
            ("subject", quoted(self.subject.as_str())),
        ];
        proof {
            assert(field_views(fields@) =~= seq![
                ("created_at"@, quoted_text(self.created_at@)),
                ("credential_expires_at"@, optional_text(self.credential_expires_at.0.deep_view())),
                ("name"@, quoted_text(self.name@)),
                ("organization_id"@, quoted_text(self.organization_id@)),
                ("revision"@, quoted_text(self.revision@)),
                ("revoked_at"@, optional_text(self.revoked_at.0.deep_view())),
                ("rotated_at"@, optional_text(self.rotated_at.0.deep_view())),
                ("service_account_id"@, quoted_text(self.service_account_id@)),
                ("status"@, self.status.debug_view()),
                ("subject"@, quoted_text(self.subject@)),
            ]);
        }
        debug_struct("ServiceAccountSummary", &fields)
    }
}

impl CreateServiceAccountResponse {
    /// The form of the answer in diagnostics; the secret is left out.
    pub open spec fn debug_view(self) -> Seq<char> {
        struct_text(
            "CreateServiceAccountResponse"@,
            seq![
                ("account"@, self.account.debug_view()),
                ("created"@, bool_text(self.created)),
                ("secret"@, redacted_text()),
            ],
        )
    }

    pub fn debug_text(&self) -> (r: String)
        ensures
            r@ == self.debug_view(),
    {
        let fields: Vec<(&str, String)> = vec![
            ("account", self.account.debug_text()),
            ("created", debug_bool(self.created)),
            ("secret", redacted()),
        ];
        proof {
            assert(field_views(fields@) =~= seq![
                ("account"@, self.account.debug_view()),
                ("created"@, bool_text(self.created)),
                ("secret"@, redacted_text()),
            ]);
        }
        debug_struct("CreateServiceAccountResponse", &fields)
    }
}

impl RotateServiceAccountSecretResponse {
    /// The form of the answer in diagnostics; the secret is left out.
    pub open spec fn debug_view(self) -> Seq<char> {
        struct_text(
            "RotateServiceAccountSecretResponse"@,
            seq![
                ("account"@, self.account.debug_view()),
                ("rotated"@, bool_text(self.rotated)),
                ("secret"@, redacted_text()),
            ],
        )
    }

    pub fn debug_text(&self) -> (r: String)
        ensures
            r@ == self.debug_view(),
    {
        let fields: Vec<(&str, String)> = vec![
            ("account", self.account.debug_text()),
            ("rotated", debug_bool(self.rotated)),
            ("secret", redacted()),
        ];
        proof {
            assert(field_views(fields@) =~= seq![
                ("account"@, self.account.debug_view()),
                ("rotated"@, bool_text(self.rotated)),
                ("secret"@, redacted_text()),
            ]);
        }
        debug_struct("RotateServiceAccountSecretResponse", &fields)
    }
}

/// Diagnostics of two answers that differ in their secrets alone read alike, and
/// show that something was left out.
pub proof fn create_response_debug_hides_the_secret(
    response: CreateServiceAccountResponse,
    secret: Nullable<String>,
)
    ensures
        response.debug_view() == (CreateServiceAccountResponse { secret, ..response }).debug_view(),
        holds_text(response.debug_view(), "<redacted>"@),
{
    let fields = seq![
        ("account"@, response.account.debug_view()),
        ("created"@, bool_text(response.created)),
        ("secret"@, redacted_text()),
    ];
    redaction_is_shown("CreateServiceAccountResponse"@, fields, 2);
}

/// Diagnostics of two answers that differ in their secrets alone read alike, and
/// show that something was left out.
pub proof fn rotate_response_debug_hides_the_secret(
    response: RotateServiceAccountSecretResponse,
    secret: Nullable<String>,
)
    ensures
        response.debug_view() == (RotateServiceAccountSecretResponse { secret, ..response }).debug_view(),
        holds_text(response.debug_view(), "<redacted>"@),
{
    let fields = seq![
        ("account"@, response.account.debug_view()),
        ("rotated"@, bool_text(response.rotated)),
        ("secret"@, redacted_text()),
    ];
    redaction_is_shown("RotateServiceAccountSecretResponse"@, fields, 2);
}

} // verus!
