//! Request and answer of the secret exchange, capability
//! `lenso.auth.service-account@1`.

use vstd::prelude::*;

use crate::debug::{
    debug_struct, field_views, quoted, quoted_text, redacted, redacted_text, redaction_is_shown,
    struct_text,
};
use crate::text::holds_text;

verus! {

pub const EXCHANGE_SECRET_OPERATION: &'static str = "exchange_secret";

/// Asks for a credential against an account secret.
#[derive(Clone, PartialEq, Eq)]
pub struct ExchangeServiceAccountSecretRequest {
    pub idempotency_key: String,
    pub secret: String,
}

/// The issued credential and whom it stands for.
#[derive(Clone, PartialEq, Eq)]
pub struct ExchangeServiceAccountSecretResponse {
    pub service_account_id: String,
    pub organization_id: String,
    pub subject: String,
    pub session_id: String,
    pub credential: String,
    pub expires_at: String,
}

/// Why no credential was issued.
#[derive(Clone, Copy, Debug, PartialEq, Eq)]
pub enum ExchangeServiceAccountSecretError {
    Forbidden,
    InvalidRequest,
    InvalidCredentials,
    RateLimited,
    Disabled,
    IdempotencyConflict,
    OperationInProgress,
}

impl ExchangeServiceAccountSecretRequest {
    /// The form of the request in diagnostics; the secret is left out.
    pub open spec fn debug_view(self) -> Seq<char> {
        struct_text(
            "ExchangeServiceAccountSecretRequest"@,
            seq![
                ("idempotency_key"@, quoted_text(self.idempotency_key@)),
                ("secret"@, redacted_text()),
            ],
        )
    }

    pub fn debug_text(&self) -> (r: String)
        ensures
            r@ == self.debug_view(),
    {
        let fields: Vec<(&str, String)> = vec![
            ("idempotency_key", quoted(self.idempotency_key.as_str())),
            ("secret", redacted()),
        ];
        proof {
            assert(field_views(fields@) =~= seq![
                ("idempotency_key"@, quoted_text(self.idempotency_key@)),
                ("secret"@, redacted_text()),
            ]);
        }
        debug_struct("ExchangeServiceAccountSecretRequest", &fields)
    }
}

impl ExchangeServiceAccountSecretResponse {
    /// The form of the answer in diagnostics; the credential is left out.
    pub open spec fn debug_view(self) -> Seq<char> {
        struct_text(
            "ExchangeServiceAccountSecretResponse"@,
            seq![
                ("credential"@, redacted_text()),
                ("expires_at"@, quoted_text(self.expires_at@)),
                ("organization_id"@, quoted_text(self.organization_id@)),
                ("service_account_id"@, quoted_text(self.service_account_id@)),
                ("session_id"@, quoted_text(self.session_id@)),
                ("subject"@, quoted_text(self.subject@)),
            ],
        )
    }

    pub fn debug_text(&self) -> (r: String)
        ensures
            r@ == self.debug_view(),
    {
        let fields: Vec<(&str, String)> = vec![
            ("credential", redacted()),
            ("expires_at", quoted(self.expires_at.as_str())),
            ("organization_id", quoted(self.organization_id.as_str())),
            ("service_account_id", quoted(self.service_account_id.as_str())),
            ("session_id", quoted(self.session_id.as_str())),
            ("subject", quoted(self.subject.as_str())),
        ];
        proof {
            assert(field_views(fields@) =~= seq![
                ("credential"@, redacted_text()),
                ("expires_at"@, quoted_text(self.expires_at@)),
                ("organization_id"@, quoted_text(self.organization_id@)),
                ("service_account_id"@, quoted_text(self.service_account_id@)),
                ("session_id"@, quoted_text(self.session_id@)),
                ("subject"@, quoted_text(self.subject@)),
            ]);
        }
        debug_struct("ExchangeServiceAccountSecretResponse", &fields)
    }
}

/// Diagnostics of two requests that differ in their secrets alone read alike, and
/// show that something was left out.
pub proof fn exchange_request_debug_hides_the_secret(
    request: ExchangeServiceAccountSecretRequest,
    secret: String,
)
    ensures
        request.debug_view() == (ExchangeServiceAccountSecretRequest {
            secret,
            ..request
        }).debug_view(),
        holds_text(request.debug_view(), "<redacted>"@),
{
    let fields = seq![
        ("idempotency_key"@, quoted_text(request.idempotency_key@)),
        ("secret"@, redacted_text()),
    ];
    redaction_is_shown("ExchangeServiceAccountSecretRequest"@, fields, 1);
}

/// Diagnostics of two answers that differ in their credentials alone read alike,
/// and show that something was left out.
pub proof fn exchange_response_debug_hides_the_credential(
    response: ExchangeServiceAccountSecretResponse,
    credential: String,
)
    ensures
        response.debug_view() == (ExchangeServiceAccountSecretResponse {
            credential,
            ..response
        }).debug_view(),
        holds_text(response.debug_view(), "<redacted>"@),
{
    let fields = seq![
        ("credential"@, redacted_text()),
        ("expires_at"@, quoted_text(response.expires_at@)),
        ("organization_id"@, quoted_text(response.organization_id@)),
        ("service_account_id"@, quoted_text(response.service_account_id@)),
        ("session_id"@, quoted_text(response.session_id@)),
        ("subject"@, quoted_text(response.subject@)),
    ];
    redaction_is_shown("ExchangeServiceAccountSecretResponse"@, fields, 0);
}

} // verus!
