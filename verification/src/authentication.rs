//! Exchanging an account secret for a bounded credential of the App.

use vstd::prelude::*;
use vstd::string::*;

use crate::admission::{command_aad, receipt_binding, Admission, AdmissionEvent, Refusal};
use crate::auth_contract::{
    ExchangeServiceAccountSecretError, ExchangeServiceAccountSecretRequest,
    ExchangeServiceAccountSecretResponse, EXCHANGE_SECRET_OPERATION,
};
use crate::config::{listed, lists};
use crate::crypto::{
    credential_id, named_credential, opened_receipt, secret_bytes, secret_verifies, sha256_digest,
    verify_secret,
};
use crate::error::{CryptoError, Failure, ServiceAccountPluginError};
use crate::history::{
    completed_commands_last, leaves_open, replay, spares, unfinished_commands_stay_in_progress,
    Transaction,
};
use crate::instant::{
    after_seconds, calendar_instant, earliest, format_time, later, now_utc, parse_time,
    rfc3339_instant, rfc3339_range, rfc3339_text,
};
use crate::lifecycle::ActiveServiceAccount;
use crate::management::valid_idempotency_key;
use crate::rows::{ClaimView, CommandClaim, CommandKey, CommandKeyView, CredentialRow};
use crate::storage::{
    after_claim, after_error, after_success, claim_outcome, completable, exchange_key, TablesView,
};
use crate::text::{byte_len, copy_texts, is_token, same_text, text_len};

verus! {

/// Where an exchange stands. All states but the last two ask for outside work.
pub enum Exchange {
    /// Admit the command.
    Admit { request: ExchangeServiceAccountSecretRequest, admission: Admission },
    /// Deserialize the answer from the receipt.
    DecodeReceipt { receipt: Vec<u8> },
    /// Count the attempt against the caller's rate limit.
    ReserveSlot {
        command: CommandKey,
        request: ExchangeServiceAccountSecretRequest,
        now: i128,
        window_seconds: u64,
        max_attempts: u32,
        lockout_seconds: u64,
    },
    /// Load the credential that the secret names.
    LoadCredential {
        command: CommandKey,
        request: ExchangeServiceAccountSecretRequest,
        now: i128,
        credential_id: String,
    },
    /// Ask Identity Directory for the status of the credential's subject.
    ReadStatus { command: CommandKey, credential: CredentialRow },
    /// Recheck the credential and mark the command `issuing`.
    MarkIssuing {
        command: CommandKey,
        credential_id: String,
        service_account_id: String,
        now: i128,
    },
    /// Ask Credential Issuer for a credential.
    Issue { command: CommandKey, credential: CredentialRow, expires_at: i128, order: IssueOrder },
    /// Serialize the answer.
    EncodeReceipt { command: CommandKey, response: ExchangeServiceAccountSecretResponse },
    /// Complete the command with its encrypted answer.
    StoreReceipt {
        command: CommandKey,
        response: ExchangeServiceAccountSecretResponse,
        nonce: Vec<u8>,
        ciphertext: Vec<u8>,
    },
    /// Complete the command with the error code.
    RecordError { command: CommandKey, code: String, error: ExchangeServiceAccountSecretError },
    Done(Result<ExchangeServiceAccountSecretResponse, ExchangeServiceAccountSecretError>),
    Failed(Failure),
}

/// What is asked of Credential Issuer.
pub struct IssueOrder {
    pub subject: String,
    pub actor_kind: String,
    pub assurance: String,
    pub audience: Vec<String>,
    /// Names and values.
    pub claims: Vec<(String, String)>,
    pub expires_at: String,
}

/// Outside work that was done.
pub enum ExchangeEvent {
    Admission(AdmissionEvent),
    ReceiptDecoded(Result<ExchangeServiceAccountSecretResponse, serde_json::Error>),
    SlotReserved(bool),
    CredentialLoaded(Option<CredentialRow>),
    StatusRead(StatusReply),
    Marked(Option<CredentialRow>),
    Issued(IssueReply),
    ReceiptEncoded(Result<Vec<u8>, serde_json::Error>),
    ReceiptStored,
    Recorded,
}

/// What Identity Directory answered.
pub enum StatusReply {
    Status { subject: String, active: bool },
    /// The subject is unknown or invalid.
    Missing,
    Unknown,
    Failed,
}

/// What Credential Issuer answered.
pub enum IssueReply {
    Session { session_id: String, credential: String, expires_at: String },
    Disabled,
    /// Any other answer: it is not known whether a credential was issued.
    Indeterminate,
    Failed,
}

/// The error that a recorded code stands for.
pub open spec fn exchange_error_of(code: Seq<char>) -> Option<ExchangeServiceAccountSecretError> {
    if code == "invalid_credentials"@ {
        Some(ExchangeServiceAccountSecretError::InvalidCredentials)
    } else if code == "rate_limited"@ {
        Some(ExchangeServiceAccountSecretError::RateLimited)
    } else if code == "disabled"@ {
        Some(ExchangeServiceAccountSecretError::Disabled)
    } else {
        None
    }
}

/// The error that a recorded code stands for.
pub fn exchange_error(code: &str) -> (r: Result<
    ExchangeServiceAccountSecretError,
    ServiceAccountPluginError,
>)
    ensures
        match r {
            Ok(error) => exchange_error_of(code@) == Some(error),
            Err(error) => exchange_error_of(code@) is None && error.says(
                "unknown exchange receipt error"@,
            ),
        },
{
    if same_text(code, "invalid_credentials") {
        Ok(ExchangeServiceAccountSecretError::InvalidCredentials)
    } else if same_text(code, "rate_limited") {
        Ok(ExchangeServiceAccountSecretError::RateLimited)
    } else if same_text(code, "disabled") {
        Ok(ExchangeServiceAccountSecretError::Disabled)
    } else {
        Err(ServiceAccountPluginError::Invariant("unknown exchange receipt error"))
    }
}

/// The request is well formed.
pub open spec fn valid_exchange(request: ExchangeServiceAccountSecretRequest) -> bool {
    &&& is_token(request.idempotency_key@, 128)
    &&& 1 <= byte_len(request.secret@) <= 512
}

/// The account is active, and the credential is valid at `now`.
pub open spec fn currently_valid(row: CredentialRow, now: int) -> bool {
    &&& row.account_status@ == "active"@
    &&& row.revoked_at is None
    &&& row.valid_from <= now < row.valid_until
}

/// The secret is that of the credential, which is valid at `now`.
pub open spec fn authentic(
    active: ActiveServiceAccount,
    secret: Seq<char>,
    row: CredentialRow,
    now: int,
) -> bool {
    &&& secret_verifies(secret, secret_bytes(active.pepper), row.verifier@)
    &&& currently_valid(row, now)
}

/// When a credential that is issued at `now` expires: after the configured
/// lifetime, but not after the account's own credential.
pub open spec fn issued_expiry(active: ActiveServiceAccount, row: CredentialRow, now: int) -> int {
    let requested = after_seconds(now, active.config.token_ttl_seconds as int);
    if requested <= row.valid_until {
        requested
    } else {
        row.valid_until as int
    }
}

/// `order` asks for a credential of the account for the configured audience,
/// that expires at `expires_at`.
pub open spec fn orders(
    order: IssueOrder,
    active: ActiveServiceAccount,
    row: CredentialRow,
    expires_at: int,
) -> bool {
    &&& order.subject == row.subject
    &&& order.actor_kind@ == "service_account"@
    &&& order.assurance@ == "service_account_secret"@
    &&& order.audience@ == active.config.token_audience@
    &&& order.claims@.len() == 2
    &&& order.claims@[0].0@ == "organization_id"@
    &&& order.claims@[0].1 == row.organization_id
    &&& order.claims@[1].0@ == "service_account_id"@
    &&& order.claims@[1].1 == row.service_account_id
    &&& rfc3339_range(expires_at)
    &&& order.expires_at@ == rfc3339_text(expires_at)
}

/// What Credential Issuer sent has the form of a session.
pub open spec fn session_well_formed(session_id: Seq<char>, credential: Seq<char>) -> bool {
    &&& 1 <= byte_len(session_id) <= 256
    &&& 1 <= byte_len(credential) <= 65_536
}

/// The answer to a successful exchange.
pub fn response(
    credential: &CredentialRow,
    session_id: String,
    token: String,
    expires_at: String,
) -> (r: ExchangeServiceAccountSecretResponse)
    ensures
        r == (ExchangeServiceAccountSecretResponse {
            service_account_id: credential.service_account_id,
            organization_id: credential.organization_id,
            subject: credential.subject,
            session_id,
            credential: token,
            expires_at,
        }),
{
    ExchangeServiceAccountSecretResponse {
        service_account_id: credential.service_account_id.clone(),
        organization_id: credential.organization_id.clone(),
        subject: credential.subject.clone(),
        session_id,
        credential: token,
        expires_at,
    }
}

impl Exchange {
    pub open spec fn fails_with(self, text: Seq<char>) -> bool {
        self matches Exchange::Failed(failure) && failure.says(text)
    }

    /// The exchange asks for an error to be recorded.
    pub open spec fn records(
        self,
        command: CommandKey,
        code: Seq<char>,
        error: ExchangeServiceAccountSecretError,
    ) -> bool {
        &&& self matches Exchange::RecordError { command: own, code: text, error: answer }
        &&& own == command
        &&& text@ == code
        &&& answer == error
    }

    pub open spec fn refuses_credentials(self, command: CommandKey) -> bool {
        self.records(
            command,
            "invalid_credentials"@,
            ExchangeServiceAccountSecretError::InvalidCredentials,
        )
    }

    pub open spec fn refuses_disabled(self, command: CommandKey) -> bool {
        self.records(command, "disabled"@, ExchangeServiceAccountSecretError::Disabled)
    }

    fn refusing_credentials(command: CommandKey) -> (r: Exchange)
        ensures
            r.refuses_credentials(command),
    {
        Exchange::RecordError {
            command,
            code: "invalid_credentials".to_string(),
            error: ExchangeServiceAccountSecretError::InvalidCredentials,
        }
    }

    fn refusing_disabled(command: CommandKey) -> (r: Exchange)
        ensures
            r.refuses_disabled(command),
    {
        Exchange::RecordError {
            command,
            code: "disabled".to_string(),
            error: ExchangeServiceAccountSecretError::Disabled,
        }
    }

    fn failing(text: &str) -> (r: Exchange)
        ensures
            r.fails_with(text@),
    {
        Exchange::Failed(Failure::detail(text))
    }

    /// The exchange, given where its admission stands.
    pub open spec fn follows_admission(
        self,
        active: ActiveServiceAccount,
        request: ExchangeServiceAccountSecretRequest,
        now: int,
        admission: Admission,
    ) -> bool {
        match admission {
            Admission::Admitted { command } => {
                &&& self matches Exchange::ReserveSlot {
                    command: own,
                    request: kept,
                    now: at,
                    window_seconds,
                    max_attempts,
                    lockout_seconds,
                }
                &&& own == command
                &&& kept == request
                &&& at == now
                &&& window_seconds == active.config.exchange_window_seconds
                &&& max_attempts == active.config.max_exchanges_per_window
                &&& lockout_seconds == active.config.exchange_lockout_seconds
            },
            Admission::Replayed { receipt } => self == Exchange::DecodeReceipt { receipt },
            Admission::Refused(Refusal::Recorded(code)) => match exchange_error_of(code@) {
                Some(error) => self == Exchange::Done(Err(error)),
                None => {
                    &&& self matches Exchange::Failed(Failure::Plugin(error))
                    &&& error.says("unknown exchange receipt error"@)
                },
            },
            Admission::Refused(Refusal::Conflict) => self == Exchange::Done(
                Err(ExchangeServiceAccountSecretError::IdempotencyConflict),
            ),
            Admission::Refused(Refusal::InProgress) => self == Exchange::Done(
                Err(ExchangeServiceAccountSecretError::OperationInProgress),
            ),
            Admission::Failed(failure) => self == Exchange::Failed(failure),
            admission => self == Exchange::Admit { request, admission },
        }
    }

    fn from_admission(
        active: &ActiveServiceAccount,
        request: ExchangeServiceAccountSecretRequest,
        now: i128,
        admission: Admission,
    ) -> (r: Exchange)
        ensures
            r.follows_admission(*active, request, now as int, admission),
    {
        match admission {
            Admission::Admitted { command } => Exchange::ReserveSlot {
                command,
                request,
                now,
                window_seconds: active.config.exchange_window_seconds,
                max_attempts: active.config.max_exchanges_per_window,
                lockout_seconds: active.config.exchange_lockout_seconds,
            },
            Admission::Replayed { receipt } => Exchange::DecodeReceipt { receipt },
            Admission::Refused(Refusal::Recorded(code)) => match exchange_error(code.as_str()) {
                Ok(error) => Exchange::Done(Err(error)),
                Err(error) => Exchange::Failed(Failure::Plugin(error)),
            },
            Admission::Refused(Refusal::Conflict) => Exchange::Done(
                Err(ExchangeServiceAccountSecretError::IdempotencyConflict),
            ),
            Admission::Refused(Refusal::InProgress) => Exchange::Done(
                Err(ExchangeServiceAccountSecretError::OperationInProgress),
            ),
            Admission::Failed(failure) => Exchange::Failed(failure),
            admission => Exchange::Admit { request, admission },
        }
    }

    /// The start of an exchange.
    pub open spec fn is_start(
        self,
        active: ActiveServiceAccount,
        caller: Option<String>,
        request: ExchangeServiceAccountSecretRequest,
    ) -> bool {
        if !(caller is Some && lists(active.config.authentication_callers@, caller.unwrap()@)) {
            self == Exchange::Done(Err(ExchangeServiceAccountSecretError::Forbidden))
        } else if !valid_exchange(request) {
            self == Exchange::Done(Err(ExchangeServiceAccountSecretError::InvalidRequest))
        } else {
            &&& self matches Exchange::Admit { request: kept, admission }
            &&& kept == request
            &&& admission.is_start(
                CommandKeyView {
                    caller: caller.unwrap()@,
                    operation: EXCHANGE_SECRET_OPERATION@,
                    idempotency_key: request.idempotency_key@,
                },
                None,
                active.config.receipt_ttl_seconds,
            )
        }
    }

    pub fn start(
        active: &ActiveServiceAccount,
        caller: Option<String>,
        request: ExchangeServiceAccountSecretRequest,
    ) -> (r: Exchange)
        ensures
            r.is_start(*active, caller, request),
    {
        let caller: String = match caller {
            Some(caller) => caller,
            None => {
                return Exchange::Done(Err(ExchangeServiceAccountSecretError::Forbidden));
            },
        };
        if !listed(&active.config.authentication_callers, &caller) {
            return Exchange::Done(Err(ExchangeServiceAccountSecretError::Forbidden));
        }
        let secret_len: usize = text_len(request.secret.as_str());
        if !valid_idempotency_key(request.idempotency_key.as_str()) || secret_len == 0 || secret_len
            > 512 {
            return Exchange::Done(Err(ExchangeServiceAccountSecretError::InvalidRequest));
        }
        let admission: Admission = Admission::start(
            caller,
            EXCHANGE_SECRET_OPERATION,
            request.idempotency_key.as_str(),
            None,
            active.config.receipt_ttl_seconds,
        );
        Exchange::Admit { request, admission }
    }

    /// The exchange goes on with a loaded credential, or refuses.
    pub open spec fn follows_lookup(
        self,
        active: ActiveServiceAccount,
        command: CommandKey,
        secret: Seq<char>,
        now: int,
        loaded: Option<CredentialRow>,
    ) -> bool {
        if loaded is Some && authentic(active, secret, loaded.unwrap(), now) {
            self == (Exchange::ReadStatus { command, credential: loaded.unwrap() })
        } else {
            self.refuses_credentials(command)
        }
    }

    /// Checks the secret against the loaded credential, or against a dummy
    /// verifier where there is none, so that both cases take the same work.
    pub fn judge(
        active: &ActiveServiceAccount,
        command: CommandKey,
        secret: &str,
        now: i128,
        loaded: Option<CredentialRow>,
    ) -> (r: Exchange)
        ensures
            r.follows_lookup(*active, command, secret@, now as int, loaded),
    {
        match loaded {
            None => {
                let _dummy = verify_secret(
                    secret,
                    active.pepper.as_slice(),
                    active.dummy_verifier.as_str(),
                );
                Exchange::refusing_credentials(command)
            },
            Some(row) => {
                let secret_matches = verify_secret(
                    secret,
                    active.pepper.as_slice(),
                    row.verifier.as_str(),
                );
                if secret_matches && same_text(row.account_status.as_str(), "active")
                    && row.revoked_at.is_none() && row.valid_from <= now && now < row.valid_until {
                    Exchange::ReadStatus { command, credential: row }
                } else {
                    Exchange::refusing_credentials(command)
                }
            },
        }
    }

    /// The exchange goes on after the command was marked `issuing`.
    pub open spec fn follows_marking(
        self,
        active: ActiveServiceAccount,
        command: CommandKey,
        row: CredentialRow,
        now: int,
    ) -> bool {
        let expires_at = issued_expiry(active, row, now);
        if expires_at <= now {
            self.refuses_credentials(command)
        } else if !rfc3339_range(expires_at) {
            self matches Exchange::Failed(
                Failure::Plugin(ServiceAccountPluginError::FormatTime(_)),
            )
        } else {
            &&& self matches Exchange::Issue {
                command: own,
                credential,
                expires_at: bound,
                order,
            }
            &&& own == command
            &&& credential == row
            &&& bound == expires_at
            &&& orders(order, active, row, expires_at)
        }
    }

    fn issuing(
        active: &ActiveServiceAccount,
        command: CommandKey,
        row: CredentialRow,
        now: i128,
    ) -> (r: Exchange)
        requires
            calendar_instant(now as int),
        ensures
            r.follows_marking(*active, command, row, now as int),
    {
        let expires_at: i128 = earliest(
            later(now, active.config.token_ttl_seconds),
            row.valid_until,
        );
        if expires_at <= now {
            return Exchange::refusing_credentials(command);
        }
        let text: String = match format_time(expires_at) {
            Ok(text) => text,
            Err(error) => {
                return Exchange::Failed(Failure::Plugin(error));
            },
        };
        let claims: Vec<(String, String)> = vec![
            ("organization_id".to_string(), row.organization_id.clone()),
            ("service_account_id".to_string(), row.service_account_id.clone()),
        ];
        let order = IssueOrder {
            subject: row.subject.clone(),
            actor_kind: "service_account".to_string(),
            assurance: "service_account_secret".to_string(),
            audience: copy_texts(&active.config.token_audience),
            claims,
            expires_at: text,
        };
        Exchange::Issue { command, credential: row, expires_at, order }
    }

    /// The exchange goes on with what Credential Issuer sent.
    pub open spec fn follows_session(
        self,
        command: CommandKey,
        row: CredentialRow,
        expires_at: i128,
        session_id: String,
        token: String,
        actual: String,
        now: int,
    ) -> bool {
        if !session_well_formed(session_id@, token@) {
            self.fails_with("Credential Issuer returned an invalid service-account credential"@)
        } else {
            match rfc3339_instant(actual@) {
                None => self.fails_with(
                    "Credential Issuer returned an invalid service-account expiry"@,
                ),
                Some(instant) => if instant <= now || instant > expires_at {
                    self.fails_with(
                        "Credential Issuer exceeded the bounded service-account expiry"@,
                    )
                } else {
                    self == (Exchange::EncodeReceipt {
                        command,
                        response: ExchangeServiceAccountSecretResponse {
                            service_account_id: row.service_account_id,
                            organization_id: row.organization_id,
                            subject: row.subject,
                            session_id,
                            credential: token,
                            expires_at: actual,
                        },
                    })
                },
            }
        }
    }

    fn accepting(
        command: CommandKey,
        row: CredentialRow,
        expires_at: i128,
        session_id: String,
        token: String,
        actual: String,
        now: i128,
    ) -> (r: Exchange)
        ensures
            r.follows_session(command, row, expires_at, session_id, token, actual, now as int),
    {
        let session_len: usize = text_len(session_id.as_str());
        let token_len: usize = text_len(token.as_str());
        if session_len == 0 || session_len > 256 || token_len == 0 || token_len > 65_536 {
            return Exchange::failing(
                "Credential Issuer returned an invalid service-account credential",
            );
        }
        match parse_time(actual.as_str()) {
            None => Exchange::failing(
                "Credential Issuer returned an invalid service-account expiry",
            ),
            Some(instant) => if instant <= now || instant > expires_at {
                Exchange::failing("Credential Issuer exceeded the bounded service-account expiry")
            } else {
                Exchange::EncodeReceipt {
                    command,
                    response: response(&row, session_id, token, actual),
                }
            },
        }
    }

    /// `next` is where the exchange goes on after `event`, at `now`.
    pub open spec fn steps_to(
        self,
        active: ActiveServiceAccount,
        event: ExchangeEvent,
        now: int,
        next: Exchange,
    ) -> bool {
        match (self, event) {
            (Exchange::Admit { request, admission }, ExchangeEvent::Admission(event)) => {
                exists|pending: Admission| #[trigger]
                    admission.steps_to(active.receipt_cipher, event, pending)
                        && next.follows_admission(active, request, now, pending)
            },
            (Exchange::DecodeReceipt { receipt }, ExchangeEvent::ReceiptDecoded(decoded)) => {
                match decoded {
                    Ok(response) => next == Exchange::Done(Ok(response)),
                    Err(error) => next == Exchange::Failed(
                        Failure::Plugin(
                            ServiceAccountPluginError::Crypto(CryptoError::Deserialize(error)),
                        ),
                    ),
                }
            },
            (
                Exchange::ReserveSlot {
                    command,
                    request,
                    now: at,
                    window_seconds,
                    max_attempts,
                    lockout_seconds,
                },
                ExchangeEvent::SlotReserved(admitted),
            ) => if !admitted {
                next.records(
                    command,
                    "rate_limited"@,
                    ExchangeServiceAccountSecretError::RateLimited,
                )
            } else {
                match named_credential(request.secret@) {
                    Some(id) => {
                        &&& next matches Exchange::LoadCredential {
                            command: own,
                            request: kept,
                            now: same,
                            credential_id,
                        }
                        &&& own == command
                        &&& kept == request
                        &&& same == at
                        &&& credential_id@ == id
                    },
                    None => next.refuses_credentials(command),
                }
            },
            (
                Exchange::LoadCredential { command, request, now: at, credential_id },
                ExchangeEvent::CredentialLoaded(loaded),
            ) => next.follows_lookup(active, command, request.secret@, at as int, loaded),
            (
                Exchange::ReadStatus { command, credential },
                ExchangeEvent::StatusRead(reply),
            ) => match reply {
                StatusReply::Status { subject, active: enabled } => if subject@
                    != credential.subject@ {
                    next.fails_with(
                        "Identity Directory returned another subject for service-account status"@,
                    )
                } else if enabled {
                    &&& next matches Exchange::MarkIssuing {
                        command: own,
                        credential_id,
                        service_account_id,
                        now: at,
                    }
                    &&& own == command
                    &&& credential_id == credential.credential_id
                    &&& service_account_id == credential.service_account_id
                    &&& at == now
                } else {
                    next.refuses_disabled(command)
                },
                StatusReply::Missing => next.refuses_disabled(command),
                StatusReply::Unknown => next.fails_with(
                    "Identity Directory returned an unknown service-account status error"@,
                ),
                StatusReply::Failed => next == Exchange::Failed(Failure::Relayed),
            },
            (
                Exchange::MarkIssuing { command, credential_id, service_account_id, now: at },
                ExchangeEvent::Marked(marked),
            ) => match marked {
                Some(row) => next.follows_marking(active, command, row, now),
                None => next.refuses_credentials(command),
            },
            (
                Exchange::Issue { command, credential, expires_at, order },
                ExchangeEvent::Issued(reply),
            ) => match reply {
                IssueReply::Session { session_id, credential: token, expires_at: actual } => {
                    next.follows_session(
                        command,
                        credential,
                        expires_at,
                        session_id,
                        token,
                        actual,
                        now,
                    )
                },
                IssueReply::Disabled => next.refuses_disabled(command),
                IssueReply::Indeterminate => next.fails_with(
                    "Credential Issuer returned an indeterminate service-account result"@,
                ),
                IssueReply::Failed => next == Exchange::Failed(Failure::Relayed),
            },
            (
                Exchange::EncodeReceipt { command, response },
                ExchangeEvent::ReceiptEncoded(encoded),
            ) => match encoded {
                Ok(bytes) => match next {
                    Exchange::StoreReceipt { command: own, response: kept, nonce, ciphertext } => {
                        &&& own == command
                        &&& kept == response
                        &&& opened_receipt(
                            active.receipt_cipher.key(),
                            nonce@,
                            ciphertext@,
                            receipt_binding(command@),
                        ) == Some(bytes@)
                    },
                    Exchange::Failed(
                        Failure::Plugin(ServiceAccountPluginError::Crypto(error)),
                    ) => {
                        ||| error is Random
                        ||| error is ReceiptEncryption && (bytes@.len() > 0x10_0000_0000
                            || receipt_binding(command@).len() > 0x10_0000_0000)
                    },
                    _ => false,
                },
                Err(error) => next == Exchange::Failed(
                    Failure::Plugin(
                        ServiceAccountPluginError::Crypto(CryptoError::Serialize(error)),
                    ),
                ),
            },
            (
                Exchange::StoreReceipt { command, response, nonce, ciphertext },
                ExchangeEvent::ReceiptStored,
            ) => next == Exchange::Done(Ok(response)),
            (Exchange::RecordError { command, code, error }, ExchangeEvent::Recorded) => next
                == Exchange::Done(Err(error)),
            _ => next == Exchange::Failed(Failure::UnexpectedReply),
        }
    }

    /// Goes on after `event`, at `now`.
    pub fn resume_at(
        self,
        active: &ActiveServiceAccount,
        event: ExchangeEvent,
        now: i128,
    ) -> (next: Exchange)
        requires
            calendar_instant(now as int),
        ensures
            self.steps_to(*active, event, now as int, next),
    {
        match (self, event) {
            (Exchange::Admit { request, admission }, ExchangeEvent::Admission(event)) => {
                Exchange::from_admission(
                    active,
                    request,
                    now,
                    admission.resume(&active.receipt_cipher, event),
                )
            },
            (Exchange::DecodeReceipt { receipt: _ }, ExchangeEvent::ReceiptDecoded(decoded)) => {
                match decoded {
                    Ok(response) => Exchange::Done(Ok(response)),
                    Err(error) => Exchange::Failed(
                        Failure::Plugin(
                            ServiceAccountPluginError::Crypto(CryptoError::Deserialize(error)),
                        ),
                    ),
                }
            },
            (
                Exchange::ReserveSlot {
                    command,
                    request,
                    now: at,
                    window_seconds: _,
                    max_attempts: _,
                    lockout_seconds: _,
                },
                ExchangeEvent::SlotReserved(admitted),
            ) => {
                if !admitted {
                    return Exchange::RecordError {
                        command,
                        code: "rate_limited".to_string(),
                        error: ExchangeServiceAccountSecretError::RateLimited,
                    };
                }
                let candidate: Option<String> = match credential_id(request.secret.as_str()) {
                    Some(id) => Some(id.to_string()),
                    None => None,
                };
                match candidate {
                    Some(credential_id) => Exchange::LoadCredential {
                        command,
                        request,
                        now: at,
                        credential_id,
                    },
                    None => Exchange::judge(active, command, request.secret.as_str(), at, None),
                }
            },
            (
                Exchange::LoadCredential { command, request, now: at, credential_id: _ },
                ExchangeEvent::CredentialLoaded(loaded),
            ) => Exchange::judge(active, command, request.secret.as_str(), at, loaded),
            (
                Exchange::ReadStatus { command, credential },
                ExchangeEvent::StatusRead(reply),
            ) => match reply {
                StatusReply::Status { subject, active: enabled } => if subject
                    != credential.subject {
                    Exchange::failing(
                        "Identity Directory returned another subject for service-account status",
                    )
                } else if enabled {
                    Exchange::MarkIssuing {
                        command,
                        credential_id: credential.credential_id,
                        service_account_id: credential.service_account_id,
                        now,
                    }
                } else {
                    Exchange::refusing_disabled(command)
                },
                StatusReply::Missing => Exchange::refusing_disabled(command),
                StatusReply::Unknown => Exchange::failing(
                    "Identity Directory returned an unknown service-account status error",
                ),
                StatusReply::Failed => Exchange::Failed(Failure::Relayed),
            },
            (
                Exchange::MarkIssuing {
                    command,
                    credential_id: _,
                    service_account_id: _,
                    now: _,
                },
                ExchangeEvent::Marked(marked),
            ) => match marked {
                Some(row) => Exchange::issuing(active, command, row, now),
                None => Exchange::refusing_credentials(command),
            },
            (
                Exchange::Issue { command, credential, expires_at, order: _ },
                ExchangeEvent::Issued(reply),
            ) => match reply {
                IssueReply::Session { session_id, credential: token, expires_at: actual } => {
                    Exchange::accepting(
                        command,
                        credential,
                        expires_at,
                        session_id,
                        token,
                        actual,
                        now,
                    )
                },
                IssueReply::Disabled => Exchange::refusing_disabled(command),
                IssueReply::Indeterminate => Exchange::failing(
                    "Credential Issuer returned an indeterminate service-account result",
                ),
                IssueReply::Failed => Exchange::Failed(Failure::Relayed),
            },
            (
                Exchange::EncodeReceipt { command, response },
                ExchangeEvent::ReceiptEncoded(encoded),
            ) => match encoded {
                Ok(bytes) => {
                    let aad: Vec<u8> = command_aad(&command);
                    match active.receipt_cipher.encrypt(bytes.as_slice(), aad.as_slice()) {
                        Ok((nonce, ciphertext)) => Exchange::StoreReceipt {
                            command,
                            response,
                            nonce,
                            ciphertext,
                        },
                        Err(error) => Exchange::Failed(
                            Failure::Plugin(ServiceAccountPluginError::Crypto(error)),
                        ),
                    }
                },
                Err(error) => Exchange::Failed(
                    Failure::Plugin(
                        ServiceAccountPluginError::Crypto(CryptoError::Serialize(error)),
                    ),
                ),
            },
            (
                Exchange::StoreReceipt { command: _, response, nonce: _, ciphertext: _ },
                ExchangeEvent::ReceiptStored,
            ) => Exchange::Done(Ok(response)),
            (Exchange::RecordError { command: _, code: _, error }, ExchangeEvent::Recorded) => {
                Exchange::Done(Err(error))
            },
            _ => Exchange::Failed(Failure::UnexpectedReply),
        }
    }

    /// Goes on after `event`, at the current instant.
    pub fn resume(self, active: &ActiveServiceAccount, event: ExchangeEvent) -> (next: Exchange)
        ensures
            exists|now: int|
                calendar_instant(now) && #[trigger] self.steps_to(*active, event, now, next),
    {
        let now: i128 = now_utc();
        self.resume_at(active, event, now)
    }
}

/// `states` is a run of an exchange over `events`, the i-th of them at
/// `times[i]`.
pub open spec fn is_exchange_run(
    states: Seq<Exchange>,
    events: Seq<ExchangeEvent>,
    times: Seq<int>,
    active: ActiveServiceAccount,
    caller: Option<String>,
    request: ExchangeServiceAccountSecretRequest,
) -> bool {
    &&& states.len() == events.len() + 1
    &&& times.len() == events.len()
    &&& states[0].is_start(active, caller, request)
    &&& forall|i: int|
        0 <= i < events.len() ==> (#[trigger] states[i]).steps_to(
            active,
            events[i],
            times[i],
            states[i + 1],
        )
}

/// A run passes its asking states in a fixed order, one event each, and keeps
/// its command and request.
spec fn at_stage(
    state: Exchange,
    i: int,
    command: CommandKeyView,
    request: ExchangeServiceAccountSecretRequest,
) -> bool {
    match state {
        Exchange::Admit { request: own, admission } => {
            &&& own == request
            &&& match admission {
                Admission::Prune { command: c, .. } => i == 0 && c@ == command,
                Admission::EncodeIntent { command: c, .. } => i == 1 && c@ == command,
                Admission::Claim { command: c, .. } => i == 2 && c@ == command,
                _ => false,
            }
        },
        Exchange::DecodeReceipt { .. } => i == 3,
        Exchange::ReserveSlot { command: c, request: own, .. } => i == 3 && c@ == command && own
            == request,
        Exchange::LoadCredential { command: c, request: own, .. } => i == 4 && c@ == command && own
            == request,
        Exchange::ReadStatus { command: c, .. } => i == 5 && c@ == command,
        Exchange::MarkIssuing { command: c, .. } => i == 6 && c@ == command,
        Exchange::Issue { command: c, .. } => i == 7 && c@ == command,
        Exchange::EncodeReceipt { command: c, .. } => i == 8 && c@ == command,
        Exchange::StoreReceipt { command: c, .. } => i == 9 && c@ == command,
        Exchange::RecordError { command: c, .. } => c@ == command,
        Exchange::Done(Ok(_)) => i == 4 || i == 10,
        Exchange::Done(Err(_)) => true,
        Exchange::Failed(_) => true,
    }
}

proof fn lemma_exchange_stages(
    states: Seq<Exchange>,
    events: Seq<ExchangeEvent>,
    times: Seq<int>,
    active: ActiveServiceAccount,
    caller: Option<String>,
    request: ExchangeServiceAccountSecretRequest,
    i: int,
)
    requires
        is_exchange_run(states, events, times, active, caller, request),
        0 <= i <= events.len(),
        caller is Some,
    ensures
        at_stage(
            states[i],
            i,
            CommandKeyView {
                caller: caller.unwrap()@,
                operation: EXCHANGE_SECRET_OPERATION@,
                idempotency_key: request.idempotency_key@,
            },
            request,
        ),
    decreases i,
{
    if i > 0 {
        lemma_exchange_stages(states, events, times, active, caller, request, i - 1);
        assert(states[i - 1].steps_to(active, events[i - 1], times[i - 1], states[i]));
    }
}

/// A credential is asked for only after every check has passed: the caller is on
/// the authentication allowlist, the command was claimed anew, the caller's rate
/// limit admitted the attempt, the secret is that of a valid credential, the
/// Directory knows its subject as active, and the command was marked `issuing`.
/// The credential that is asked for ends after `times[6]`, at which it was
/// ordered, and no later than the configured lifetime and the account's own
/// credential.
pub proof fn a_credential_is_issued_only_after_every_check(
    states: Seq<Exchange>,
    events: Seq<ExchangeEvent>,
    times: Seq<int>,
    active: ActiveServiceAccount,
    caller: Option<String>,
    request: ExchangeServiceAccountSecretRequest,
)
    requires
        is_exchange_run(states, events, times, active, caller, request),
        states.last() is Issue,
    ensures
        events.len() == 7,
        caller matches Some(caller) && lists(active.config.authentication_callers@, caller@),
        valid_exchange(request),
        events[2] == ExchangeEvent::Admission(
            AdmissionEvent::Claimed(CommandClaim::Claimed),
        ),
        events[3] == ExchangeEvent::SlotReserved(true),
        events[4] matches ExchangeEvent::CredentialLoaded(Some(row)) && {
            &&& states[4] matches Exchange::LoadCredential { credential_id, now, .. }
            &&& named_credential(request.secret@) == Some(credential_id@)
            &&& authentic(active, request.secret@, row, now as int)
            &&& events[5] matches ExchangeEvent::StatusRead(
                StatusReply::Status { subject, active: true },
            )
            &&& subject@ == row.subject@
            &&& states[6] matches Exchange::MarkIssuing {
                credential_id: marked_id,
                service_account_id,
                ..
            }
            &&& marked_id == row.credential_id
            &&& service_account_id == row.service_account_id
        },
        events[6] matches ExchangeEvent::Marked(Some(marked)) && {
            &&& states[7] matches Exchange::Issue { credential, expires_at, order, .. }
            &&& credential == marked
            &&& orders(order, active, marked, expires_at as int)
            &&& times[6] < expires_at
            &&& expires_at <= after_seconds(times[6], active.config.token_ttl_seconds as int)
            &&& expires_at <= marked.valid_until
        },
{
    let n = events.len() as int;
    assert(states[n] == states.last());
    assert(states[0].is_start(active, caller, request));
    if caller is None {
        lemma_terminal(states, events, times, active, caller, request, n);
    }
    lemma_exchange_stages(states, events, times, active, caller, request, n);
    assert(n == 7);
    lemma_exchange_stages(states, events, times, active, caller, request, 6);
    lemma_exchange_stages(states, events, times, active, caller, request, 5);
    lemma_exchange_stages(states, events, times, active, caller, request, 4);
    lemma_exchange_stages(states, events, times, active, caller, request, 3);
    lemma_exchange_stages(states, events, times, active, caller, request, 2);
    assert(states[0].steps_to(active, events[0], times[0], states[1]));
    assert(states[1].steps_to(active, events[1], times[1], states[2]));
    assert(states[2].steps_to(active, events[2], times[2], states[3]));
    assert(states[3].steps_to(active, events[3], times[3], states[4]));
    assert(states[4].steps_to(active, events[4], times[4], states[5]));
    assert(states[5].steps_to(active, events[5], times[5], states[6]));
    assert(states[6].steps_to(active, events[6], times[6], states[7]));
}

/// A run that starts with its answer never asks for anything.
proof fn lemma_terminal(
    states: Seq<Exchange>,
    events: Seq<ExchangeEvent>,
    times: Seq<int>,
    active: ActiveServiceAccount,
    caller: Option<String>,
    request: ExchangeServiceAccountSecretRequest,
    i: int,
)
    requires
        is_exchange_run(states, events, times, active, caller, request),
        states[0] is Done,
        0 <= i <= events.len(),
    ensures
        states[i] is Done || states[i] is Failed,
    decreases i,
{
    if i > 0 {
        lemma_terminal(states, events, times, active, caller, request, i - 1);
        assert(states[i - 1].steps_to(active, events[i - 1], times[i - 1], states[i]));
    }
}

/// A caller that is not on the authentication allowlist is refused at once.
pub proof fn unlisted_callers_may_not_exchange(
    start: Exchange,
    active: ActiveServiceAccount,
    caller: Option<String>,
    request: ExchangeServiceAccountSecretRequest,
)
    requires
        start.is_start(active, caller, request),
        caller matches Some(caller) ==> !lists(active.config.authentication_callers@, caller@),
    ensures
        start == Exchange::Done(Err(ExchangeServiceAccountSecretError::Forbidden)),
{
}

/// A wrong secret, an unknown, revoked or expired credential, and a credential
/// of an account that is not active are all answered alike.
pub proof fn bad_credentials_are_answered_alike(
    command: CommandKey,
    request: ExchangeServiceAccountSecretRequest,
    now: i128,
    credential_id: String,
    active: ActiveServiceAccount,
    loaded: Option<CredentialRow>,
    at: int,
    next: Exchange,
)
    requires
        (Exchange::LoadCredential { command, request, now, credential_id }).steps_to(
            active,
            ExchangeEvent::CredentialLoaded(loaded),
            at,
            next,
        ),
        loaded matches Some(row) ==> {
            ||| !secret_verifies(request.secret@, secret_bytes(active.pepper), row.verifier@)
            ||| row.account_status@ != "active"@
            ||| row.revoked_at is Some
            ||| now < row.valid_from
            ||| now >= row.valid_until
        },
    ensures
        next.refuses_credentials(command),
{
}

/// Once Credential Issuer was asked, only its definite answers complete the
/// command: a session that is accepted, or a disabled subject. Any other outcome
/// ends the call without completing the command, which so stays `issuing`.
pub proof fn ambiguous_outcomes_complete_nothing(
    command: CommandKey,
    credential: CredentialRow,
    expires_at: i128,
    order: IssueOrder,
    active: ActiveServiceAccount,
    event: ExchangeEvent,
    now: int,
    next: Exchange,
)
    requires
        (Exchange::Issue { command, credential, expires_at, order }).steps_to(
            active,
            event,
            now,
            next,
        ),
    ensures
        match event {
            ExchangeEvent::Issued(IssueReply::Disabled) => next.refuses_disabled(command),
            ExchangeEvent::Issued(IssueReply::Session { .. }) => next is EncodeReceipt
                || next is Failed,
            _ => next is Failed,
        },
{
}

/// A session is accepted only if it ends after now and no later than the
/// credential that was ordered.
pub proof fn accepted_sessions_end_in_time(
    command: CommandKey,
    credential: CredentialRow,
    expires_at: i128,
    order: IssueOrder,
    active: ActiveServiceAccount,
    event: ExchangeEvent,
    now: int,
    response: ExchangeServiceAccountSecretResponse,
)
    requires
        (Exchange::Issue { command, credential, expires_at, order }).steps_to(
            active,
            event,
            now,
            Exchange::EncodeReceipt { command, response },
        ),
    ensures
        rfc3339_instant(response.expires_at@) matches Some(instant) && now < instant <= expires_at,
        response.service_account_id == credential.service_account_id,
        response.organization_id == credential.organization_id,
        response.subject == credential.subject,
        session_well_formed(response.session_id@, response.credential@),
{
}

/// An error that an exchange records is the error that a later call reads from
/// the record.
pub proof fn recorded_exchange_errors_are_read_back(
    state: Exchange,
    active: ActiveServiceAccount,
    event: ExchangeEvent,
    now: int,
    command: CommandKey,
    code: String,
    error: ExchangeServiceAccountSecretError,
)
    requires
        state.steps_to(active, event, now, Exchange::RecordError { command, code, error }),
    ensures
        exchange_error_of(code@) == Some(error),
{
    reveal_strlit("invalid_credentials");
    reveal_strlit("rate_limited");
    reveal_strlit("disabled");
    assert("invalid_credentials"@.len() == 19);
    assert("rate_limited"@.len() == 12);
    assert("disabled"@.len() == 8);
}

/// The run is that of a valid request by `caller`, who is on the allowlist, up to
/// the claim; its intent is serialized as `bytes`.
pub open spec fn is_claiming_exchange(
    states: Seq<Exchange>,
    events: Seq<ExchangeEvent>,
    times: Seq<int>,
    active: ActiveServiceAccount,
    caller: String,
    request: ExchangeServiceAccountSecretRequest,
    bytes: Seq<u8>,
) -> bool {
    &&& is_exchange_run(states, events, times, active, Some(caller), request)
    &&& lists(active.config.authentication_callers@, caller@)
    &&& valid_exchange(request)
    &&& events.len() >= 2
    &&& events[0] == ExchangeEvent::Admission(AdmissionEvent::Pruned)
    &&& events[1] matches ExchangeEvent::Admission(AdmissionEvent::IntentEncoded(Ok(encoded)))
    &&& encoded@ == bytes
}

/// Such a run claims its own command with the hash of its intent.
proof fn lemma_exchange_reaches_its_claim(
    states: Seq<Exchange>,
    events: Seq<ExchangeEvent>,
    times: Seq<int>,
    active: ActiveServiceAccount,
    caller: String,
    request: ExchangeServiceAccountSecretRequest,
    bytes: Seq<u8>,
)
    requires
        is_claiming_exchange(states, events, times, active, caller, request, bytes),
    ensures
        states[0] is Admit,
        states[1] is Admit,
        states[2] matches Exchange::Admit { request: own, admission: Admission::Claim {
            command,
            intent,
        } } && own == request && command@ == exchange_key(caller@, request.idempotency_key@)
            && intent@ == sha256_digest(bytes),
{
    assert(states[0].is_start(active, Some(caller), request));
    assert(states[0].steps_to(active, events[0], times[0], states[1]));
    assert(states[1].steps_to(active, events[1], times[1], states[2]));
}

/// An exchange that is repeated is answered with the response that was stored,
/// credential included, whatever happened meanwhile, until its receipt is old
/// enough to be pruned. The repeat is the same request by the same caller, and
/// what is read of the receipt is what was written into it. The claim changes
/// nothing, no rate slot is taken, and neither the Directory nor Credential
/// Issuer is asked.
pub proof fn a_repeated_exchange_is_answered_alike(
    t: TablesView,
    command: CommandKey,
    response: ExchangeServiceAccountSecretResponse,
    written: Vec<u8>,
    stored_at: int,
    nonce: Vec<u8>,
    ciphertext: Vec<u8>,
    at: int,
    history: Seq<Transaction>,
    states: Seq<Exchange>,
    events: Seq<ExchangeEvent>,
    times: Seq<int>,
    active: ActiveServiceAccount,
    caller: String,
    request: ExchangeServiceAccountSecretRequest,
    bytes: Seq<u8>,
    claim: CommandClaim,
    decoded: ExchangeServiceAccountSecretResponse,
)
    requires
        command@ == exchange_key(caller@, request.idempotency_key@),
        completable(t, command@),
        t.commands[command@].intent_hash == sha256_digest(bytes),
        (Exchange::EncodeReceipt { command, response }).steps_to(
            active,
            ExchangeEvent::ReceiptEncoded(Ok(written)),
            stored_at,
            Exchange::StoreReceipt { command, response, nonce, ciphertext },
        ),
        spares(history, at),
        is_claiming_exchange(states, events, times, active, caller, request, bytes),
        events.len() == 4,
        events[2] == ExchangeEvent::Admission(AdmissionEvent::Claimed(claim)),
        claim_outcome(
            replay(after_success(t, command@, nonce@, ciphertext@, at), history),
            command@,
            sha256_digest(bytes),
        ) == Some(claim@),
        events[3] == ExchangeEvent::ReceiptDecoded(Ok(decoded)),
        states[3] matches Exchange::DecodeReceipt { receipt } && receipt@ == written@ ==> decoded
            == response,
    ensures
        ({
            let later = replay(after_success(t, command@, nonce@, ciphertext@, at), history);
            forall|claimed_at: int| #[trigger]
                after_claim(later, command@, sha256_digest(bytes), claimed_at) == later
        }),
        states[0] is Admit,
        states[1] is Admit,
        states[2] is Admit,
        states[3] is DecodeReceipt,
        states[4] == Exchange::Done(Ok(response)),
{
    let done = after_success(t, command@, nonce@, ciphertext@, at);
    completed_commands_last(done, history, command@, at);
    reveal_strlit("completed_success");
    reveal_strlit("completed_error");
    assert("completed_error"@.len() != "completed_success"@.len());
    assert(claim@ == ClaimView::CompletedSuccess { nonce: nonce@, ciphertext: ciphertext@ });
    lemma_exchange_reaches_its_claim(states, events, times, active, caller, request, bytes);
    assert(states[2].steps_to(active, events[2], times[2], states[3]));
    assert(states[3].steps_to(active, events[3], times[3], states[4]));
}

/// An exchange under a key that was used with another intent is a conflict, and
/// nothing is done. Intents are told apart by their hashes.
pub proof fn an_exchange_with_another_intent_is_a_conflict(
    t: TablesView,
    states: Seq<Exchange>,
    events: Seq<ExchangeEvent>,
    times: Seq<int>,
    active: ActiveServiceAccount,
    caller: String,
    request: ExchangeServiceAccountSecretRequest,
    bytes: Seq<u8>,
    earlier: Seq<u8>,
    claim: CommandClaim,
)
    requires
        ({
            let key = exchange_key(caller@, request.idempotency_key@);
            &&& t.commands.dom().contains(key)
            &&& t.commands[key].intent_hash == sha256_digest(earlier)
            &&& claim_outcome(t, key, sha256_digest(bytes)) == Some(claim@)
        }),
        sha256_digest(bytes) != sha256_digest(earlier),
        is_claiming_exchange(states, events, times, active, caller, request, bytes),
        events.len() == 3,
        events[2] == ExchangeEvent::Admission(AdmissionEvent::Claimed(claim)),
    ensures
        states[3] == Exchange::Done(Err(ExchangeServiceAccountSecretError::IdempotencyConflict)),
{
    lemma_exchange_reaches_its_claim(states, events, times, active, caller, request, bytes);
    assert(states[2].steps_to(active, events[2], times[2], states[3]));
}

/// An exchange that was refused is refused alike when it is repeated, whatever
/// happened meanwhile, until the record of the refusal is old enough to be
/// pruned. The repeat is the same request by the same caller. The claim changes
/// nothing, no rate slot is taken, and neither the Directory nor Credential
/// Issuer is asked.
pub proof fn a_refused_exchange_is_answered_alike(
    t: TablesView,
    state: Exchange,
    event: ExchangeEvent,
    refused_at: int,
    command: CommandKey,
    code: String,
    error: ExchangeServiceAccountSecretError,
    recorded_at: int,
    first: Exchange,
    at: int,
    history: Seq<Transaction>,
    states: Seq<Exchange>,
    events: Seq<ExchangeEvent>,
    times: Seq<int>,
    active: ActiveServiceAccount,
    caller: String,
    request: ExchangeServiceAccountSecretRequest,
    bytes: Seq<u8>,
    claim: CommandClaim,
)
    requires
        command@ == exchange_key(caller@, request.idempotency_key@),
        completable(t, command@),
        t.commands[command@].intent_hash == sha256_digest(bytes),
        state.steps_to(active, event, refused_at, Exchange::RecordError { command, code, error }),
        (Exchange::RecordError { command, code, error }).steps_to(
            active,
            ExchangeEvent::Recorded,
            recorded_at,
            first,
        ),
        spares(history, at),
        is_claiming_exchange(states, events, times, active, caller, request, bytes),
        events.len() == 3,
        events[2] == ExchangeEvent::Admission(AdmissionEvent::Claimed(claim)),
        claim_outcome(
            replay(after_error(t, command@, code@, at), history),
            command@,
            sha256_digest(bytes),
        ) == Some(claim@),
    ensures
        ({
            let later = replay(after_error(t, command@, code@, at), history);
            forall|claimed_at: int| #[trigger]
                after_claim(later, command@, sha256_digest(bytes), claimed_at) == later
        }),
        first == Exchange::Done(Err(error)),
        states[0] is Admit,
        states[1] is Admit,
        states[2] is Admit,
        states[3] == first,
{
    completed_commands_last(after_error(t, command@, code@, at), history, command@, at);
    recorded_exchange_errors_are_read_back(state, active, event, refused_at, command, code, error);
    reveal_strlit("completed_success");
    reveal_strlit("completed_error");
    assert("completed_error"@.len() != "completed_success"@.len());
    assert(claim@ == ClaimView::CompletedError(code@));
    lemma_exchange_reaches_its_claim(states, events, times, active, caller, request, bytes);
    assert(states[2].steps_to(active, events[2], times[2], states[3]));
}

/// An exchange that was started and not completed, be it that its outcome is not
/// known, is not started again: the repeated call is answered that the operation
/// is in progress, whatever happened meanwhile. It changes nothing, takes no rate
/// slot, and asks neither the Directory nor Credential Issuer.
pub proof fn an_exchange_in_progress_is_not_started_again(
    t: TablesView,
    history: Seq<Transaction>,
    states: Seq<Exchange>,
    events: Seq<ExchangeEvent>,
    times: Seq<int>,
    active: ActiveServiceAccount,
    caller: String,
    request: ExchangeServiceAccountSecretRequest,
    bytes: Seq<u8>,
    claim: CommandClaim,
)
    requires
        ({
            let key = exchange_key(caller@, request.idempotency_key@);
            &&& completable(t, key)
            &&& t.commands[key].completed_at is None
            &&& t.commands[key].intent_hash == sha256_digest(bytes)
            &&& leaves_open(history, key)
            &&& claim_outcome(replay(t, history), key, sha256_digest(bytes)) == Some(claim@)
        }),
        is_claiming_exchange(states, events, times, active, caller, request, bytes),
        events.len() == 3,
        events[2] == ExchangeEvent::Admission(AdmissionEvent::Claimed(claim)),
    ensures
        ({
            let key = exchange_key(caller@, request.idempotency_key@);
            let later = replay(t, history);
            forall|claimed_at: int| #[trigger]
                after_claim(later, key, sha256_digest(bytes), claimed_at) == later
        }),
        states[0] is Admit,
        states[1] is Admit,
        states[2] is Admit,
        states[3] == Exchange::Done(Err(ExchangeServiceAccountSecretError::OperationInProgress)),
{
    unfinished_commands_stay_in_progress(
        t,
        history,
        exchange_key(caller@, request.idempotency_key@),
    );
    lemma_exchange_reaches_its_claim(states, events, times, active, caller, request, bytes);
    assert(states[2].steps_to(active, events[2], times[2], states[3]));
}

} // verus!
