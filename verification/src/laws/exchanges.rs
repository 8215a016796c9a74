//! How a secret is exchanged for a credential.

use vstd::prelude::*;
use vstd::string::*;
use vstd::utf8::*;

use crate::admission::{Admission, AdmissionEvent, Refusal};
use crate::auth_contract::{
    ExchangeServiceAccountSecretError, ExchangeServiceAccountSecretRequest,
    ExchangeServiceAccountSecretResponse,
};
use crate::authentication::{
    exchange_error, response, Exchange, ExchangeEvent, IssueOrder, IssueReply, StatusReply,
};
use crate::crypto::{aes256_gcm_opened, argon2_accepts, bounded_lanes, phc_parts, secret_bytes};
use crate::error::{CryptoError, Failure, ServiceAccountPluginError};
use crate::instant::{rfc3339_instant, rfc3339_text};
use crate::laws::access::binding;
use crate::laws::values::{is_secret_of, lemma_named};
use crate::laws::{among, identifier, tells};
use crate::lifecycle::ActiveServiceAccount;
use crate::rows::{CommandKey, CredentialRow};

verus! {

/// A recorded code stands for its error, and no other code for any.
pub proof fn recorded_codes_of_exchanges_are_read(
    code: &str,
    r: Result<ExchangeServiceAccountSecretError, ServiceAccountPluginError>,
)
    requires
        call_ensures(exchange_error, (code,), r),
    ensures
        code@ == "invalid_credentials"@ ==> r == Ok::<_, ServiceAccountPluginError>(
            ExchangeServiceAccountSecretError::InvalidCredentials,
        ),
        code@ == "rate_limited"@ ==> r == Ok::<_, ServiceAccountPluginError>(
            ExchangeServiceAccountSecretError::RateLimited,
        ),
        code@ == "disabled"@ ==> r == Ok::<_, ServiceAccountPluginError>(
            ExchangeServiceAccountSecretError::Disabled,
        ),
        code@ != "invalid_credentials"@ && code@ != "rate_limited"@ && code@ != "disabled"@ ==> (
        r matches Err(error) && error.says("unknown exchange receipt error"@)),
{
    reveal_strlit("invalid_credentials");
    reveal_strlit("rate_limited");
    reveal_strlit("disabled");
    assert("invalid_credentials"@.len() == 19);
    assert("rate_limited"@.len() == 12);
    assert("disabled"@.len() == 8);
}

/// A caller that is not on the authentication allowlist is forbidden, a request
/// that is not well formed is invalid, and any other starts its command, with the
/// configured retention and without an acting user.
pub proof fn exchanges_start_with_caller_and_request(
    active: &ActiveServiceAccount,
    caller: Option<String>,
    request: ExchangeServiceAccountSecretRequest,
    r: Exchange,
)
    requires
        call_ensures(Exchange::start, (active, caller, request), r),
    ensures
        ({
            let known = caller is Some && among(
                active.config.authentication_callers@,
                caller.unwrap()@,
            );
            let well_formed = identifier(request.idempotency_key@, 128) && 1 <= encode_utf8(
                request.secret@,
            ).len() <= 512;
            if !known {
                r == Exchange::Done(Err(ExchangeServiceAccountSecretError::Forbidden))
            } else if !well_formed {
                r == Exchange::Done(Err(ExchangeServiceAccountSecretError::InvalidRequest))
            } else {
                &&& r matches Exchange::Admit {
                    request: own,
                    admission: Admission::Prune { command, actor, retention_seconds },
                }
                &&& own == request
                &&& command.caller@ == caller.unwrap()@
                &&& command.operation@ == "exchange_secret"@
                &&& command.idempotency_key@ == request.idempotency_key@
                &&& actor is None
                &&& retention_seconds == active.config.receipt_ttl_seconds
            }
        }),
{
}

/// A new command goes to the rate limit with the configured numbers, one that
/// succeeded to its receipt, and one that is refused is answered as such; until
/// that is decided the admission goes on.
pub proof fn exchanges_follow_their_command(
    request: ExchangeServiceAccountSecretRequest,
    admission: Admission,
    active: &ActiveServiceAccount,
    event: AdmissionEvent,
    now: i128,
    next: Exchange,
) -> (decision: Admission)
    requires
        call_ensures(
            Exchange::resume_at,
            (
                Exchange::Admit { request, admission },
                active,
                ExchangeEvent::Admission(event),
                now,
            ),
            next,
        ),
    ensures
        admission.steps_to(active.receipt_cipher, event, decision),
        match decision {
            Admission::Admitted { command } => next == (Exchange::ReserveSlot {
                command,
                request,
                now,
                window_seconds: active.config.exchange_window_seconds,
                max_attempts: active.config.max_exchanges_per_window,
                lockout_seconds: active.config.exchange_lockout_seconds,
            }),
            Admission::Replayed { receipt } => next == (Exchange::DecodeReceipt { receipt }),
            Admission::Refused(Refusal::Recorded(code)) => {
                &&& code@ == "invalid_credentials"@ ==> next == Exchange::Done(
                    Err(ExchangeServiceAccountSecretError::InvalidCredentials),
                )
                &&& code@ == "rate_limited"@ ==> next == Exchange::Done(
                    Err(ExchangeServiceAccountSecretError::RateLimited),
                )
                &&& code@ == "disabled"@ ==> next == Exchange::Done(
                    Err(ExchangeServiceAccountSecretError::Disabled),
                )
                &&& code@ != "invalid_credentials"@ && code@ != "rate_limited"@ && code@
                    != "disabled"@ ==> (next matches Exchange::Failed(Failure::Plugin(error))
                    && error.says("unknown exchange receipt error"@))
            },
            Admission::Refused(Refusal::Conflict) => next == Exchange::Done(
                Err(ExchangeServiceAccountSecretError::IdempotencyConflict),
            ),
            Admission::Refused(Refusal::InProgress) => next == Exchange::Done(
                Err(ExchangeServiceAccountSecretError::OperationInProgress),
            ),
            Admission::Failed(failure) => next == Exchange::Failed(failure),
            pending => next == (Exchange::Admit { request, admission: pending }),
        },
{
    reveal_strlit("invalid_credentials");
    reveal_strlit("rate_limited");
    reveal_strlit("disabled");
    assert("invalid_credentials"@.len() == 19);
    assert("rate_limited"@.len() == 12);
    assert("disabled"@.len() == 8);
    choose|decision: Admission| #[trigger]
        admission.steps_to(active.receipt_cipher, event, decision) && next.follows_admission(
            *active,
            request,
            now as int,
            decision,
        )
}

/// A repeated exchange is answered with what its receipt holds.
pub proof fn receipts_of_exchanges_are_the_answer(
    receipt: Vec<u8>,
    active: &ActiveServiceAccount,
    decoded: Result<ExchangeServiceAccountSecretResponse, serde_json::Error>,
    now: i128,
    next: Exchange,
)
    requires
        call_ensures(
            Exchange::resume_at,
            (
                Exchange::DecodeReceipt { receipt },
                active,
                ExchangeEvent::ReceiptDecoded(decoded),
                now,
            ),
            next,
        ),
    ensures
        match decoded {
            Ok(response) => next == Exchange::Done(Ok(response)),
            Err(error) => next == Exchange::Failed(
                Failure::Plugin(ServiceAccountPluginError::Crypto(CryptoError::Deserialize(error))),
            ),
        },
{
}

/// The command is to be completed with this error, under this code.
pub open spec fn refuses(
    next: Exchange,
    command: CommandKey,
    code: Seq<char>,
    error: ExchangeServiceAccountSecretError,
) -> bool {
    &&& next matches Exchange::RecordError { command: own, code: text, error: answer }
    &&& own == command
    &&& text@ == code
    &&& answer == error
}

/// An attempt over the limit is refused before the secret is looked at. Otherwise
/// the credential that the secret names is loaded, and a text that names none is
/// no credential.
pub proof fn attempts_are_limited_before_the_secret_is_read(
    state: Exchange,
    active: &ActiveServiceAccount,
    admitted: bool,
    now: i128,
    next: Exchange,
    id: Seq<char>,
    material: Seq<char>,
)
    requires
        state is ReserveSlot,
        call_ensures(
            Exchange::resume_at,
            (state, active, ExchangeEvent::SlotReserved(admitted), now),
            next,
        ),
    ensures
        !admitted ==> refuses(
            next,
            state->ReserveSlot_command,
            "rate_limited"@,
            ExchangeServiceAccountSecretError::RateLimited,
        ),
        admitted && is_secret_of(state->ReserveSlot_request.secret@, id, material) ==> {
            &&& next matches Exchange::LoadCredential { command, request, now: at, credential_id }
            &&& command == state->ReserveSlot_command
            &&& request == state->ReserveSlot_request
            &&& at == state->ReserveSlot_now
            &&& credential_id@ == id
        },
        admitted && (forall|id: Seq<char>, material: Seq<char>|
            !#[trigger] is_secret_of(state->ReserveSlot_request.secret@, id, material)) ==> refuses(
            next,
            state->ReserveSlot_command,
            "invalid_credentials"@,
            ExchangeServiceAccountSecretError::InvalidCredentials,
        ),
{
    lemma_named(state->ReserveSlot_request.secret@, id, material);
}

/// The secret is that of the credential, the account is active, and the
/// credential is not revoked, has begun and has not ended.
pub open spec fn is_good(
    active: ActiveServiceAccount,
    secret: Seq<char>,
    row: CredentialRow,
    now: int,
) -> bool {
    &&& phc_parts(row.verifier@) is Some
    &&& phc_parts(row.verifier@).unwrap().0 == "argon2id"@
    &&& bounded_lanes(phc_parts(row.verifier@).unwrap().1)
    &&& argon2_accepts(
        encode_utf8(secret) + seq![0u8] + secret_bytes(active.pepper),
        row.verifier@,
    )
    &&& row.account_status@ == "active"@
    &&& row.revoked_at is None
    &&& row.valid_from <= now
    &&& now < row.valid_until
}

/// Exactly a good credential goes on to the Directory; all others are refused
/// alike.
pub proof fn exactly_good_credentials_go_on(
    command: CommandKey,
    request: ExchangeServiceAccountSecretRequest,
    at: i128,
    credential_id: String,
    active: &ActiveServiceAccount,
    loaded: Option<CredentialRow>,
    now: i128,
    next: Exchange,
    judged: Exchange,
    secret: &str,
)
    requires
        call_ensures(
            Exchange::resume_at,
            (
                Exchange::LoadCredential { command, request, now: at, credential_id },
                active,
                ExchangeEvent::CredentialLoaded(loaded),
                now,
            ),
            next,
        ),
        secret@ == request.secret@,
        call_ensures(Exchange::judge, (active, command, secret, at, loaded), judged),
    ensures
        loaded is Some && is_good(*active, request.secret@, loaded.unwrap(), at as int) ==> {
            &&& next == (Exchange::ReadStatus { command, credential: loaded.unwrap() })
            &&& judged == next
        },
        !(loaded is Some && is_good(*active, request.secret@, loaded.unwrap(), at as int)) ==> {
            &&& refuses(
                next,
                command,
                "invalid_credentials"@,
                ExchangeServiceAccountSecretError::InvalidCredentials,
            )
            &&& refuses(
                judged,
                command,
                "invalid_credentials"@,
                ExchangeServiceAccountSecretError::InvalidCredentials,
            )
        },
{
}

/// Exactly a subject that the Directory knows as active goes on, for the same
/// credential, at the instant of its answer.
pub proof fn the_directory_decides_who_goes_on(
    command: CommandKey,
    credential: CredentialRow,
    active: &ActiveServiceAccount,
    reply: StatusReply,
    now: i128,
    next: Exchange,
)
    requires
        call_ensures(
            Exchange::resume_at,
            (
                Exchange::ReadStatus { command, credential },
                active,
                ExchangeEvent::StatusRead(reply),
                now,
            ),
            next,
        ),
    ensures
        match reply {
            StatusReply::Status { subject, active: enabled } => if subject@
                != credential.subject@ {
                next matches Exchange::Failed(failure) && tells(
                    failure,
                    "Identity Directory returned another subject for service-account status"@,
                )
            } else if enabled {
                next == (Exchange::MarkIssuing {
                    command,
                    credential_id: credential.credential_id,
                    service_account_id: credential.service_account_id,
                    now,
                })
            } else {
                refuses(
                    next,
                    command,
                    "disabled"@,
                    ExchangeServiceAccountSecretError::Disabled,
                )
            },
            StatusReply::Missing => refuses(
                next,
                command,
                "disabled"@,
                ExchangeServiceAccountSecretError::Disabled,
            ),
            StatusReply::Unknown => next matches Exchange::Failed(failure) && tells(
                failure,
                "Identity Directory returned an unknown service-account status error"@,
            ),
            StatusReply::Failed => next == Exchange::Failed(Failure::Relayed),
        },
{
}

/// `order` asks for a credential of the account for the configured audience,
/// until `end`.
pub open spec fn asks_for(
    order: IssueOrder,
    active: ActiveServiceAccount,
    row: CredentialRow,
    end: int,
) -> bool {
    &&& order.subject@ == row.subject@
    &&& order.actor_kind@ == "service_account"@
    &&& order.assurance@ == "service_account_secret"@
    &&& order.audience@ == active.config.token_audience@
    &&& order.claims@.len() == 2
    &&& order.claims@[0].0@ == "organization_id"@
    &&& order.claims@[0].1@ == row.organization_id@
    &&& order.claims@[1].0@ == "service_account_id"@
    &&& order.claims@[1].1@ == row.service_account_id@
    &&& order.expires_at@ == rfc3339_text(end)
}

/// A credential that was admitted is ordered until the configured lifetime of
/// tokens or the account's own credential ends, whichever is first. One that was
/// not admitted, or that has ended meanwhile, is refused.
pub proof fn credentials_are_ordered_up_to_the_first_end(
    state: Exchange,
    active: &ActiveServiceAccount,
    marked: Option<CredentialRow>,
    now: i128,
    next: Exchange,
)
    requires
        state is MarkIssuing,
        call_ensures(Exchange::resume_at, (state, active, ExchangeEvent::Marked(marked), now), next),
    ensures
        ({
            let command = state->MarkIssuing_command;
            let lifetime = now + active.config.token_ttl_seconds * 1_000_000_000;
            match marked {
                None => refuses(
                    next,
                    command,
                    "invalid_credentials"@,
                    ExchangeServiceAccountSecretError::InvalidCredentials,
                ),
                Some(row) => {
                    &&& lifetime <= now || row.valid_until <= now ==> refuses(
                        next,
                        command,
                        "invalid_credentials"@,
                        ExchangeServiceAccountSecretError::InvalidCredentials,
                    )
                    &&& lifetime > now && row.valid_until > now ==> match next {
                        Exchange::Issue { command: own, credential, expires_at, order } => {
                            &&& own == command
                            &&& credential == row
                            &&& now < expires_at <= lifetime
                            &&& expires_at <= row.valid_until
                            &&& expires_at == lifetime || expires_at == row.valid_until
                            &&& asks_for(order, *active, row, expires_at as int)
                        },
                        Exchange::Failed(failure) => {
                            &&& failure matches Failure::Plugin(
                                ServiceAccountPluginError::FormatTime(_),
                            )
                            &&& lifetime >= 253_402_300_800_000_000_000 || now
                                < -62_167_219_200_000_000_000
                        },
                        _ => false,
                    }
                },
            }
        }),
{
}

/// The session is accepted: it is to be written into a receipt, and is answered
/// with what was sent and whose it is.
pub open spec fn accepts(
    next: Exchange,
    command: CommandKey,
    credential: CredentialRow,
    session_id: String,
    token: String,
    expires_at: String,
) -> bool {
    &&& next matches Exchange::EncodeReceipt { command: own, response }
    &&& own == command
    &&& response.service_account_id@ == credential.service_account_id@
    &&& response.organization_id@ == credential.organization_id@
    &&& response.subject@ == credential.subject@
    &&& response.session_id == session_id
    &&& response.credential == token
    &&& response.expires_at == expires_at
}

/// Every well-formed session that ends after now and no later than ordered is
/// accepted, whenever in between it ends. Any other session ends the call and
/// says why.
pub proof fn sessions_are_accepted_up_to_the_ordered_end(
    command: CommandKey,
    credential: CredentialRow,
    ordered_end: i128,
    order: IssueOrder,
    active: &ActiveServiceAccount,
    session_id: String,
    token: String,
    expires_at: String,
    now: i128,
    next: Exchange,
)
    requires
        call_ensures(
            Exchange::resume_at,
            (
                Exchange::Issue { command, credential, expires_at: ordered_end, order },
                active,
                ExchangeEvent::Issued(
                    IssueReply::Session { session_id, credential: token, expires_at },
                ),
                now,
            ),
            next,
        ),
    ensures
        ({
            let well_formed = 1 <= encode_utf8(session_id@).len() <= 256 && 1 <= encode_utf8(
                token@,
            ).len() <= 65_536;
            let end = rfc3339_instant(expires_at@);
            &&& well_formed && end is Some && now < end.unwrap() && end.unwrap() <= ordered_end
                ==> accepts(next, command, credential, session_id, token, expires_at)
            &&& !well_formed ==> (next matches Exchange::Failed(failure) && tells(
                failure,
                "Credential Issuer returned an invalid service-account credential"@,
            ))
            &&& well_formed && end is None ==> (next matches Exchange::Failed(failure) && tells(
                failure,
                "Credential Issuer returned an invalid service-account expiry"@,
            ))
            &&& well_formed && end is Some && !(now < end.unwrap() && end.unwrap()
                <= ordered_end) ==> (next matches Exchange::Failed(failure) && tells(
                failure,
                "Credential Issuer exceeded the bounded service-account expiry"@,
            ))
        }),
{
}

/// The other answers of Credential Issuer: a disabled subject is refused as such,
/// and all that leaves open whether a credential was issued completes nothing.
pub proof fn other_issuer_answers_hand_out_nothing(
    state: Exchange,
    active: &ActiveServiceAccount,
    reply: IssueReply,
    now: i128,
    next: Exchange,
)
    requires
        state is Issue,
        call_ensures(Exchange::resume_at, (state, active, ExchangeEvent::Issued(reply), now), next),
    ensures
        reply is Disabled ==> refuses(
            next,
            state->Issue_command,
            "disabled"@,
            ExchangeServiceAccountSecretError::Disabled,
        ),
        reply is Indeterminate ==> (next matches Exchange::Failed(failure) && tells(
            failure,
            "Credential Issuer returned an indeterminate service-account result"@,
        )),
        reply is Failed ==> next == Exchange::Failed(Failure::Relayed),
{
}

/// The answer is made of the account and of what was issued.
pub proof fn answers_show_whose_credential_was_issued(
    credential: &CredentialRow,
    session_id: String,
    token: String,
    expires_at: String,
    r: ExchangeServiceAccountSecretResponse,
)
    requires
        call_ensures(response, (credential, session_id, token, expires_at), r),
    ensures
        r.service_account_id@ == credential.service_account_id@,
        r.organization_id@ == credential.organization_id@,
        r.subject@ == credential.subject@,
        r.session_id == session_id,
        r.credential == token,
        r.expires_at == expires_at,
{
}

/// A session that was accepted is sealed as the receipt of its command, stored,
/// and then answered. What was sealed opens, under the binding of the command, to
/// what was written.
pub proof fn accepted_sessions_are_stored_and_answered(
    command: CommandKey,
    response: ExchangeServiceAccountSecretResponse,
    active: &ActiveServiceAccount,
    encoded: Result<Vec<u8>, serde_json::Error>,
    now: i128,
    next: Exchange,
    nonce: Vec<u8>,
    ciphertext: Vec<u8>,
    later: i128,
    answered: Exchange,
)
    requires
        call_ensures(
            Exchange::resume_at,
            (
                Exchange::EncodeReceipt { command, response },
                active,
                ExchangeEvent::ReceiptEncoded(encoded),
                now,
            ),
            next,
        ),
        call_ensures(
            Exchange::resume_at,
            (
                Exchange::StoreReceipt { command, response, nonce, ciphertext },
                active,
                ExchangeEvent::ReceiptStored,
                later,
            ),
            answered,
        ),
    ensures
        answered == Exchange::Done(Ok(response)),
        match encoded {
            Err(error) => next == Exchange::Failed(
                Failure::Plugin(ServiceAccountPluginError::Crypto(CryptoError::Serialize(error))),
            ),
            Ok(bytes) => match next {
                Exchange::StoreReceipt { command: own, response: same, nonce, ciphertext } => {
                    &&& own == command
                    &&& same == response
                    &&& nonce@.len() == 12
                    &&& aes256_gcm_opened(
                        active.receipt_cipher.key(),
                        nonce@,
                        ciphertext@,
                        binding(command),
                    ) == Some(bytes@)
                },
                Exchange::Failed(
                    Failure::Plugin(ServiceAccountPluginError::Crypto(error)),
                ) => error is Random || error is ReceiptEncryption && (bytes@.len()
                    > 0x10_0000_0000 || binding(command).len() > 0x10_0000_0000),
                _ => false,
            },
        },
{
}

/// A refusal that was recorded is what is answered.
pub proof fn recorded_refusals_are_answered(
    command: CommandKey,
    code: String,
    error: ExchangeServiceAccountSecretError,
    active: &ActiveServiceAccount,
    now: i128,
    next: Exchange,
)
    requires
        call_ensures(
            Exchange::resume_at,
            (
                Exchange::RecordError { command, code, error },
                active,
                ExchangeEvent::Recorded,
                now,
            ),
            next,
        ),
    ensures
        next == Exchange::Done(Err(error)),
{
}

/// A reply that was not asked for ends the call.
pub proof fn stray_replies_end_an_exchange(
    state: Exchange,
    active: &ActiveServiceAccount,
    event: ExchangeEvent,
    now: i128,
    next: Exchange,
)
    requires
        call_ensures(Exchange::resume_at, (state, active, event, now), next),
        event is Admission ==> !(state is Admit),
        event is ReceiptDecoded ==> !(state is DecodeReceipt),
        event is SlotReserved ==> !(state is ReserveSlot),
        event is CredentialLoaded ==> !(state is LoadCredential),
        event is StatusRead ==> !(state is ReadStatus),
        event is Marked ==> !(state is MarkIssuing),
        event is Issued ==> !(state is Issue),
        event is ReceiptEncoded ==> !(state is EncodeReceipt),
        event is ReceiptStored ==> !(state is StoreReceipt),
        event is Recorded ==> !(state is RecordError),
    ensures
        next == Exchange::Failed(Failure::UnexpectedReply),
{
}

/// Without a given instant an exchange goes on as at some instant.
pub proof fn exchanges_go_on_at_some_instant(
    state: Exchange,
    active: &ActiveServiceAccount,
    event: ExchangeEvent,
    next: Exchange,
)
    requires
        call_ensures(Exchange::resume, (state, active, event), next),
    ensures
        exists|now: int| #[trigger] state.steps_to(*active, event, now, next),
{
}

} // verus!
