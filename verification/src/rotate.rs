//! Rotating the secret of a service account.

use vstd::prelude::*;
use vstd::string::*;

use crate::admission::{
    reads_back, receipt_binding, seal_receipt, seals, AdmissionEvent, Refusal,
};
use crate::config::lists;
use crate::contract::{
    Nullable, RotateServiceAccountSecretError, RotateServiceAccountSecretRequest,
    RotateServiceAccountSecretResponse, ROTATE_SECRET_OPERATION,
};
use crate::crypto::{
    is_salted_verifier, named_credential, opened_receipt, pepper_too_long, secret_bytes,
    secret_verifies, sha256_digest, CredentialSecret, ReceiptCipher,
};
use crate::entry::{an_authorized_call_goes_on, goes_through, stands, Entry, EntryEvent};
use crate::error::{CryptoError, Failure, ServiceAccountPluginError};
use crate::history::{
    completed_commands_last, leaves_open, replay, spares, unfinished_commands_stay_in_progress,
    Transaction,
};
use crate::instant::{after_seconds, calendar_instant, later, now_utc};
use crate::lifecycle::ActiveServiceAccount;
use crate::management::{
    map_rotate_authorization, one_row_has_one_summary, rotate_error, rotate_error_of,
    rotate_refusal, rotation_revision, same_account, summarizes, summary, unsummarizable, valid_rotation,
};
use crate::rows::{
    AccountRow, AccountRowView, ClaimView, CommandClaim, CommandKey, CommandKeyView, Mutation,
};
use crate::storage::{
    account_row, after_claim, after_error, after_rotation, after_success, claim_outcome,
    completable, rotation_obstacle, Obstacle, Rotation, StoreError, Tables, TablesView,
};
use crate::table::continues;
use crate::text::is_token;

verus! {

/// Where a rotation stands. All states but the last two ask for outside work.
pub enum Rotate {
    /// Authorize the caller and admit the command.
    Enter { request: RotateServiceAccountSecretRequest, expected_revision: i64, entry: Entry },
    /// Deserialize the answer from the receipt.
    DecodeReceipt { receipt: Vec<u8> },
    /// Run `commit_rotation` on the tables.
    Update { command: CommandKey, rotation: Rotation, secret: CredentialSecret },
    /// Complete the command with the error code.
    RecordError { command: CommandKey, code: String, error: RotateServiceAccountSecretError },
    Done(Result<RotateServiceAccountSecretResponse, RotateServiceAccountSecretError>),
    Failed(Failure),
}

/// Outside work that was done.
pub enum RotateEvent {
    Entry(EntryEvent),
    ReceiptDecoded(Result<RotateServiceAccountSecretResponse, serde_json::Error>),
    Updated(Result<Mutation<AccountRow>, StoreError>),
    Recorded,
}

/// What is stored as the answer of a rotation: the account, without its secret.
pub open spec fn is_rotation_receipt(
    response: RotateServiceAccountSecretResponse,
    row: AccountRowView,
) -> bool {
    &&& summarizes(response.account, row)
    &&& response.rotated
    &&& response.secret.0 is None
}

/// `sealed` is the receipt of a rotation, or why there is none.
pub open spec fn seals_rotation<E>(
    key: Seq<u8>,
    binding: Seq<u8>,
    row: AccountRowView,
    encode: E,
    sealed: Result<(Vec<u8>, Vec<u8>), ServiceAccountPluginError>,
) -> bool where
    E: FnOnce(&RotateServiceAccountSecretResponse) -> Result<Vec<u8>, serde_json::Error>,
 {
    ||| exists|response: RotateServiceAccountSecretResponse|
        is_rotation_receipt(response, row) && #[trigger] seals(
            key,
            binding,
            &response,
            encode,
            sealed,
        )
    ||| sealed matches Err(error) && unsummarizable(error, row)
}

/// What a rotation answers and leaves behind, and when.
pub open spec fn commits_rotation<E>(
    before: TablesView,
    after: TablesView,
    cipher_key: Seq<u8>,
    command: CommandKeyView,
    rotation: Rotation,
    at: int,
    encode: E,
    r: Result<Mutation<AccountRow>, StoreError>,
) -> bool where
    E: FnOnce(&RotateServiceAccountSecretResponse) -> Result<Vec<u8>, serde_json::Error>,
 {
    let rotated = after_rotation(before, rotation, at);
    let row_view = account_row(rotated, rotation.service_account_id@);
    let binding = receipt_binding(command);
    match (rotation_obstacle(before, rotation), r) {
        (Some(obstacle), r) => {
            &&& after == before
            &&& match obstacle {
                Obstacle::NotFound => r matches Ok(Mutation::NotFound),
                Obstacle::Revoked => r matches Ok(Mutation::Revoked),
                Obstacle::RevisionConflict => r matches Ok(Mutation::RevisionConflict),
                Obstacle::Taken(name) => {
                    r matches Err(StoreError::Unique(constraint)) && constraint@ == name
                },
                Obstacle::Exhausted => {
                    r matches Err(StoreError::Plugin(error)) && error.says(
                        "service-account revision is exhausted"@,
                    )
                },
                Obstacle::LimitReached => false,
            }
        },
        (None, Ok(Mutation::Updated(row))) => {
            &&& row@ == row_view
            &&& completable(before, command)
            &&& exists|nonce: Vec<u8>, ciphertext: Vec<u8>|
                {
                    &&& #[trigger] seals_rotation(
                        cipher_key,
                        binding,
                        row_view,
                        encode,
                        Ok((nonce, ciphertext)),
                    )
                    &&& after == after_success(
                        rotated,
                        command,
                        nonce@,
                        ciphertext@,
                        at,
                    )
                }
        },
        (None, Err(StoreError::Plugin(error))) => {
            &&& after == before
            &&& {
                ||| seals_rotation(cipher_key, binding, row_view, encode, Err(error))
                ||| error.says("service-account command was not completable"@) && !completable(
                    before,
                    command,
                )
            }
        },
        _ => false,
    }
}

/// Rotates the secret in the tables, with a receipt that `encode` serializes. Rows
/// keep their places, and the new credential comes last.
pub fn commit_rotation<E>(
    tables: &mut Tables,
    cipher: &ReceiptCipher,
    command: &CommandKey,
    rotation: &Rotation,
    at: i128,
    encode: E,
) -> (r: Result<Mutation<AccountRow>, StoreError>) where
    E: FnOnce(&RotateServiceAccountSecretResponse) -> Result<Vec<u8>, serde_json::Error>,

    requires
        old(tables).well_formed(),
        forall|response: &RotateServiceAccountSecretResponse| call_requires(encode, (response,)),
    ensures
        final(tables).well_formed(),
        continues(final(tables).accounts@, old(tables).accounts@),
        final(tables).accounts@.len() == old(tables).accounts@.len(),
        continues(final(tables).credentials@, old(tables).credentials@),
        commits_rotation(
            old(tables)@,
            final(tables)@,
            cipher.key(),
            command@,
            *rotation,
            at as int,
            encode,
            r,
        ),
{
    let receipt = |row: &AccountRow| -> (sealed: Result<
        (Vec<u8>, Vec<u8>),
        ServiceAccountPluginError,
    >)
        ensures
            seals_rotation(cipher.key(), receipt_binding(command@), row@, encode, sealed),
        {
            match summary(row) {
                Err(error) => Err(error),
                Ok(account) => {
                    let response = RotateServiceAccountSecretResponse {
                        account,
                        rotated: true,
                        secret: Nullable(None),
                    };
                    assert(is_rotation_receipt(response, row@));
                    seal_receipt(cipher, command, &response, encode)
                },
            }
        };
    tables.rotate_account(command, rotation, at, receipt)
}

impl Rotate {
    /// The rotation asks for the account to be updated, with a secret made at
    /// `now`.
    pub open spec fn updates(
        self,
        active: ActiveServiceAccount,
        command: CommandKey,
        request: RotateServiceAccountSecretRequest,
        expected_revision: i64,
        secret: CredentialSecret,
        verifier_text: String,
        now: int,
    ) -> bool {
        &&& self matches Rotate::Update { command: own, rotation, secret: kept }
        &&& own == command
        &&& kept == secret
        &&& rotation.organization_id == request.organization_id
        &&& rotation.service_account_id == request.service_account_id
        &&& rotation.expected_revision == expected_revision
        &&& rotation.credential_id == secret.credential_id
        &&& rotation.verifier == verifier_text
        &&& rotation.valid_from == now
        &&& rotation.overlap_until == after_seconds(
            now,
            active.config.rotation_overlap_seconds as int,
        )
        &&& rotation.valid_until == after_seconds(now, active.config.credential_ttl_seconds as int)
    }

    /// Asks for the account to be updated with the given secret at `now`.
    pub fn update(
        active: &ActiveServiceAccount,
        command: CommandKey,
        request: RotateServiceAccountSecretRequest,
        expected_revision: i64,
        secret: CredentialSecret,
        verifier_text: String,
        now: i128,
    ) -> (r: Rotate)
        requires
            calendar_instant(now as int),
        ensures
            r.updates(
                *active,
                command,
                request,
                expected_revision,
                secret,
                verifier_text,
                now as int,
            ),
    {
        let credential_id: String = secret.credential_id.clone();
        Rotate::Update {
            command,
            rotation: Rotation {
                organization_id: request.organization_id,
                service_account_id: request.service_account_id,
                expected_revision,
                credential_id,
                verifier: verifier_text,
                valid_from: now,
                overlap_until: later(now, active.config.rotation_overlap_seconds),
                valid_until: later(now, active.config.credential_ttl_seconds),
            },
            secret,
        }
    }

    /// The rotation, given where its entry stands.
    pub open spec fn follows_entry(
        self,
        active: ActiveServiceAccount,
        request: RotateServiceAccountSecretRequest,
        expected_revision: i64,
        entry: Entry,
    ) -> bool {
        match entry {
            Entry::Admitted { command } => {
                ||| exists|secret: CredentialSecret, verifier_text: String, now: int|
                    {
                        &&& #[trigger] self.updates(
                            active,
                            command,
                            request,
                            expected_revision,
                            secret,
                            verifier_text,
                            now,
                        )
                        &&& calendar_instant(now)
                        &&& secret.has_full_length()
                        &&& named_credential(secret.raw()) == Some(secret.credential_id@)
                        &&& is_salted_verifier(
                            secret.raw(),
                            secret_bytes(active.pepper),
                            verifier_text@,
                        )
                        &&& secret_verifies(
                            secret.raw(),
                            secret_bytes(active.pepper),
                            verifier_text@,
                        )
                    }
                ||| {
                    &&& self matches Rotate::Failed(
                        Failure::Plugin(ServiceAccountPluginError::Crypto(error)),
                    )
                    &&& error is Random || error is PasswordHash && pepper_too_long(
                        secret_bytes(active.pepper),
                    )
                }
            },
            Entry::Replayed { receipt } => self == Rotate::DecodeReceipt { receipt },
            Entry::Refused(Refusal::Recorded(code)) => match rotate_error_of(code@) {
                Some(error) => self == Rotate::Done(Err(error)),
                None => {
                    &&& self matches Rotate::Failed(Failure::Plugin(error))
                    &&& error.says("unknown rotate receipt error"@)
                },
            },
            Entry::Refused(Refusal::Conflict) => self == Rotate::Done(
                Err(RotateServiceAccountSecretError::IdempotencyConflict),
            ),
            Entry::Refused(Refusal::InProgress) => self == Rotate::Done(
                Err(RotateServiceAccountSecretError::OperationInProgress),
            ),
            Entry::Denied(error) => match rotate_refusal(error) {
                Ok(error) => self == Rotate::Done(Err(error)),
                Err(failure) => self == Rotate::Failed(failure),
            },
            Entry::Failed(failure) => self == Rotate::Failed(failure),
            entry => self == Rotate::Enter { request, expected_revision, entry },
        }
    }

    fn from_entry(
        active: &ActiveServiceAccount,
        request: RotateServiceAccountSecretRequest,
        expected_revision: i64,
        entry: Entry,
    ) -> (r: Rotate)
        ensures
            r.follows_entry(*active, request, expected_revision, entry),
    {
        match entry {
            Entry::Admitted { command } => {
                let secret: CredentialSecret = match CredentialSecret::generate() {
                    Ok(secret) => secret,
                    Err(error) => {
                        return Rotate::Failed(
                            Failure::Plugin(ServiceAccountPluginError::Crypto(error)),
                        );
                    },
                };
                let verifier_text: String = match secret.argon2id_verifier(
                    active.pepper.as_slice(),
                ) {
                    Ok(text) => text,
                    Err(error) => {
                        return Rotate::Failed(
                            Failure::Plugin(ServiceAccountPluginError::Crypto(error)),
                        );
                    },
                };
                Rotate::update(
                    active,
                    command,
                    request,
                    expected_revision,
                    secret,
                    verifier_text,
                    now_utc(),
                )
            },
            Entry::Replayed { receipt } => Rotate::DecodeReceipt { receipt },
            Entry::Refused(Refusal::Recorded(code)) => match rotate_error(code.as_str()) {
                Ok(error) => Rotate::Done(Err(error)),
                Err(error) => Rotate::Failed(Failure::Plugin(error)),
            },
            Entry::Refused(Refusal::Conflict) => Rotate::Done(
                Err(RotateServiceAccountSecretError::IdempotencyConflict),
            ),
            Entry::Refused(Refusal::InProgress) => Rotate::Done(
                Err(RotateServiceAccountSecretError::OperationInProgress),
            ),
            Entry::Denied(error) => match map_rotate_authorization(error) {
                Ok(error) => Rotate::Done(Err(error)),
                Err(failure) => Rotate::Failed(failure),
            },
            Entry::Failed(failure) => Rotate::Failed(failure),
            entry => Rotate::Enter { request, expected_revision, entry },
        }
    }

    /// The start of a rotation.
    pub open spec fn is_start(
        self,
        active: ActiveServiceAccount,
        caller: Option<String>,
        request: RotateServiceAccountSecretRequest,
    ) -> bool {
        match rotation_revision(request) {
            Some(expected_revision) => exists|entry: Entry| #[trigger]
                entry.is_start(
                    active.config,
                    caller,
                    ROTATE_SECRET_OPERATION@,
                    request.organization_id@,
                    request.idempotency_key@,
                ) && self.follows_entry(active, request, expected_revision, entry),
            None => self == Rotate::Done(Err(RotateServiceAccountSecretError::InvalidRequest)),
        }
    }

    pub fn start(
        active: &ActiveServiceAccount,
        caller: Option<String>,
        request: RotateServiceAccountSecretRequest,
    ) -> (r: Rotate)
        ensures
            r.is_start(*active, caller, request),
    {
        match valid_rotation(&request) {
            None => Rotate::Done(Err(RotateServiceAccountSecretError::InvalidRequest)),
            Some(expected_revision) => {
                let entry: Entry = Entry::start(
                    &active.config,
                    caller,
                    ROTATE_SECRET_OPERATION,
                    request.organization_id.as_str(),
                    request.idempotency_key.as_str(),
                );
                Rotate::from_entry(active, request, expected_revision, entry)
            },
        }
    }

    /// The rotation asks for an error to be recorded.
    pub open spec fn records(
        self,
        command: CommandKey,
        code: Seq<char>,
        error: RotateServiceAccountSecretError,
    ) -> bool {
        &&& self matches Rotate::RecordError { command: own, code: text, error: answer }
        &&& own == command
        &&& text@ == code
        &&& answer == error
    }

    fn recording(
        command: CommandKey,
        code: &str,
        error: RotateServiceAccountSecretError,
    ) -> (r: Rotate)
        ensures
            r.records(command, code@, error),
    {
        Rotate::RecordError { command, code: code.to_string(), error }
    }

    /// `next` is where the rotation goes on after `event`.
    pub open spec fn steps_to(
        self,
        active: ActiveServiceAccount,
        event: RotateEvent,
        next: Rotate,
    ) -> bool {
        match (self, event) {
            (Rotate::Enter { request, expected_revision, entry }, RotateEvent::Entry(event)) => {
                exists|pending: Entry| #[trigger]
                    entry.steps_to(active.receipt_cipher, event, pending) && next.follows_entry(
                        active,
                        request,
                        expected_revision,
                        pending,
                    )
            },
            (Rotate::DecodeReceipt { receipt }, RotateEvent::ReceiptDecoded(decoded)) => {
                match decoded {
                    Ok(response) => next == Rotate::Done(
                        Ok(
                            RotateServiceAccountSecretResponse {
                                account: response.account,
                                rotated: false,
                                secret: Nullable(None),
                            },
                        ),
                    ),
                    Err(error) => next == Rotate::Failed(
                        Failure::Plugin(
                            ServiceAccountPluginError::Crypto(CryptoError::Deserialize(error)),
                        ),
                    ),
                }
            },
            (Rotate::Update { command, rotation, secret }, RotateEvent::Updated(outcome)) => {
                match outcome {
                    Ok(Mutation::Updated(row)) => match next {
                        Rotate::Done(Ok(response)) => {
                            &&& summarizes(response.account, row@)
                            &&& response.rotated
                            &&& response.secret.0 matches Some(text) && text@ == secret.raw()
                        },
                        Rotate::Failed(Failure::Plugin(error)) => unsummarizable(error, row@),
                        _ => false,
                    },
                    Ok(Mutation::NotFound) => next.records(
                        command,
                        "not_found"@,
                        RotateServiceAccountSecretError::NotFound,
                    ),
                    Ok(Mutation::Revoked) => next.records(
                        command,
                        "revoked"@,
                        RotateServiceAccountSecretError::Revoked,
                    ),
                    Ok(Mutation::RevisionConflict) => next.records(
                        command,
                        "revision_conflict"@,
                        RotateServiceAccountSecretError::RevisionConflict,
                    ),
                    Err(StoreError::Unique(constraint)) => next == Rotate::Failed(
                        Failure::Constraint(constraint),
                    ),
                    Err(StoreError::Plugin(error)) => next == Rotate::Failed(
                        Failure::Plugin(error),
                    ),
                }
            },
            (Rotate::RecordError { command, code, error }, RotateEvent::Recorded) => next
                == Rotate::Done(Err(error)),
            _ => next == Rotate::Failed(Failure::UnexpectedReply),
        }
    }

    /// Goes on after `event`.
    pub fn resume(self, active: &ActiveServiceAccount, event: RotateEvent) -> (next: Rotate)
        ensures
            self.steps_to(*active, event, next),
    {
        match (self, event) {
            (Rotate::Enter { request, expected_revision, entry }, RotateEvent::Entry(event)) => {
                Rotate::from_entry(
                    active,
                    request,
                    expected_revision,
                    entry.resume(&active.receipt_cipher, event),
                )
            },
            (Rotate::DecodeReceipt { receipt: _ }, RotateEvent::ReceiptDecoded(decoded)) => {
                match decoded {
                    Ok(response) => Rotate::Done(
                        Ok(
                            RotateServiceAccountSecretResponse {
                                account: response.account,
                                rotated: false,
                                secret: Nullable(None),
                            },
                        ),
                    ),
                    Err(error) => Rotate::Failed(
                        Failure::Plugin(
                            ServiceAccountPluginError::Crypto(CryptoError::Deserialize(error)),
                        ),
                    ),
                }
            },
            (Rotate::Update { command, rotation: _, secret }, RotateEvent::Updated(outcome)) => {
                match outcome {
                    Ok(Mutation::Updated(row)) => match summary(&row) {
                        Ok(account) => Rotate::Done(
                            Ok(
                                RotateServiceAccountSecretResponse {
                                    account,
                                    rotated: true,
                                    secret: Nullable(Some(secret.expose())),
                                },
                            ),
                        ),
                        Err(error) => Rotate::Failed(Failure::Plugin(error)),
                    },
                    Ok(Mutation::NotFound) => Rotate::recording(
                        command,
                        "not_found",
                        RotateServiceAccountSecretError::NotFound,
                    ),
                    Ok(Mutation::Revoked) => Rotate::recording(
                        command,
                        "revoked",
                        RotateServiceAccountSecretError::Revoked,
                    ),
                    Ok(Mutation::RevisionConflict) => Rotate::recording(
                        command,
                        "revision_conflict",
                        RotateServiceAccountSecretError::RevisionConflict,
                    ),
                    Err(StoreError::Unique(constraint)) => Rotate::Failed(
                        Failure::Constraint(constraint),
                    ),
                    Err(StoreError::Plugin(error)) => Rotate::Failed(Failure::Plugin(error)),
                }
            },
            (Rotate::RecordError { command: _, code: _, error }, RotateEvent::Recorded) => {
                Rotate::Done(Err(error))
            },
            _ => Rotate::Failed(Failure::UnexpectedReply),
        }
    }
}

/// A secret is handed out only by the call that rotated: an answer that carries
/// one comes straight from the update, and says that the secret was rotated.
pub proof fn rotation_shows_the_secret_once(
    state: Rotate,
    active: ActiveServiceAccount,
    event: RotateEvent,
    response: RotateServiceAccountSecretResponse,
)
    requires
        state.steps_to(active, event, Rotate::Done(Ok(response))),
        response.secret.0 is Some,
    ensures
        response.rotated,
        state matches Rotate::Update { secret, .. } && response.secret.0.unwrap()@ == secret.raw(),
        event matches RotateEvent::Updated(Ok(Mutation::Updated(_))),
{
}

/// A replayed rotation shows the same account, no secret, and that nothing was
/// rotated.
pub proof fn a_replayed_rotation_shows_no_secret(
    receipt: Vec<u8>,
    active: ActiveServiceAccount,
    stored: RotateServiceAccountSecretResponse,
    next: Rotate,
)
    requires
        (Rotate::DecodeReceipt { receipt }).steps_to(
            active,
            RotateEvent::ReceiptDecoded(Ok(stored)),
            next,
        ),
    ensures
        next matches Rotate::Done(Ok(response)) && response.account == stored.account
            && !response.rotated && response.secret.0 is None,
{
}

/// An error that a rotation records is the error that a later call reads from
/// the record.
pub proof fn recorded_rotation_errors_are_read_back(
    state: Rotate,
    active: ActiveServiceAccount,
    event: RotateEvent,
    command: CommandKey,
    code: String,
    error: RotateServiceAccountSecretError,
)
    requires
        state.steps_to(active, event, Rotate::RecordError { command, code, error }),
    ensures
        rotate_error_of(code@) == Some(error),
{
    reveal_strlit("not_found");
    reveal_strlit("revoked");
    reveal_strlit("revision_conflict");
    assert("not_found"@.len() == 9);
    assert("revoked"@.len() == 7);
    assert("revision_conflict"@.len() == 17);
}

/// A rotation keeps the old secret usable for no longer than the configured
/// overlap, and the new one for the configured lifetime.
pub proof fn rotation_uses_the_configured_bounds(
    state: Rotate,
    active: ActiveServiceAccount,
    command: CommandKey,
    request: RotateServiceAccountSecretRequest,
    expected_revision: i64,
    secret: CredentialSecret,
    verifier_text: String,
    now: int,
)
    requires
        state.updates(
            active,
            command,
            request,
            expected_revision,
            secret,
            verifier_text,
            now,
        ),
        active.config.limits_hold(),
    ensures
        state matches Rotate::Update { rotation, .. } && {
            &&& rotation.valid_from <= rotation.overlap_until <= rotation.valid_from
                + 3_600_000_000_000
            &&& rotation.overlap_until < rotation.valid_until
        },
{
}

/// `states` is a run of a rotation over `events`.
pub open spec fn is_rotate_run(
    states: Seq<Rotate>,
    events: Seq<RotateEvent>,
    active: ActiveServiceAccount,
    caller: Option<String>,
    request: RotateServiceAccountSecretRequest,
) -> bool {
    &&& states.len() == events.len() + 1
    &&& states[0].is_start(active, caller, request)
    &&& forall|i: int|
        0 <= i < events.len() ==> (#[trigger] states[i]).steps_to(active, events[i], states[i + 1])
}

/// The run is that of a valid request by `caller`, who is on the allowlist, and
/// is authorized as `subject`; its intent is serialized as `bytes`.
pub open spec fn is_authorized_rotate(
    states: Seq<Rotate>,
    events: Seq<RotateEvent>,
    active: ActiveServiceAccount,
    caller: String,
    request: RotateServiceAccountSecretRequest,
    subject: Seq<char>,
    bytes: Seq<u8>,
) -> bool {
    &&& is_rotate_run(states, events, active, Some(caller), request)
    &&& lists(active.config.management_callers@, caller@)
    &&& rotation_revision(request) is Some
    &&& is_token(subject, 256)
    &&& events.len() >= 5
    &&& forall|i: int|
        0 <= i < 5 ==> (#[trigger] events[i] matches RotateEvent::Entry(event) && goes_through(
            event,
            i,
            subject,
            bytes,
        ))
}

/// The command of a rotation.
pub open spec fn rotation_key(caller: Seq<char>, idempotency_key: Seq<char>) -> CommandKeyView {
    CommandKeyView { caller, operation: ROTATE_SECRET_OPERATION@, idempotency_key }
}

proof fn lemma_rotate_reaches_its_claim(
    states: Seq<Rotate>,
    events: Seq<RotateEvent>,
    active: ActiveServiceAccount,
    caller: String,
    request: RotateServiceAccountSecretRequest,
    subject: Seq<char>,
    bytes: Seq<u8>,
    i: int,
)
    requires
        is_authorized_rotate(states, events, active, caller, request, subject, bytes),
        0 <= i <= 5,
    ensures
        states[i] matches Rotate::Enter { request: own, entry, .. } && own == request && stands(
            entry,
            i,
            rotation_key(caller@, request.idempotency_key@),
            subject,
            bytes,
        ),
    decreases i,
{
    let key = rotation_key(caller@, request.idempotency_key@);
    if i > 0 {
        lemma_rotate_reaches_its_claim(
            states,
            events,
            active,
            caller,
            request,
            subject,
            bytes,
            i - 1,
        );
        assert(states[i - 1].steps_to(active, events[i - 1], states[i]));
        assert(events[i - 1] is Entry);
        let entry = states[i - 1]->Enter_entry;
        let event = events[i - 1]->Entry_0;
        assert forall|pending: Entry| #[trigger]
            entry.steps_to(active.receipt_cipher, event, pending) implies stands(
            pending,
            i,
            key,
            subject,
            bytes,
        ) by {
            an_authorized_call_goes_on(
                entry,
                active.receipt_cipher,
                event,
                pending,
                i - 1,
                key,
                subject,
                bytes,
            );
        }
    }
}

/// A rotation that is repeated is answered from its receipt, whatever happened
/// meanwhile, until the receipt is old enough to be pruned. The repeat is the
/// same request by the same caller and user, authorized again, and what is read
/// of the receipt is what was written into it. The claim changes nothing,
/// nothing is rotated, though the revision has moved on. The answer shows the
/// same account, no secret, and that nothing was rotated.
pub proof fn a_repeated_rotation_is_answered_alike<E>(
    t: TablesView,
    command: CommandKey,
    rotation: Rotation,
    secret: CredentialSecret,
    row: AccountRow,
    at: int,
    nonce: Vec<u8>,
    ciphertext: Vec<u8>,
    encode: E,
    first: RotateServiceAccountSecretResponse,
    history: Seq<Transaction>,
    states: Seq<Rotate>,
    events: Seq<RotateEvent>,
    active: ActiveServiceAccount,
    caller: String,
    request: RotateServiceAccountSecretRequest,
    subject: Seq<char>,
    bytes: Seq<u8>,
    claim: CommandClaim,
    decoded: RotateServiceAccountSecretResponse,
) where E: FnOnce(&RotateServiceAccountSecretResponse) -> Result<Vec<u8>, serde_json::Error>
    requires
        command@ == rotation_key(caller@, request.idempotency_key@),
        completable(t, command@),
        t.commands[command@].intent_hash == sha256_digest(bytes),
        row@ == account_row(after_rotation(t, rotation, at), rotation.service_account_id@),
        seals_rotation(
            active.receipt_cipher.key(),
            receipt_binding(command@),
            row@,
            encode,
            Ok((nonce, ciphertext)),
        ),
        (Rotate::Update { command, rotation, secret }).steps_to(
            active,
            RotateEvent::Updated(Ok(Mutation::Updated(row))),
            Rotate::Done(Ok(first)),
        ),
        spares(history, at),
        is_authorized_rotate(states, events, active, caller, request, subject, bytes),
        events.len() == 7,
        events[5] == RotateEvent::Entry(EntryEvent::Admission(AdmissionEvent::Claimed(claim))),
        claim_outcome(
            replay(
                after_success(after_rotation(t, rotation, at), command@, nonce@, ciphertext@, at),
                history,
            ),
            command@,
            sha256_digest(bytes),
        ) == Some(claim@),
        events[6] == RotateEvent::ReceiptDecoded(Ok(decoded)),
        states[6] matches Rotate::DecodeReceipt { receipt } ==> reads_back(
            encode,
            receipt@,
            decoded,
        ),
    ensures
        ({
            let later = replay(
                after_success(after_rotation(t, rotation, at), command@, nonce@, ciphertext@, at),
                history,
            );
            forall|claimed_at: int| #[trigger]
                after_claim(later, command@, sha256_digest(bytes), claimed_at) == later
        }),
        forall|i: int| 0 <= i < 8 ==> !((#[trigger] states[i]) is Update),
        states[7] matches Rotate::Done(Ok(second)) && same_account(second.account, first.account)
            && !second.rotated && second.secret.0 is None,
{
    let binding = receipt_binding(command@);
    let done = after_success(after_rotation(t, rotation, at), command@, nonce@, ciphertext@, at);
    let later = replay(done, history);
    completed_commands_last(done, history, command@, at);
    reveal_strlit("completed_success");
    reveal_strlit("completed_error");
    assert("completed_error"@.len() != "completed_success"@.len());
    assert(claim@ == ClaimView::CompletedSuccess { nonce: nonce@, ciphertext: ciphertext@ });
    lemma_rotate_reaches_its_claim(states, events, active, caller, request, subject, bytes, 0);
    lemma_rotate_reaches_its_claim(states, events, active, caller, request, subject, bytes, 1);
    lemma_rotate_reaches_its_claim(states, events, active, caller, request, subject, bytes, 2);
    lemma_rotate_reaches_its_claim(states, events, active, caller, request, subject, bytes, 3);
    lemma_rotate_reaches_its_claim(states, events, active, caller, request, subject, bytes, 4);
    lemma_rotate_reaches_its_claim(states, events, active, caller, request, subject, bytes, 5);
    assert(states[5].steps_to(active, events[5], states[6]));
    assert(states[6].steps_to(active, events[6], states[7]));
    let response = choose|response: RotateServiceAccountSecretResponse|
        is_rotation_receipt(response, row@) && #[trigger] seals(
            active.receipt_cipher.key(),
            binding,
            &response,
            encode,
            Ok((nonce, ciphertext)),
        );
    let written = choose|written: Vec<u8>|
        {
            &&& #[trigger] call_ensures(
                encode,
                (&response,),
                Ok::<_, serde_json::Error>(written),
            )
            &&& opened_receipt(active.receipt_cipher.key(), nonce@, ciphertext@, binding) == Some(
                written@,
            )
        };
    assert(states[6] matches Rotate::DecodeReceipt { receipt } && receipt@ == written@);
    assert(decoded == response);
    one_row_has_one_summary(decoded.account, first.account, row@);
}

/// A rotation under a key that was used with another intent, be it by another
/// user or for another request, is a conflict: nothing is shown of the earlier
/// call and nothing is done. Intents are told apart by their hashes.
pub proof fn a_rotation_with_another_intent_is_a_conflict(
    t: TablesView,
    states: Seq<Rotate>,
    events: Seq<RotateEvent>,
    active: ActiveServiceAccount,
    caller: String,
    request: RotateServiceAccountSecretRequest,
    subject: Seq<char>,
    bytes: Seq<u8>,
    earlier: Seq<u8>,
    claim: CommandClaim,
)
    requires
        ({
            let key = rotation_key(caller@, request.idempotency_key@);
            &&& t.commands.dom().contains(key)
            &&& t.commands[key].intent_hash == sha256_digest(earlier)
            &&& claim_outcome(t, key, sha256_digest(bytes)) == Some(claim@)
        }),
        sha256_digest(bytes) != sha256_digest(earlier),
        is_authorized_rotate(states, events, active, caller, request, subject, bytes),
        events.len() == 6,
        events[5] == RotateEvent::Entry(EntryEvent::Admission(AdmissionEvent::Claimed(claim))),
    ensures
        states[6] == Rotate::Done(Err(RotateServiceAccountSecretError::IdempotencyConflict)),
        forall|claimed_at: int| #[trigger]
            after_claim(
                t,
                rotation_key(caller@, request.idempotency_key@),
                sha256_digest(bytes),
                claimed_at,
            ) == t,
{
    lemma_rotate_reaches_its_claim(states, events, active, caller, request, subject, bytes, 5);
    assert(states[5].steps_to(active, events[5], states[6]));
}

/// A rotation that was refused is refused alike when it is repeated, whatever
/// happened meanwhile, until the record of the refusal is old enough to be
/// pruned. The repeat is the same request by the same caller and user,
/// authorized again. The claim changes nothing and nothing else is tried.
pub proof fn a_refused_rotation_is_answered_alike(
    t: TablesView,
    state: Rotate,
    event: RotateEvent,
    command: CommandKey,
    code: String,
    error: RotateServiceAccountSecretError,
    first: Rotate,
    at: int,
    history: Seq<Transaction>,
    states: Seq<Rotate>,
    events: Seq<RotateEvent>,
    active: ActiveServiceAccount,
    caller: String,
    request: RotateServiceAccountSecretRequest,
    subject: Seq<char>,
    bytes: Seq<u8>,
    claim: CommandClaim,
)
    requires
        command@ == rotation_key(caller@, request.idempotency_key@),
        completable(t, command@),
        t.commands[command@].intent_hash == sha256_digest(bytes),
        state.steps_to(active, event, Rotate::RecordError { command, code, error }),
        (Rotate::RecordError { command, code, error }).steps_to(active, RotateEvent::Recorded, first),
        spares(history, at),
        is_authorized_rotate(states, events, active, caller, request, subject, bytes),
        events.len() == 6,
        events[5] == RotateEvent::Entry(EntryEvent::Admission(AdmissionEvent::Claimed(claim))),
        claim_outcome(
            replay(after_error(t, command@, code@, at), history),
            command@,
            sha256_digest(bytes),
        ) == Some(claim@),
    ensures
        ({
            let later = replay(after_error(t, command@, code@, at), history);
            forall|claimed_at: int| #[trigger]
                after_claim(later, command@, sha256_digest(bytes), claimed_at) == later
        }),
        first == Rotate::Done(Err(error)),
        forall|i: int| 0 <= i < 6 ==> (#[trigger] states[i]) is Enter,
        states[6] == first,
{
    completed_commands_last(after_error(t, command@, code@, at), history, command@, at);
    recorded_rotation_errors_are_read_back(state, active, event, command, code, error);
    reveal_strlit("completed_success");
    reveal_strlit("completed_error");
    assert("completed_error"@.len() != "completed_success"@.len());
    assert(claim@ == ClaimView::CompletedError(code@));
    assert forall|i: int| 0 <= i < 6 implies (#[trigger] states[i]) is Enter by {
        lemma_rotate_reaches_its_claim(states, events, active, caller, request, subject, bytes, i);
    }
    lemma_rotate_reaches_its_claim(states, events, active, caller, request, subject, bytes, 5);
    assert(states[5].steps_to(active, events[5], states[6]));
}

/// A rotation that was started and not completed is not started again: the
/// repeated call is answered that the operation is in progress, whatever happened
/// meanwhile, and changes nothing.
pub proof fn a_rotation_in_progress_is_not_started_again(
    t: TablesView,
    history: Seq<Transaction>,
    states: Seq<Rotate>,
    events: Seq<RotateEvent>,
    active: ActiveServiceAccount,
    caller: String,
    request: RotateServiceAccountSecretRequest,
    subject: Seq<char>,
    bytes: Seq<u8>,
    claim: CommandClaim,
)
    requires
        ({
            let key = rotation_key(caller@, request.idempotency_key@);
            &&& completable(t, key)
            &&& t.commands[key].completed_at is None
            &&& t.commands[key].intent_hash == sha256_digest(bytes)
            &&& leaves_open(history, key)
            &&& claim_outcome(replay(t, history), key, sha256_digest(bytes)) == Some(claim@)
        }),
        is_authorized_rotate(states, events, active, caller, request, subject, bytes),
        events.len() == 6,
        events[5] == RotateEvent::Entry(EntryEvent::Admission(AdmissionEvent::Claimed(claim))),
    ensures
        ({
            let key = rotation_key(caller@, request.idempotency_key@);
            let later = replay(t, history);
            forall|claimed_at: int| #[trigger]
                after_claim(later, key, sha256_digest(bytes), claimed_at) == later
        }),
        forall|i: int| 0 <= i < 6 ==> (#[trigger] states[i]) is Enter,
        states[6] == Rotate::Done(Err(RotateServiceAccountSecretError::OperationInProgress)),
{
    unfinished_commands_stay_in_progress(
        t,
        history,
        rotation_key(caller@, request.idempotency_key@),
    );
    assert forall|i: int| 0 <= i < 6 implies (#[trigger] states[i]) is Enter by {
        lemma_rotate_reaches_its_claim(states, events, active, caller, request, subject, bytes, i);
    }
    lemma_rotate_reaches_its_claim(states, events, active, caller, request, subject, bytes, 5);
    assert(states[5].steps_to(active, events[5], states[6]));
}

} // verus!
