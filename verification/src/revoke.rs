//! Revoking a service account.

use vstd::prelude::*;
use vstd::string::*;

use crate::admission::{
    reads_back, receipt_binding, seal_receipt, seals, AdmissionEvent, Refusal,
};
use crate::config::lists;
use crate::contract::{
    RevokeServiceAccountError, RevokeServiceAccountRequest, RevokeServiceAccountResponse,
    REVOKE_OPERATION,
};
use crate::crypto::{opened_receipt, sha256_digest, ReceiptCipher};
use crate::entry::{an_authorized_call_goes_on, goes_through, stands, Entry, EntryEvent};
use crate::error::{CryptoError, Failure, ServiceAccountPluginError};
use crate::history::{
    completed_commands_last, leaves_open, replay, spares, unfinished_commands_stay_in_progress,
    Transaction,
};
use crate::lifecycle::ActiveServiceAccount;
use crate::management::{
    map_revoke_authorization, one_row_has_one_summary, revocation_revision, revoke_error,
    revoke_error_of, revoke_refusal, same_account, summarizes, summary, unsummarizable, valid_revocation,
};
use crate::rows::{
    AccountRow, AccountRowView, ClaimView, CommandClaim, CommandKey, CommandKeyView, Mutation,
};
use crate::storage::{
    account_row, after_claim, after_error, after_revocation, after_success, claim_outcome,
    completable, revocable, revocation_obstacle, Obstacle, Revocation, StoreError, Tables,
    TablesView,
};
use crate::table::continues;
use crate::text::is_token;

verus! {

/// Where a revocation stands. All states but the last two ask for outside work.
pub enum Revoke {
    /// Authorize the caller and admit the command.
    Enter { request: RevokeServiceAccountRequest, expected_revision: i64, entry: Entry },
    /// Deserialize the answer from the receipt.
    DecodeReceipt { receipt: Vec<u8> },
    /// Run `commit_revocation` on the tables.
    Update { command: CommandKey, revocation: Revocation },
    /// Complete the command with the error code.
    RecordError { command: CommandKey, code: String, error: RevokeServiceAccountError },
    Done(Result<RevokeServiceAccountResponse, RevokeServiceAccountError>),
    Failed(Failure),
}

/// Outside work that was done.
pub enum RevokeEvent {
    Entry(EntryEvent),
    ReceiptDecoded(Result<RevokeServiceAccountResponse, serde_json::Error>),
    Updated(Result<Mutation<(AccountRow, bool)>, StoreError>),
    Recorded,
}

/// What is stored as the answer of a revocation.
pub open spec fn is_revocation_receipt(
    response: RevokeServiceAccountResponse,
    row: AccountRowView,
    changed: bool,
) -> bool {
    &&& summarizes(response.account, row)
    &&& response.revoked == changed
}

/// `sealed` is the receipt of a revocation, or why there is none.
pub open spec fn seals_revocation<E>(
    key: Seq<u8>,
    binding: Seq<u8>,
    row: AccountRowView,
    changed: bool,
    encode: E,
    sealed: Result<(Vec<u8>, Vec<u8>), ServiceAccountPluginError>,
) -> bool where
    E: FnOnce(&RevokeServiceAccountResponse) -> Result<Vec<u8>, serde_json::Error>,
 {
    ||| exists|response: RevokeServiceAccountResponse|
        is_revocation_receipt(response, row, changed) && #[trigger] seals(
            key,
            binding,
            &response,
            encode,
            sealed,
        )
    ||| sealed matches Err(error) && unsummarizable(error, row)
}

/// What a revocation answers and leaves behind, and when.
pub open spec fn commits_revocation<E>(
    before: TablesView,
    after: TablesView,
    cipher_key: Seq<u8>,
    command: CommandKeyView,
    revocation: Revocation,
    now: int,
    at: int,
    encode: E,
    r: Result<Mutation<(AccountRow, bool)>, StoreError>,
) -> bool where
    E: FnOnce(&RevokeServiceAccountResponse) -> Result<Vec<u8>, serde_json::Error>,
 {
    let id = revocation.service_account_id@;
    let revoked = after_revocation(before, revocation, now);
    let row_view = account_row(revoked, id);
    let changed = revocable(before, id);
    let binding = receipt_binding(command);
    match (revocation_obstacle(before, revocation), r) {
        (Some(obstacle), r) => {
            &&& after == before
            &&& match obstacle {
                Obstacle::NotFound => r matches Ok(Mutation::NotFound),
                Obstacle::RevisionConflict => r matches Ok(Mutation::RevisionConflict),
                Obstacle::Exhausted => {
                    r matches Err(StoreError::Plugin(error)) && error.says(
                        "service-account revision is exhausted"@,
                    )
                },
                _ => false,
            }
        },
        (None, Ok(Mutation::Updated(result))) => {
            &&& result.0@ == row_view
            &&& result.1 == changed
            &&& completable(before, command)
            &&& exists|nonce: Vec<u8>, ciphertext: Vec<u8>|
                {
                    &&& #[trigger] seals_revocation(
                        cipher_key,
                        binding,
                        row_view,
                        changed,
                        encode,
                        Ok((nonce, ciphertext)),
                    )
                    &&& after == after_success(
                        revoked,
                        command,
                        nonce@,
                        ciphertext@,
                        at,
                    )
                }
        },
        (None, Err(StoreError::Plugin(error))) => {
            &&& after == before
            &&& {
                ||| seals_revocation(
                    cipher_key,
                    binding,
                    row_view,
                    changed,
                    encode,
                    Err(error),
                )
                ||| error.says("service-account command was not completable"@) && !completable(
                    before,
                    command,
                )
            }
        },
        _ => false,
    }
}

/// Revokes the account in the tables, with a receipt that `encode` serializes.
/// Rows keep their places.
pub fn commit_revocation<E>(
    tables: &mut Tables,
    cipher: &ReceiptCipher,
    command: &CommandKey,
    revocation: &Revocation,
    now: i128,
    at: i128,
    encode: E,
) -> (r: Result<Mutation<(AccountRow, bool)>, StoreError>) where
    E: FnOnce(&RevokeServiceAccountResponse) -> Result<Vec<u8>, serde_json::Error>,

    requires
        old(tables).well_formed(),
        forall|response: &RevokeServiceAccountResponse| call_requires(encode, (response,)),
    ensures
        final(tables).well_formed(),
        continues(final(tables).accounts@, old(tables).accounts@),
        final(tables).accounts@.len() == old(tables).accounts@.len(),
        continues(final(tables).credentials@, old(tables).credentials@),
        final(tables).credentials@.len() == old(tables).credentials@.len(),
        commits_revocation(
            old(tables)@,
            final(tables)@,
            cipher.key(),
            command@,
            *revocation,
            now as int,
            at as int,
            encode,
            r,
        ),
{
    let receipt = |result: &(AccountRow, bool)| -> (sealed: Result<
        (Vec<u8>, Vec<u8>),
        ServiceAccountPluginError,
    >)
        ensures
            seals_revocation(
                cipher.key(),
                receipt_binding(command@),
                result.0@,
                result.1,
                encode,
                sealed,
            ),
        {
            match summary(&result.0) {
                Err(error) => Err(error),
                Ok(account) => {
                    let response = RevokeServiceAccountResponse { account, revoked: result.1 };
                    assert(is_revocation_receipt(response, result.0@, result.1));
                    seal_receipt(cipher, command, &response, encode)
                },
            }
        };
    tables.revoke_account(command, revocation, now, at, receipt)
}

impl Revoke {
    /// The revocation, given where its entry stands.
    pub open spec fn follows_entry(
        self,
        request: RevokeServiceAccountRequest,
        expected_revision: i64,
        entry: Entry,
    ) -> bool {
        match entry {
            Entry::Admitted { command } => self == (Revoke::Update {
                command,
                revocation: Revocation {
                    organization_id: request.organization_id,
                    service_account_id: request.service_account_id,
                    expected_revision,
                },
            }),
            Entry::Replayed { receipt } => self == Revoke::DecodeReceipt { receipt },
            Entry::Refused(Refusal::Recorded(code)) => match revoke_error_of(code@) {
                Some(error) => self == Revoke::Done(Err(error)),
                None => {
                    &&& self matches Revoke::Failed(Failure::Plugin(error))
                    &&& error.says("unknown revoke receipt error"@)
                },
            },
            Entry::Refused(Refusal::Conflict) => self == Revoke::Done(
                Err(RevokeServiceAccountError::IdempotencyConflict),
            ),
            Entry::Refused(Refusal::InProgress) => self == Revoke::Done(
                Err(RevokeServiceAccountError::OperationInProgress),
            ),
            Entry::Denied(error) => match revoke_refusal(error) {
                Ok(error) => self == Revoke::Done(Err(error)),
                Err(failure) => self == Revoke::Failed(failure),
            },
            Entry::Failed(failure) => self == Revoke::Failed(failure),
            entry => self == Revoke::Enter { request, expected_revision, entry },
        }
    }

    fn from_entry(
        request: RevokeServiceAccountRequest,
        expected_revision: i64,
        entry: Entry,
    ) -> (r: Revoke)
        ensures
            r.follows_entry(request, expected_revision, entry),
    {
        match entry {
            Entry::Admitted { command } => Revoke::Update {
                command,
                revocation: Revocation {
                    organization_id: request.organization_id,
                    service_account_id: request.service_account_id,
                    expected_revision,
                },
            },
            Entry::Replayed { receipt } => Revoke::DecodeReceipt { receipt },
            Entry::Refused(Refusal::Recorded(code)) => match revoke_error(code.as_str()) {
                Ok(error) => Revoke::Done(Err(error)),
                Err(error) => Revoke::Failed(Failure::Plugin(error)),
            },
            Entry::Refused(Refusal::Conflict) => Revoke::Done(
                Err(RevokeServiceAccountError::IdempotencyConflict),
            ),
            Entry::Refused(Refusal::InProgress) => Revoke::Done(
                Err(RevokeServiceAccountError::OperationInProgress),
            ),
            Entry::Denied(error) => match map_revoke_authorization(error) {
                Ok(error) => Revoke::Done(Err(error)),
                Err(failure) => Revoke::Failed(failure),
            },
            Entry::Failed(failure) => Revoke::Failed(failure),
            entry => Revoke::Enter { request, expected_revision, entry },
        }
    }

    /// The start of a revocation.
    pub open spec fn is_start(
        self,
        active: ActiveServiceAccount,
        caller: Option<String>,
        request: RevokeServiceAccountRequest,
    ) -> bool {
        match revocation_revision(request) {
            Some(expected_revision) => exists|entry: Entry| #[trigger]
                entry.is_start(
                    active.config,
                    caller,
                    REVOKE_OPERATION@,
                    request.organization_id@,
                    request.idempotency_key@,
                ) && self.follows_entry(request, expected_revision, entry),
            None => self == Revoke::Done(Err(RevokeServiceAccountError::InvalidRequest)),
        }
    }

    pub fn start(
        active: &ActiveServiceAccount,
        caller: Option<String>,
        request: RevokeServiceAccountRequest,
    ) -> (r: Revoke)
        ensures
            r.is_start(*active, caller, request),
    {
        match valid_revocation(&request) {
            None => Revoke::Done(Err(RevokeServiceAccountError::InvalidRequest)),
            Some(expected_revision) => {
                let entry: Entry = Entry::start(
                    &active.config,
                    caller,
                    REVOKE_OPERATION,
                    request.organization_id.as_str(),
                    request.idempotency_key.as_str(),
                );
                Revoke::from_entry(request, expected_revision, entry)
            },
        }
    }

    /// The revocation asks for an error to be recorded.
    pub open spec fn records(
        self,
        command: CommandKey,
        code: Seq<char>,
        error: RevokeServiceAccountError,
    ) -> bool {
        &&& self matches Revoke::RecordError { command: own, code: text, error: answer }
        &&& own == command
        &&& text@ == code
        &&& answer == error
    }

    fn recording(command: CommandKey, code: &str, error: RevokeServiceAccountError) -> (r: Revoke)
        ensures
            r.records(command, code@, error),
    {
        Revoke::RecordError { command, code: code.to_string(), error }
    }

    /// `next` is where the revocation goes on after `event`.
    pub open spec fn steps_to(
        self,
        active: ActiveServiceAccount,
        event: RevokeEvent,
        next: Revoke,
    ) -> bool {
        match (self, event) {
            (Revoke::Enter { request, expected_revision, entry }, RevokeEvent::Entry(event)) => {
                exists|pending: Entry| #[trigger]
                    entry.steps_to(active.receipt_cipher, event, pending) && next.follows_entry(
                        request,
                        expected_revision,
                        pending,
                    )
            },
            (Revoke::DecodeReceipt { receipt }, RevokeEvent::ReceiptDecoded(decoded)) => {
                match decoded {
                    Ok(response) => next == Revoke::Done(
                        Ok(
                            RevokeServiceAccountResponse {
                                account: response.account,
                                revoked: false,
                            },
                        ),
                    ),
                    Err(error) => next == Revoke::Failed(
                        Failure::Plugin(
                            ServiceAccountPluginError::Crypto(CryptoError::Deserialize(error)),
                        ),
                    ),
                }
            },
            (Revoke::Update { command, revocation }, RevokeEvent::Updated(outcome)) => {
                match outcome {
                    Ok(Mutation::Updated(result)) => match next {
                        Revoke::Done(Ok(response)) => {
                            &&& summarizes(response.account, result.0@)
                            &&& response.revoked == result.1
                        },
                        Revoke::Failed(Failure::Plugin(error)) => unsummarizable(
                            error,
                            result.0@,
                        ),
                        _ => false,
                    },
                    Ok(Mutation::NotFound) => next.records(
                        command,
                        "not_found"@,
                        RevokeServiceAccountError::NotFound,
                    ),
                    Ok(Mutation::RevisionConflict) => next.records(
                        command,
                        "revision_conflict"@,
                        RevokeServiceAccountError::RevisionConflict,
                    ),
                    Ok(Mutation::Revoked) => {
                        &&& next matches Revoke::Failed(Failure::Plugin(error))
                        &&& error.says("revocation returned an impossible state"@)
                    },
                    Err(StoreError::Unique(constraint)) => next == Revoke::Failed(
                        Failure::Constraint(constraint),
                    ),
                    Err(StoreError::Plugin(error)) => next == Revoke::Failed(
                        Failure::Plugin(error),
                    ),
                }
            },
            (Revoke::RecordError { command, code, error }, RevokeEvent::Recorded) => next
                == Revoke::Done(Err(error)),
            _ => next == Revoke::Failed(Failure::UnexpectedReply),
        }
    }

    /// Goes on after `event`.
    pub fn resume(self, active: &ActiveServiceAccount, event: RevokeEvent) -> (next: Revoke)
        ensures
            self.steps_to(*active, event, next),
    {
        match (self, event) {
            (Revoke::Enter { request, expected_revision, entry }, RevokeEvent::Entry(event)) => {
                Revoke::from_entry(
                    request,
                    expected_revision,
                    entry.resume(&active.receipt_cipher, event),
                )
            },
            (Revoke::DecodeReceipt { receipt: _ }, RevokeEvent::ReceiptDecoded(decoded)) => {
                match decoded {
                    Ok(response) => Revoke::Done(
                        Ok(
                            RevokeServiceAccountResponse {
                                account: response.account,
                                revoked: false,
                            },
                        ),
                    ),
                    Err(error) => Revoke::Failed(
                        Failure::Plugin(
                            ServiceAccountPluginError::Crypto(CryptoError::Deserialize(error)),
                        ),
                    ),
                }
            },
            (Revoke::Update { command, revocation: _ }, RevokeEvent::Updated(outcome)) => {
                match outcome {
                    Ok(Mutation::Updated(result)) => match summary(&result.0) {
                        Ok(account) => Revoke::Done(
                            Ok(RevokeServiceAccountResponse { account, revoked: result.1 }),
                        ),
                        Err(error) => Revoke::Failed(Failure::Plugin(error)),
                    },
                    Ok(Mutation::NotFound) => Revoke::recording(
                        command,
                        "not_found",
                        RevokeServiceAccountError::NotFound,
                    ),
                    Ok(Mutation::RevisionConflict) => Revoke::recording(
                        command,
                        "revision_conflict",
                        RevokeServiceAccountError::RevisionConflict,
                    ),
                    Ok(Mutation::Revoked) => Revoke::Failed(
                        Failure::Plugin(
                            ServiceAccountPluginError::Invariant(
                                "revocation returned an impossible state",
                            ),
                        ),
                    ),
                    Err(StoreError::Unique(constraint)) => Revoke::Failed(
                        Failure::Constraint(constraint),
                    ),
                    Err(StoreError::Plugin(error)) => Revoke::Failed(Failure::Plugin(error)),
                }
            },
            (Revoke::RecordError { command: _, code: _, error }, RevokeEvent::Recorded) => {
                Revoke::Done(Err(error))
            },
            _ => Revoke::Failed(Failure::UnexpectedReply),
        }
    }
}

/// A replayed revocation shows the same account, and that nothing was revoked.
pub proof fn a_replayed_revocation_revokes_nothing(
    receipt: Vec<u8>,
    active: ActiveServiceAccount,
    stored: RevokeServiceAccountResponse,
    next: Revoke,
)
    requires
        (Revoke::DecodeReceipt { receipt }).steps_to(
            active,
            RevokeEvent::ReceiptDecoded(Ok(stored)),
            next,
        ),
    ensures
        next matches Revoke::Done(Ok(response)) && response.account == stored.account
            && !response.revoked,
{
}

/// An error that a revocation records is the error that a later call reads from
/// the record.
pub proof fn recorded_revocation_errors_are_read_back(
    state: Revoke,
    active: ActiveServiceAccount,
    event: RevokeEvent,
    command: CommandKey,
    code: String,
    error: RevokeServiceAccountError,
)
    requires
        state.steps_to(active, event, Revoke::RecordError { command, code, error }),
    ensures
        revoke_error_of(code@) == Some(error),
{
    reveal_strlit("not_found");
    reveal_strlit("revision_conflict");
    assert("not_found"@.len() == 9);
    assert("revision_conflict"@.len() == 17);
}

/// `states` is a run of a revocation over `events`.
pub open spec fn is_revoke_run(
    states: Seq<Revoke>,
    events: Seq<RevokeEvent>,
    active: ActiveServiceAccount,
    caller: Option<String>,
    request: RevokeServiceAccountRequest,
) -> bool {
    &&& states.len() == events.len() + 1
    &&& states[0].is_start(active, caller, request)
    &&& forall|i: int|
        0 <= i < events.len() ==> (#[trigger] states[i]).steps_to(active, events[i], states[i + 1])
}

/// The run is that of a valid request by `caller`, who is on the allowlist, and
/// is authorized as `subject`; its intent is serialized as `bytes`.
pub open spec fn is_authorized_revoke(
    states: Seq<Revoke>,
    events: Seq<RevokeEvent>,
    active: ActiveServiceAccount,
    caller: String,
    request: RevokeServiceAccountRequest,
    subject: Seq<char>,
    bytes: Seq<u8>,
) -> bool {
    &&& is_revoke_run(states, events, active, Some(caller), request)
    &&& lists(active.config.management_callers@, caller@)
    &&& revocation_revision(request) is Some
    &&& is_token(subject, 256)
    &&& events.len() >= 5
    &&& forall|i: int|
        0 <= i < 5 ==> (#[trigger] events[i] matches RevokeEvent::Entry(event) && goes_through(
            event,
            i,
            subject,
            bytes,
        ))
}

/// The command of a revocation.
pub open spec fn revocation_key(caller: Seq<char>, idempotency_key: Seq<char>) -> CommandKeyView {
    CommandKeyView { caller, operation: REVOKE_OPERATION@, idempotency_key }
}

proof fn lemma_revoke_reaches_its_claim(
    states: Seq<Revoke>,
    events: Seq<RevokeEvent>,
    active: ActiveServiceAccount,
    caller: String,
    request: RevokeServiceAccountRequest,
    subject: Seq<char>,
    bytes: Seq<u8>,
    i: int,
)
    requires
        is_authorized_revoke(states, events, active, caller, request, subject, bytes),
        0 <= i <= 5,
    ensures
        states[i] matches Revoke::Enter { request: own, entry, .. } && own == request && stands(
            entry,
            i,
            revocation_key(caller@, request.idempotency_key@),
            subject,
            bytes,
        ),
    decreases i,
{
    let key = revocation_key(caller@, request.idempotency_key@);
    if i > 0 {
        lemma_revoke_reaches_its_claim(
            states,
            events,
            active,
            caller,
            request,
            subject,
            bytes,
            i - 1,
        );
        assert(states[i - 1].steps_to(active, events[i - 1], states[i]));
        assert(events[i - 1] is Entry);
        let entry = states[i - 1]->Enter_entry;
        let event = events[i - 1]->Entry_0;
        assert forall|pending: Entry| #[trigger]
            entry.steps_to(active.receipt_cipher, event, pending) implies stands(
            pending,
            i,
            key,
            subject,
            bytes,
        ) by {
            an_authorized_call_goes_on(
                entry,
                active.receipt_cipher,
                event,
                pending,
                i - 1,
                key,
                subject,
                bytes,
            );
        }
    }
}

/// A revocation that is repeated is answered from its receipt, whatever happened
/// meanwhile, until the receipt is old enough to be pruned. The repeat is the
/// same request by the same caller and user, authorized again, and what is read
/// of the receipt is what was written into it. The claim changes nothing,
/// nothing is revoked, though the revision has moved on. The answer shows the
/// same account, and that nothing was revoked.
pub proof fn a_repeated_revocation_is_answered_alike<E>(
    t: TablesView,
    command: CommandKey,
    revocation: Revocation,
    now: int,
    result: (AccountRow, bool),
    at: int,
    nonce: Vec<u8>,
    ciphertext: Vec<u8>,
    encode: E,
    first: RevokeServiceAccountResponse,
    history: Seq<Transaction>,
    states: Seq<Revoke>,
    events: Seq<RevokeEvent>,
    active: ActiveServiceAccount,
    caller: String,
    request: RevokeServiceAccountRequest,
    subject: Seq<char>,
    bytes: Seq<u8>,
    claim: CommandClaim,
    decoded: RevokeServiceAccountResponse,
) where E: FnOnce(&RevokeServiceAccountResponse) -> Result<Vec<u8>, serde_json::Error>
    requires
        command@ == revocation_key(caller@, request.idempotency_key@),
        completable(t, command@),
        t.commands[command@].intent_hash == sha256_digest(bytes),
        result.0@ == account_row(after_revocation(t, revocation, now), revocation.service_account_id@),
        seals_revocation(
            active.receipt_cipher.key(),
            receipt_binding(command@),
            result.0@,
            result.1,
            encode,
            Ok((nonce, ciphertext)),
        ),
        (Revoke::Update { command, revocation }).steps_to(
            active,
            RevokeEvent::Updated(Ok(Mutation::Updated(result))),
            Revoke::Done(Ok(first)),
        ),
        spares(history, at),
        is_authorized_revoke(states, events, active, caller, request, subject, bytes),
        events.len() == 7,
        events[5] == RevokeEvent::Entry(EntryEvent::Admission(AdmissionEvent::Claimed(claim))),
        claim_outcome(
            replay(
                after_success(after_revocation(t, revocation, now), command@, nonce@, ciphertext@, at),
                history,
            ),
            command@,
            sha256_digest(bytes),
        ) == Some(claim@),
        events[6] == RevokeEvent::ReceiptDecoded(Ok(decoded)),
        states[6] matches Revoke::DecodeReceipt { receipt } ==> reads_back(
            encode,
            receipt@,
            decoded,
        ),
    ensures
        ({
            let later = replay(
                after_success(after_revocation(t, revocation, now), command@, nonce@, ciphertext@, at),
                history,
            );
            forall|claimed_at: int| #[trigger]
                after_claim(later, command@, sha256_digest(bytes), claimed_at) == later
        }),
        forall|i: int| 0 <= i < 8 ==> !((#[trigger] states[i]) is Update),
        states[7] matches Revoke::Done(Ok(second)) && same_account(second.account, first.account)
            && !second.revoked,
{
    let binding = receipt_binding(command@);
    let done = after_success(after_revocation(t, revocation, now), command@, nonce@, ciphertext@, at);
    let later = replay(done, history);
    completed_commands_last(done, history, command@, at);
    reveal_strlit("completed_success");
    reveal_strlit("completed_error");
    assert("completed_error"@.len() != "completed_success"@.len());
    assert(claim@ == ClaimView::CompletedSuccess { nonce: nonce@, ciphertext: ciphertext@ });
    lemma_revoke_reaches_its_claim(states, events, active, caller, request, subject, bytes, 0);
    lemma_revoke_reaches_its_claim(states, events, active, caller, request, subject, bytes, 1);
    lemma_revoke_reaches_its_claim(states, events, active, caller, request, subject, bytes, 2);
    lemma_revoke_reaches_its_claim(states, events, active, caller, request, subject, bytes, 3);
    lemma_revoke_reaches_its_claim(states, events, active, caller, request, subject, bytes, 4);
    lemma_revoke_reaches_its_claim(states, events, active, caller, request, subject, bytes, 5);
    assert(states[5].steps_to(active, events[5], states[6]));
    assert(states[6].steps_to(active, events[6], states[7]));
    let response = choose|response: RevokeServiceAccountResponse|
        is_revocation_receipt(response, result.0@, result.1) && #[trigger] seals(
            active.receipt_cipher.key(),
            binding,
            &response,
            encode,
            Ok((nonce, ciphertext)),
        );
    let written = choose|written: Vec<u8>|
        {
            &&& #[trigger] call_ensures(
                encode,
                (&response,),
                Ok::<_, serde_json::Error>(written),
            )
            &&& opened_receipt(active.receipt_cipher.key(), nonce@, ciphertext@, binding) == Some(
                written@,
            )
        };
    assert(states[6] matches Revoke::DecodeReceipt { receipt } && receipt@ == written@);
    assert(decoded == response);
    one_row_has_one_summary(decoded.account, first.account, result.0@);
}

/// A revocation under a key that was used with another intent, be it by another
/// user or for another request, is a conflict: nothing is shown of the earlier
/// call and nothing is done. Intents are told apart by their hashes.
pub proof fn a_revocation_with_another_intent_is_a_conflict(
    t: TablesView,
    states: Seq<Revoke>,
    events: Seq<RevokeEvent>,
    active: ActiveServiceAccount,
    caller: String,
    request: RevokeServiceAccountRequest,
    subject: Seq<char>,
    bytes: Seq<u8>,
    earlier: Seq<u8>,
    claim: CommandClaim,
)
    requires
        ({
            let key = revocation_key(caller@, request.idempotency_key@);
            &&& t.commands.dom().contains(key)
            &&& t.commands[key].intent_hash == sha256_digest(earlier)
            &&& claim_outcome(t, key, sha256_digest(bytes)) == Some(claim@)
        }),
        sha256_digest(bytes) != sha256_digest(earlier),
        is_authorized_revoke(states, events, active, caller, request, subject, bytes),
        events.len() == 6,
        events[5] == RevokeEvent::Entry(EntryEvent::Admission(AdmissionEvent::Claimed(claim))),
    ensures
        states[6] == Revoke::Done(Err(RevokeServiceAccountError::IdempotencyConflict)),
        forall|claimed_at: int| #[trigger]
            after_claim(
                t,
                revocation_key(caller@, request.idempotency_key@),
                sha256_digest(bytes),
                claimed_at,
            ) == t,
{
    lemma_revoke_reaches_its_claim(states, events, active, caller, request, subject, bytes, 5);
    assert(states[5].steps_to(active, events[5], states[6]));
}

/// A revocation that was refused is refused alike when it is repeated, whatever
/// happened meanwhile, until the record of the refusal is old enough to be
/// pruned. The repeat is the same request by the same caller and user,
/// authorized again. The claim changes nothing and nothing else is tried.
pub proof fn a_refused_revocation_is_answered_alike(
    t: TablesView,
    state: Revoke,
    event: RevokeEvent,
    command: CommandKey,
    code: String,
    error: RevokeServiceAccountError,
    first: Revoke,
    at: int,
    history: Seq<Transaction>,
    states: Seq<Revoke>,
    events: Seq<RevokeEvent>,
    active: ActiveServiceAccount,
    caller: String,
    request: RevokeServiceAccountRequest,
    subject: Seq<char>,
    bytes: Seq<u8>,
    claim: CommandClaim,
)
    requires
        command@ == revocation_key(caller@, request.idempotency_key@),
        completable(t, command@),
        t.commands[command@].intent_hash == sha256_digest(bytes),
        state.steps_to(active, event, Revoke::RecordError { command, code, error }),
        (Revoke::RecordError { command, code, error }).steps_to(active, RevokeEvent::Recorded, first),
        spares(history, at),
        is_authorized_revoke(states, events, active, caller, request, subject, bytes),
        events.len() == 6,
        events[5] == RevokeEvent::Entry(EntryEvent::Admission(AdmissionEvent::Claimed(claim))),
        claim_outcome(
            replay(after_error(t, command@, code@, at), history),
            command@,
            sha256_digest(bytes),
        ) == Some(claim@),
    ensures
        ({
            let later = replay(after_error(t, command@, code@, at), history);
            forall|claimed_at: int| #[trigger]
                after_claim(later, command@, sha256_digest(bytes), claimed_at) == later
        }),
        first == Revoke::Done(Err(error)),
        forall|i: int| 0 <= i < 6 ==> (#[trigger] states[i]) is Enter,
        states[6] == first,
{
    completed_commands_last(after_error(t, command@, code@, at), history, command@, at);
    recorded_revocation_errors_are_read_back(state, active, event, command, code, error);
    reveal_strlit("completed_success");
    reveal_strlit("completed_error");
    assert("completed_error"@.len() != "completed_success"@.len());
    assert(claim@ == ClaimView::CompletedError(code@));
    assert forall|i: int| 0 <= i < 6 implies (#[trigger] states[i]) is Enter by {
        lemma_revoke_reaches_its_claim(states, events, active, caller, request, subject, bytes, i);
    }
    lemma_revoke_reaches_its_claim(states, events, active, caller, request, subject, bytes, 5);
    assert(states[5].steps_to(active, events[5], states[6]));
}

/// A revocation that was started and not completed is not started again: the
/// repeated call is answered that the operation is in progress, whatever happened
/// meanwhile, and changes nothing.
pub proof fn a_revocation_in_progress_is_not_started_again(
    t: TablesView,
    history: Seq<Transaction>,
    states: Seq<Revoke>,
    events: Seq<RevokeEvent>,
    active: ActiveServiceAccount,
    caller: String,
    request: RevokeServiceAccountRequest,
    subject: Seq<char>,
    bytes: Seq<u8>,
    claim: CommandClaim,
)
    requires
        ({
            let key = revocation_key(caller@, request.idempotency_key@);
            &&& completable(t, key)
            &&& t.commands[key].completed_at is None
            &&& t.commands[key].intent_hash == sha256_digest(bytes)
            &&& leaves_open(history, key)
            &&& claim_outcome(replay(t, history), key, sha256_digest(bytes)) == Some(claim@)
        }),
        is_authorized_revoke(states, events, active, caller, request, subject, bytes),
        events.len() == 6,
        events[5] == RevokeEvent::Entry(EntryEvent::Admission(AdmissionEvent::Claimed(claim))),
    ensures
        ({
            let key = revocation_key(caller@, request.idempotency_key@);
            let later = replay(t, history);
            forall|claimed_at: int| #[trigger]
                after_claim(later, key, sha256_digest(bytes), claimed_at) == later
        }),
        forall|i: int| 0 <= i < 6 ==> (#[trigger] states[i]) is Enter,
        states[6] == Revoke::Done(Err(RevokeServiceAccountError::OperationInProgress)),
{
    unfinished_commands_stay_in_progress(
        t,
        history,
        revocation_key(caller@, request.idempotency_key@),
    );
    assert forall|i: int| 0 <= i < 6 implies (#[trigger] states[i]) is Enter by {
        lemma_revoke_reaches_its_claim(states, events, active, caller, request, subject, bytes, i);
    }
    lemma_revoke_reaches_its_claim(states, events, active, caller, request, subject, bytes, 5);
    assert(states[5].steps_to(active, events[5], states[6]));
}

} // verus!
