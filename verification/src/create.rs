//! Creating a service account.

use vstd::prelude::*;
use vstd::string::*;

use crate::admission::{
    reads_back, receipt_binding, seal_receipt, seals, AdmissionEvent, Refusal,
};
use crate::config::lists;
use crate::contract::{
    CreateServiceAccountError, CreateServiceAccountRequest, CreateServiceAccountResponse, Nullable,
    CREATE_OPERATION,
};
use crate::crypto::{
    is_salted_verifier, named_credential, opened_receipt, pepper_too_long, secret_bytes,
    secret_verifies, sha256_digest, CredentialSecret, ReceiptCipher,
};
use crate::entry::{an_authorized_call_goes_on, goes_through, stands, Entry, EntryEvent};
use crate::error::{CryptoError, Failure, ServiceAccountPluginError};
use crate::history::{
    completed_commands_last, leaves_open, replay, spares, unfinished_commands_stay_in_progress,
    well_keyed, Transaction,
};
use crate::instant::{after_seconds, calendar_instant, later, now_utc};
use crate::lifecycle::ActiveServiceAccount;
use crate::management::{
    create_error, create_error_of, create_refusal, is_random_id, map_create_authorization,
    one_row_has_one_summary, random_id, same_account, summarizes, summary, unsummarizable,
    valid_idempotency_key,
};
use crate::rows::{
    AccountRow, AccountRowView, ClaimView, CommandClaim, CommandKey, CommandKeyView,
};
use crate::storage::{
    account_row, after_claim, after_creation, after_error, after_success, claim_outcome,
    completable, creation_obstacle, NewAccount, ORGANIZATION_NAME_UNIQUE, Obstacle, SUBJECT_UNIQUE,
    StoreError, Tables, TablesView,
};
use crate::text::{
    is_display_name, is_token, lowercase, same_text, to_lowercase, trim, trimmed, valid_name,
    valid_token,
};

verus! {

/// Where the creation of an account stands. All states but the last two ask for
/// outside work.
pub enum Create {
    /// Authorize the caller and admit the command.
    Enter { request: CreateServiceAccountRequest, entry: Entry },
    /// Deserialize the answer from the receipt.
    DecodeReceipt { receipt: Vec<u8> },
    /// Have Identity Directory ensure a subject for `external_subject`.
    EnsureIdentity {
        command: CommandKey,
        request: CreateServiceAccountRequest,
        service_account_id: String,
        provider: String,
        external_subject: String,
    },
    /// Run `commit_creation` on the tables.
    Insert {
        command: CommandKey,
        account: NewAccount,
        max_accounts: u32,
        secret: CredentialSecret,
    },
    /// Complete the command with the error code.
    RecordError { command: CommandKey, code: String, error: CreateServiceAccountError },
    Done(Result<CreateServiceAccountResponse, CreateServiceAccountError>),
    Failed(Failure),
}

/// Outside work that was done.
pub enum CreateEvent {
    Entry(EntryEvent),
    ReceiptDecoded(Result<CreateServiceAccountResponse, serde_json::Error>),
    IdentityEnsured(IdentityReply),
    Inserted(Result<Option<AccountRow>, StoreError>),
    Recorded,
}

/// What Identity Directory answered.
pub enum IdentityReply {
    Subject(String),
    Rejected,
    Failed,
}

/// The request is well formed.
pub open spec fn valid_creation(request: CreateServiceAccountRequest) -> bool {
    &&& is_token(request.idempotency_key@, 128)
    &&& is_token(request.organization_id@, 256)
    &&& is_display_name(trimmed(request.name@))
}

/// How an account is named towards Identity Directory.
pub open spec fn directory_name(
    organization_id: Seq<char>,
    service_account_id: Seq<char>,
) -> Seq<char> {
    organization_id + ":"@ + service_account_id
}

/// What is stored as the answer of a creation: the account, without its secret.
pub open spec fn is_creation_receipt(
    response: CreateServiceAccountResponse,
    row: AccountRowView,
) -> bool {
    &&& summarizes(response.account, row)
    &&& response.created
    &&& response.secret.0 is None
}

/// `sealed` is the receipt of a creation, or why there is none.
pub open spec fn seals_creation<E>(
    key: Seq<u8>,
    binding: Seq<u8>,
    row: AccountRowView,
    encode: E,
    sealed: Result<(Vec<u8>, Vec<u8>), ServiceAccountPluginError>,
) -> bool where
    E: FnOnce(&CreateServiceAccountResponse) -> Result<Vec<u8>, serde_json::Error>,
 {
    ||| exists|response: CreateServiceAccountResponse|
        is_creation_receipt(response, row) && #[trigger] seals(
            key,
            binding,
            &response,
            encode,
            sealed,
        )
    ||| sealed matches Err(error) && unsummarizable(error, row)
}

/// What a creation answers and leaves behind, and when.
pub open spec fn commits_creation<E>(
    before: TablesView,
    after: TablesView,
    cipher_key: Seq<u8>,
    command: CommandKeyView,
    account: NewAccount,
    max_accounts: int,
    at: int,
    encode: E,
    r: Result<Option<AccountRow>, StoreError>,
) -> bool where
    E: FnOnce(&CreateServiceAccountResponse) -> Result<Vec<u8>, serde_json::Error>,
 {
    let created = after_creation(before, account, at);
    let row_view = account_row(created, account.service_account_id@);
    let binding = receipt_binding(command);
    match (creation_obstacle(before, account, max_accounts), r) {
        (Some(Obstacle::LimitReached), r) => {
            &&& r matches Ok(None)
            &&& after == before
        },
        (Some(Obstacle::Taken(name)), r) => {
            &&& r matches Err(StoreError::Unique(constraint)) && constraint@ == name
            &&& after == before
        },
        (None, Ok(Some(row))) => {
            &&& row@ == row_view
            &&& completable(before, command)
            &&& exists|nonce: Vec<u8>, ciphertext: Vec<u8>|
                {
                    &&& #[trigger] seals_creation(
                        cipher_key,
                        binding,
                        row_view,
                        encode,
                        Ok((nonce, ciphertext)),
                    )
                    &&& after == after_success(
                        created,
                        command,
                        nonce@,
                        ciphertext@,
                        at,
                    )
                }
        },
        (None, Err(StoreError::Plugin(error))) => {
            &&& after == before
            &&& {
                ||| seals_creation(cipher_key, binding, row_view, encode, Err(error))
                ||| error.says("service-account command was not completable"@) && !completable(
                    before,
                    command,
                )
            }
        },
        _ => false,
    }
}

/// Creates the account in the tables, with a receipt that `encode` serializes.
/// The new rows come after those that were there.
pub fn commit_creation<E>(
    tables: &mut Tables,
    cipher: &ReceiptCipher,
    command: &CommandKey,
    account: &NewAccount,
    max_accounts: u32,
    at: i128,
    encode: E,
) -> (r: Result<Option<AccountRow>, StoreError>) where
    E: FnOnce(&CreateServiceAccountResponse) -> Result<Vec<u8>, serde_json::Error>,

    requires
        old(tables).well_formed(),
        forall|response: &CreateServiceAccountResponse| call_requires(encode, (response,)),
    ensures
        final(tables).well_formed(),
        old(tables).accounts@.is_prefix_of(final(tables).accounts@),
        old(tables).credentials@.is_prefix_of(final(tables).credentials@),
        commits_creation(
            old(tables)@,
            final(tables)@,
            cipher.key(),
            command@,
            *account,
            max_accounts as int,
            at as int,
            encode,
            r,
        ),
{
    let receipt = |row: &AccountRow| -> (sealed: Result<
        (Vec<u8>, Vec<u8>),
        ServiceAccountPluginError,
    >)
        ensures
            seals_creation(cipher.key(), receipt_binding(command@), row@, encode, sealed),
        {
            match summary(row) {
                Err(error) => Err(error),
                Ok(account) => {
                    let response = CreateServiceAccountResponse {
                        account,
                        created: true,
                        secret: Nullable(None),
                    };
                    assert(is_creation_receipt(response, row@));
                    seal_receipt(cipher, command, &response, encode)
                },
            }
        };
    tables.create_account(command, max_accounts, account, at, receipt)
}

impl Create {
    /// The creation asks for a subject, under a new account identifier.
    pub open spec fn ensures_identity(
        self,
        provider: String,
        command: CommandKey,
        request: CreateServiceAccountRequest,
        service_account_id: Seq<char>,
    ) -> bool {
        &&& self matches Create::EnsureIdentity {
            command: own_command,
            request: own_request,
            service_account_id: id,
            provider: asked,
            external_subject,
        }
        &&& own_command == command
        &&& own_request == request
        &&& id@ == service_account_id
        &&& asked == provider
        &&& external_subject@ == directory_name(request.organization_id@, service_account_id)
    }

    /// Asks for a subject, for an account with the given identifier.
    pub fn ensure_identity(
        active: &ActiveServiceAccount,
        command: CommandKey,
        request: CreateServiceAccountRequest,
        service_account_id: String,
    ) -> (r: Create)
        ensures
            r.ensures_identity(
                active.config.directory_provider,
                command,
                request,
                service_account_id@,
            ),
    {
        let mut external_subject: String = request.organization_id.clone();
        external_subject.append(":");
        external_subject.append(service_account_id.as_str());
        Create::EnsureIdentity {
            command,
            request,
            service_account_id,
            provider: active.config.directory_provider.clone(),
            external_subject,
        }
    }

    /// The creation, given where its entry stands.
    pub open spec fn follows_entry(
        self,
        active: ActiveServiceAccount,
        request: CreateServiceAccountRequest,
        entry: Entry,
    ) -> bool {
        match entry {
            Entry::Admitted { command } => {
                ||| exists|id: Seq<char>|
                    is_random_id(id, "sa_"@) && #[trigger] self.ensures_identity(
                        active.config.directory_provider,
                        command,
                        request,
                        id,
                    )
                ||| self matches Create::Failed(
                    Failure::Plugin(ServiceAccountPluginError::Random(_)),
                )
            },
            Entry::Replayed { receipt } => self == Create::DecodeReceipt { receipt },
            Entry::Refused(Refusal::Recorded(code)) => match create_error_of(code@) {
                Some(error) => self == Create::Done(Err(error)),
                None => {
                    &&& self matches Create::Failed(Failure::Plugin(error))
                    &&& error.says("unknown create receipt error"@)
                },
            },
            Entry::Refused(Refusal::Conflict) => self == Create::Done(
                Err(CreateServiceAccountError::IdempotencyConflict),
            ),
            Entry::Refused(Refusal::InProgress) => self == Create::Done(
                Err(CreateServiceAccountError::OperationInProgress),
            ),
            Entry::Denied(error) => match create_refusal(error) {
                Ok(error) => self == Create::Done(Err(error)),
                Err(failure) => self == Create::Failed(failure),
            },
            Entry::Failed(failure) => self == Create::Failed(failure),
            entry => self == Create::Enter { request, entry },
        }
    }

    fn from_entry(
        active: &ActiveServiceAccount,
        request: CreateServiceAccountRequest,
        entry: Entry,
    ) -> (r: Create)
        ensures
            r.follows_entry(*active, request, entry),
    {
        match entry {
            Entry::Admitted { command } => match random_id("sa_") {
                Ok(id) => Create::ensure_identity(active, command, request, id),
                Err(error) => Create::Failed(Failure::Plugin(error)),
            },
            Entry::Replayed { receipt } => Create::DecodeReceipt { receipt },
            Entry::Refused(Refusal::Recorded(code)) => match create_error(code.as_str()) {
                Ok(error) => Create::Done(Err(error)),
                Err(error) => Create::Failed(Failure::Plugin(error)),
            },
            Entry::Refused(Refusal::Conflict) => Create::Done(
                Err(CreateServiceAccountError::IdempotencyConflict),
            ),
            Entry::Refused(Refusal::InProgress) => Create::Done(
                Err(CreateServiceAccountError::OperationInProgress),
            ),
            Entry::Denied(error) => match map_create_authorization(error) {
                Ok(error) => Create::Done(Err(error)),
                Err(failure) => Create::Failed(failure),
            },
            Entry::Failed(failure) => Create::Failed(failure),
            entry => Create::Enter { request, entry },
        }
    }

    /// The start of a creation.
    pub open spec fn is_start(
        self,
        active: ActiveServiceAccount,
        caller: Option<String>,
        request: CreateServiceAccountRequest,
    ) -> bool {
        if valid_creation(request) {
            exists|entry: Entry| #[trigger]
                entry.is_start(
                    active.config,
                    caller,
                    CREATE_OPERATION@,
                    request.organization_id@,
                    request.idempotency_key@,
                ) && self.follows_entry(active, request, entry)
        } else {
            self == Create::Done(Err(CreateServiceAccountError::InvalidRequest))
        }
    }

    pub fn start(
        active: &ActiveServiceAccount,
        caller: Option<String>,
        request: CreateServiceAccountRequest,
    ) -> (r: Create)
        ensures
            r.is_start(*active, caller, request),
    {
        if !valid_idempotency_key(request.idempotency_key.as_str()) || !valid_token(
            request.organization_id.as_str(),
            256,
        ) || !valid_name(request.name.as_str()) {
            return Create::Done(Err(CreateServiceAccountError::InvalidRequest));
        }
        let entry: Entry = Entry::start(
            &active.config,
            caller,
            CREATE_OPERATION,
            request.organization_id.as_str(),
            request.idempotency_key.as_str(),
        );
        Create::from_entry(active, request, entry)
    }

    /// The creation asks for the account to be inserted, with a secret made at
    /// `now`.
    pub open spec fn inserts(
        self,
        active: ActiveServiceAccount,
        command: CommandKey,
        request: CreateServiceAccountRequest,
        service_account_id: String,
        subject: String,
        secret: CredentialSecret,
        verifier_text: String,
        now: int,
    ) -> bool {
        &&& self matches Create::Insert { command: own, account, max_accounts, secret: kept }
        &&& own == command
        &&& kept == secret
        &&& account.service_account_id == service_account_id
        &&& account.organization_id == request.organization_id
        &&& account.subject == subject
        &&& account.name@ == trimmed(request.name@)
        &&& account.name_key@ == lowercase(trimmed(request.name@))
        &&& account.credential_id == secret.credential_id
        &&& account.verifier == verifier_text
        &&& account.valid_from == now
        &&& account.valid_until == after_seconds(now, active.config.credential_ttl_seconds as int)
        &&& max_accounts == active.config.max_accounts_per_organization
    }

    /// Asks for the account to be inserted with the given secret at `now`.
    pub fn insertion(
        active: &ActiveServiceAccount,
        command: CommandKey,
        request: CreateServiceAccountRequest,
        service_account_id: String,
        subject: String,
        secret: CredentialSecret,
        verifier_text: String,
        now: i128,
    ) -> (r: Create)
        requires
            calendar_instant(now as int),
        ensures
            r.inserts(
                *active,
                command,
                request,
                service_account_id,
                subject,
                secret,
                verifier_text,
                now as int,
            ),
    {
        let name: String = trim(request.name.as_str());
        let name_key: String = to_lowercase(name.as_str());
        let credential_id: String = secret.credential_id.clone();
        Create::Insert {
            command,
            account: NewAccount {
                service_account_id,
                organization_id: request.organization_id,
                subject,
                name,
                name_key,
                credential_id,
                verifier: verifier_text,
                valid_from: now,
                valid_until: later(now, active.config.credential_ttl_seconds),
            },
            max_accounts: active.config.max_accounts_per_organization,
            secret,
        }
    }

    /// The creation asks for an error to be recorded.
    pub open spec fn records(
        self,
        command: CommandKey,
        code: Seq<char>,
        error: CreateServiceAccountError,
    ) -> bool {
        &&& self matches Create::RecordError { command: own, code: text, error: answer }
        &&& own == command
        &&& text@ == code
        &&& answer == error
    }

    fn recording(command: CommandKey, code: &str, error: CreateServiceAccountError) -> (r: Create)
        ensures
            r.records(command, code@, error),
    {
        Create::RecordError { command, code: code.to_string(), error }
    }

    /// `next` is where the creation goes on after `event`.
    pub open spec fn steps_to(
        self,
        active: ActiveServiceAccount,
        event: CreateEvent,
        next: Create,
    ) -> bool {
        match (self, event) {
            (Create::Enter { request, entry }, CreateEvent::Entry(event)) => exists|pending: Entry|
             #[trigger]
                entry.steps_to(active.receipt_cipher, event, pending) && next.follows_entry(
                    active,
                    request,
                    pending,
                ),
            (Create::DecodeReceipt { receipt }, CreateEvent::ReceiptDecoded(decoded)) => {
                match decoded {
                    Ok(response) => next == Create::Done(
                        Ok(
                            CreateServiceAccountResponse {
                                account: response.account,
                                created: false,
                                secret: Nullable(None),
                            },
                        ),
                    ),
                    Err(error) => next == Create::Failed(
                        Failure::Plugin(
                            ServiceAccountPluginError::Crypto(CryptoError::Deserialize(error)),
                        ),
                    ),
                }
            },
            (
                Create::EnsureIdentity {
                    command,
                    request,
                    service_account_id,
                    provider,
                    external_subject,
                },
                CreateEvent::IdentityEnsured(reply),
            ) => match reply {
                IdentityReply::Subject(subject) => if is_token(subject@, 256) {
                    ||| exists|secret: CredentialSecret, verifier_text: String, now: int|
                        {
                            &&& #[trigger] next.inserts(
                                active,
                                command,
                                request,
                                service_account_id,
                                subject,
                                secret,
                                verifier_text,
                                now,
                            )
                            &&& calendar_instant(now)
                            &&& secret.has_full_length()
                            &&& named_credential(secret.raw()) == Some(secret.credential_id@)
                            &&& is_salted_verifier(
                                secret.raw(),
                                secret_bytes(active.pepper),
                                verifier_text@,
                            )
                            &&& secret_verifies(
                                secret.raw(),
                                secret_bytes(active.pepper),
                                verifier_text@,
                            )
                        }
                    ||| {
                        &&& next matches Create::Failed(
                            Failure::Plugin(ServiceAccountPluginError::Crypto(error)),
                        )
                        &&& error is Random || error is PasswordHash && pepper_too_long(
                            secret_bytes(active.pepper),
                        )
                    }
                } else {
                    next.records(
                        command,
                        "directory_rejected"@,
                        CreateServiceAccountError::DirectoryRejected,
                    )
                },
                IdentityReply::Rejected => next.records(
                    command,
                    "directory_rejected"@,
                    CreateServiceAccountError::DirectoryRejected,
                ),
                IdentityReply::Failed => next == Create::Failed(Failure::Relayed),
            },
            (
                Create::Insert { command, account, max_accounts, secret },
                CreateEvent::Inserted(outcome),
            ) => match outcome {
                Ok(Some(row)) => match next {
                    Create::Done(Ok(response)) => {
                        &&& summarizes(response.account, row@)
                        &&& response.created
                        &&& response.secret.0 matches Some(text) && text@ == secret.raw()
                    },
                    Create::Failed(Failure::Plugin(error)) => unsummarizable(error, row@),
                    _ => false,
                },
                Ok(None) => next.records(
                    command,
                    "too_many_service_accounts"@,
                    CreateServiceAccountError::TooManyServiceAccounts,
                ),
                Err(StoreError::Unique(constraint)) => if constraint@
                    == ORGANIZATION_NAME_UNIQUE@ {
                    next.records(
                        command,
                        "name_conflict"@,
                        CreateServiceAccountError::NameConflict,
                    )
                } else if constraint@ == SUBJECT_UNIQUE@ {
                    next.records(
                        command,
                        "directory_rejected"@,
                        CreateServiceAccountError::DirectoryRejected,
                    )
                } else {
                    next == Create::Failed(Failure::Constraint(constraint))
                },
                Err(StoreError::Plugin(error)) => next == Create::Failed(Failure::Plugin(error)),
            },
            (Create::RecordError { command, code, error }, CreateEvent::Recorded) => next
                == Create::Done(Err(error)),
            _ => next == Create::Failed(Failure::UnexpectedReply),
        }
    }

    /// Goes on after `event`.
    pub fn resume(self, active: &ActiveServiceAccount, event: CreateEvent) -> (next: Create)
        ensures
            self.steps_to(*active, event, next),
    {
        match (self, event) {
            (Create::Enter { request, entry }, CreateEvent::Entry(event)) => Create::from_entry(
                active,
                request,
                entry.resume(&active.receipt_cipher, event),
            ),
            (Create::DecodeReceipt { receipt: _ }, CreateEvent::ReceiptDecoded(decoded)) => {
                match decoded {
                    Ok(response) => Create::Done(
                        Ok(
                            CreateServiceAccountResponse {
                                account: response.account,
                                created: false,
                                secret: Nullable(None),
                            },
                        ),
                    ),
                    Err(error) => Create::Failed(
                        Failure::Plugin(
                            ServiceAccountPluginError::Crypto(CryptoError::Deserialize(error)),
                        ),
                    ),
                }
            },
            (
                Create::EnsureIdentity {
                    command,
                    request,
                    service_account_id,
                    provider: _,
                    external_subject: _,
                },
                CreateEvent::IdentityEnsured(reply),
            ) => match reply {
                IdentityReply::Subject(subject) => {
                    if !valid_token(subject.as_str(), 256) {
                        return Create::recording(
                            command,
                            "directory_rejected",
                            CreateServiceAccountError::DirectoryRejected,
                        );
                    }
                    let secret: CredentialSecret = match CredentialSecret::generate() {
                        Ok(secret) => secret,
                        Err(error) => {
                            return Create::Failed(
                                Failure::Plugin(ServiceAccountPluginError::Crypto(error)),
                            );
                        },
                    };
                    let verifier_text: String = match secret.argon2id_verifier(
                        active.pepper.as_slice(),
                    ) {
                        Ok(text) => text,
                        Err(error) => {
                            return Create::Failed(
                                Failure::Plugin(ServiceAccountPluginError::Crypto(error)),
                            );
                        },
                    };
                    Create::insertion(
                        active,
                        command,
                        request,
                        service_account_id,
                        subject,
                        secret,
                        verifier_text,
                        now_utc(),
                    )
                },
                IdentityReply::Rejected => Create::recording(
                    command,
                    "directory_rejected",
                    CreateServiceAccountError::DirectoryRejected,
                ),
                IdentityReply::Failed => Create::Failed(Failure::Relayed),
            },
            (
                Create::Insert { command, account: _, max_accounts: _, secret },
                CreateEvent::Inserted(outcome),
            ) => match outcome {
                Ok(Some(row)) => match summary(&row) {
                    Ok(account) => Create::Done(
                        Ok(
                            CreateServiceAccountResponse {
                                account,
                                created: true,
                                secret: Nullable(Some(secret.expose())),
                            },
                        ),
                    ),
                    Err(error) => Create::Failed(Failure::Plugin(error)),
                },
                Ok(None) => Create::recording(
                    command,
                    "too_many_service_accounts",
                    CreateServiceAccountError::TooManyServiceAccounts,
                ),
                Err(StoreError::Unique(constraint)) => if same_text(
                    constraint.as_str(),
                    ORGANIZATION_NAME_UNIQUE,
                ) {
                    Create::recording(
                        command,
                        "name_conflict",
                        CreateServiceAccountError::NameConflict,
                    )
                } else if same_text(constraint.as_str(), SUBJECT_UNIQUE) {
                    Create::recording(
                        command,
                        "directory_rejected",
                        CreateServiceAccountError::DirectoryRejected,
                    )
                } else {
                    Create::Failed(Failure::Constraint(constraint))
                },
                Err(StoreError::Plugin(error)) => Create::Failed(Failure::Plugin(error)),
            },
            (Create::RecordError { command: _, code: _, error }, CreateEvent::Recorded) => {
                Create::Done(Err(error))
            },
            _ => Create::Failed(Failure::UnexpectedReply),
        }
    }
}

/// Every account that a creation asks to be inserted has the trimmed name of the
/// request and is keyed by it in lower case.
pub proof fn insertions_are_well_keyed(
    request: CreateServiceAccountRequest,
    command: CommandKey,
    service_account_id: String,
    provider: String,
    external_subject: String,
    active: ActiveServiceAccount,
    event: CreateEvent,
    own: CommandKey,
    account: NewAccount,
    max_accounts: u32,
    secret: CredentialSecret,
)
    requires
        (Create::EnsureIdentity {
            command,
            request,
            service_account_id,
            provider,
            external_subject,
        }).steps_to(active, event, Create::Insert { command: own, account, max_accounts, secret }),
    ensures
        account.name@ == trimmed(request.name@),
        well_keyed(account),
        account.organization_id == request.organization_id,
        secret.has_full_length(),
{
}

/// A name that is taken in its organization is answered as a conflict, and
/// recorded as one.
pub proof fn a_taken_name_is_a_conflict(
    command: CommandKey,
    account: NewAccount,
    max_accounts: u32,
    secret: CredentialSecret,
    active: ActiveServiceAccount,
    constraint: String,
    recording: Create,
    answered: Create,
)
    requires
        constraint@ == ORGANIZATION_NAME_UNIQUE@,
        (Create::Insert { command, account, max_accounts, secret }).steps_to(
            active,
            CreateEvent::Inserted(Err(StoreError::Unique(constraint))),
            recording,
        ),
        recording.steps_to(active, CreateEvent::Recorded, answered),
    ensures
        recording.records(command, "name_conflict"@, CreateServiceAccountError::NameConflict),
        answered == Create::Done(Err(CreateServiceAccountError::NameConflict)),
{
}

/// A secret is handed out only by the call that inserted the account: an answer
/// that carries one comes straight from the insertion, and says that the account
/// was created.
pub proof fn creation_shows_the_secret_once(
    state: Create,
    active: ActiveServiceAccount,
    event: CreateEvent,
    response: CreateServiceAccountResponse,
)
    requires
        state.steps_to(active, event, Create::Done(Ok(response))),
        response.secret.0 is Some,
    ensures
        response.created,
        state matches Create::Insert { secret, .. } && response.secret.0.unwrap()@ == secret.raw(),
        event matches CreateEvent::Inserted(Ok(Some(_))),
{
}

/// A replayed creation shows the same account, no secret, and that nothing was
/// created.
pub proof fn a_replayed_creation_shows_no_secret(
    receipt: Vec<u8>,
    active: ActiveServiceAccount,
    stored: CreateServiceAccountResponse,
    next: Create,
)
    requires
        (Create::DecodeReceipt { receipt }).steps_to(
            active,
            CreateEvent::ReceiptDecoded(Ok(stored)),
            next,
        ),
    ensures
        next matches Create::Done(Ok(response)) && response.account == stored.account
            && !response.created && response.secret.0 is None,
{
}

/// An error that a creation records is the error that a later call reads from
/// the record.
pub proof fn recorded_creation_errors_are_read_back(
    state: Create,
    active: ActiveServiceAccount,
    event: CreateEvent,
    command: CommandKey,
    code: String,
    error: CreateServiceAccountError,
)
    requires
        state.steps_to(active, event, Create::RecordError { command, code, error }),
    ensures
        create_error_of(code@) == Some(error),
{
    reveal_strlit("name_conflict");
    reveal_strlit("directory_rejected");
    reveal_strlit("too_many_service_accounts");
    assert("name_conflict"@.len() == 13);
    assert("directory_rejected"@.len() == 18);
    assert("too_many_service_accounts"@.len() == 25);
}

/// `states` is a run of a creation over `events`.
pub open spec fn is_create_run(
    states: Seq<Create>,
    events: Seq<CreateEvent>,
    active: ActiveServiceAccount,
    caller: Option<String>,
    request: CreateServiceAccountRequest,
) -> bool {
    &&& states.len() == events.len() + 1
    &&& states[0].is_start(active, caller, request)
    &&& forall|i: int|
        0 <= i < events.len() ==> (#[trigger] states[i]).steps_to(active, events[i], states[i + 1])
}

/// The run is that of a valid request by `caller`, who is on the allowlist, and
/// is authorized as `subject`; its intent is serialized as `bytes`.
pub open spec fn is_authorized_create(
    states: Seq<Create>,
    events: Seq<CreateEvent>,
    active: ActiveServiceAccount,
    caller: String,
    request: CreateServiceAccountRequest,
    subject: Seq<char>,
    bytes: Seq<u8>,
) -> bool {
    &&& is_create_run(states, events, active, Some(caller), request)
    &&& lists(active.config.management_callers@, caller@)
    &&& valid_creation(request)
    &&& is_token(subject, 256)
    &&& events.len() >= 5
    &&& forall|i: int|
        0 <= i < 5 ==> (#[trigger] events[i] matches CreateEvent::Entry(event) && goes_through(
            event,
            i,
            subject,
            bytes,
        ))
}

/// The command of a creation.
pub open spec fn creation_key(caller: Seq<char>, idempotency_key: Seq<char>) -> CommandKeyView {
    CommandKeyView { caller, operation: CREATE_OPERATION@, idempotency_key }
}

proof fn lemma_create_reaches_its_claim(
    states: Seq<Create>,
    events: Seq<CreateEvent>,
    active: ActiveServiceAccount,
    caller: String,
    request: CreateServiceAccountRequest,
    subject: Seq<char>,
    bytes: Seq<u8>,
    i: int,
)
    requires
        is_authorized_create(states, events, active, caller, request, subject, bytes),
        0 <= i <= 5,
    ensures
        states[i] matches Create::Enter { request: own, entry } && own == request && stands(
            entry,
            i,
            creation_key(caller@, request.idempotency_key@),
            subject,
            bytes,
        ),
    decreases i,
{
    let key = creation_key(caller@, request.idempotency_key@);
    if i > 0 {
        lemma_create_reaches_its_claim(
            states,
            events,
            active,
            caller,
            request,
            subject,
            bytes,
            i - 1,
        );
        assert(states[i - 1].steps_to(active, events[i - 1], states[i]));
        assert(events[i - 1] is Entry);
        let entry = states[i - 1]->Enter_entry;
        let event = events[i - 1]->Entry_0;
        assert forall|pending: Entry| #[trigger]
            entry.steps_to(active.receipt_cipher, event, pending) implies stands(
            pending,
            i,
            key,
            subject,
            bytes,
        ) by {
            an_authorized_call_goes_on(
                entry,
                active.receipt_cipher,
                event,
                pending,
                i - 1,
                key,
                subject,
                bytes,
            );
        }
    }
}

/// A creation that is repeated is answered from its receipt, whatever happened
/// meanwhile, until the receipt is old enough to be pruned. The repeat is the
/// same request by the same caller and user, authorized again, and what is read
/// of the receipt is what was written into it. The claim changes nothing,
/// no subject is asked for and nothing is inserted. The answer shows the same
/// account, also if it was changed meanwhile, no secret, and that nothing was
/// created.
pub proof fn a_repeated_creation_is_answered_alike<E>(
    t: TablesView,
    command: CommandKey,
    account: NewAccount,
    max_accounts: u32,
    secret: CredentialSecret,
    row: AccountRow,
    at: int,
    nonce: Vec<u8>,
    ciphertext: Vec<u8>,
    encode: E,
    first: CreateServiceAccountResponse,
    history: Seq<Transaction>,
    states: Seq<Create>,
    events: Seq<CreateEvent>,
    active: ActiveServiceAccount,
    caller: String,
    request: CreateServiceAccountRequest,
    subject: Seq<char>,
    bytes: Seq<u8>,
    claim: CommandClaim,
    decoded: CreateServiceAccountResponse,
) where E: FnOnce(&CreateServiceAccountResponse) -> Result<Vec<u8>, serde_json::Error>
    requires
        command@ == creation_key(caller@, request.idempotency_key@),
        completable(t, command@),
        t.commands[command@].intent_hash == sha256_digest(bytes),
        row@ == account_row(after_creation(t, account, at), account.service_account_id@),
        seals_creation(
            active.receipt_cipher.key(),
            receipt_binding(command@),
            row@,
            encode,
            Ok((nonce, ciphertext)),
        ),
        (Create::Insert { command, account, max_accounts, secret }).steps_to(
            active,
            CreateEvent::Inserted(Ok(Some(row))),
            Create::Done(Ok(first)),
        ),
        spares(history, at),
        is_authorized_create(states, events, active, caller, request, subject, bytes),
        events.len() == 7,
        events[5] == CreateEvent::Entry(EntryEvent::Admission(AdmissionEvent::Claimed(claim))),
        claim_outcome(
            replay(
                after_success(after_creation(t, account, at), command@, nonce@, ciphertext@, at),
                history,
            ),
            command@,
            sha256_digest(bytes),
        ) == Some(claim@),
        events[6] == CreateEvent::ReceiptDecoded(Ok(decoded)),
        states[6] matches Create::DecodeReceipt { receipt } ==> reads_back(
            encode,
            receipt@,
            decoded,
        ),
    ensures
        ({
            let later = replay(
                after_success(after_creation(t, account, at), command@, nonce@, ciphertext@, at),
                history,
            );
            forall|claimed_at: int| #[trigger]
                after_claim(later, command@, sha256_digest(bytes), claimed_at) == later
        }),
        forall|i: int| 0 <= i < 8 ==> !((#[trigger] states[i]) is EnsureIdentity || states[i] is Insert),
        states[7] matches Create::Done(Ok(second)) && same_account(second.account, first.account)
            && !second.created && second.secret.0 is None,
{
    let binding = receipt_binding(command@);
    let done = after_success(after_creation(t, account, at), command@, nonce@, ciphertext@, at);
    let later = replay(done, history);
    completed_commands_last(done, history, command@, at);
    reveal_strlit("completed_success");
    reveal_strlit("completed_error");
    assert("completed_error"@.len() != "completed_success"@.len());
    assert(claim@ == ClaimView::CompletedSuccess { nonce: nonce@, ciphertext: ciphertext@ });
    lemma_create_reaches_its_claim(states, events, active, caller, request, subject, bytes, 0);
    lemma_create_reaches_its_claim(states, events, active, caller, request, subject, bytes, 1);
    lemma_create_reaches_its_claim(states, events, active, caller, request, subject, bytes, 2);
    lemma_create_reaches_its_claim(states, events, active, caller, request, subject, bytes, 3);
    lemma_create_reaches_its_claim(states, events, active, caller, request, subject, bytes, 4);
    lemma_create_reaches_its_claim(states, events, active, caller, request, subject, bytes, 5);
    assert(states[5].steps_to(active, events[5], states[6]));
    assert(states[6].steps_to(active, events[6], states[7]));
    let response = choose|response: CreateServiceAccountResponse|
        is_creation_receipt(response, row@) && #[trigger] seals(
            active.receipt_cipher.key(),
            binding,
            &response,
            encode,
            Ok((nonce, ciphertext)),
        );
    let written = choose|written: Vec<u8>|
        {
            &&& #[trigger] call_ensures(
                encode,
                (&response,),
                Ok::<_, serde_json::Error>(written),
            )
            &&& opened_receipt(active.receipt_cipher.key(), nonce@, ciphertext@, binding) == Some(
                written@,
            )
        };
    assert(states[6] matches Create::DecodeReceipt { receipt } && receipt@ == written@);
    assert(decoded == response);
    one_row_has_one_summary(decoded.account, first.account, row@);
}

/// A creation under a key that was used with another intent, be it by another
/// user or for another request, is a conflict: nothing is shown of the earlier
/// call and nothing is done. Intents are told apart by their hashes.
pub proof fn a_creation_with_another_intent_is_a_conflict(
    t: TablesView,
    states: Seq<Create>,
    events: Seq<CreateEvent>,
    active: ActiveServiceAccount,
    caller: String,
    request: CreateServiceAccountRequest,
    subject: Seq<char>,
    bytes: Seq<u8>,
    earlier: Seq<u8>,
    claim: CommandClaim,
)
    requires
        ({
            let key = creation_key(caller@, request.idempotency_key@);
            &&& t.commands.dom().contains(key)
            &&& t.commands[key].intent_hash == sha256_digest(earlier)
            &&& claim_outcome(t, key, sha256_digest(bytes)) == Some(claim@)
        }),
        sha256_digest(bytes) != sha256_digest(earlier),
        is_authorized_create(states, events, active, caller, request, subject, bytes),
        events.len() == 6,
        events[5] == CreateEvent::Entry(EntryEvent::Admission(AdmissionEvent::Claimed(claim))),
    ensures
        states[6] == Create::Done(Err(CreateServiceAccountError::IdempotencyConflict)),
        forall|claimed_at: int| #[trigger]
            after_claim(
                t,
                creation_key(caller@, request.idempotency_key@),
                sha256_digest(bytes),
                claimed_at,
            ) == t,
{
    lemma_create_reaches_its_claim(states, events, active, caller, request, subject, bytes, 5);
    assert(states[5].steps_to(active, events[5], states[6]));
}

/// A creation that was refused is refused alike when it is repeated, whatever
/// happened meanwhile, until the record of the refusal is old enough to be
/// pruned. The repeat is the same request by the same caller and user,
/// authorized again. The claim changes nothing and nothing else is tried.
pub proof fn a_refused_creation_is_answered_alike(
    t: TablesView,
    state: Create,
    event: CreateEvent,
    command: CommandKey,
    code: String,
    error: CreateServiceAccountError,
    first: Create,
    at: int,
    history: Seq<Transaction>,
    states: Seq<Create>,
    events: Seq<CreateEvent>,
    active: ActiveServiceAccount,
    caller: String,
    request: CreateServiceAccountRequest,
    subject: Seq<char>,
    bytes: Seq<u8>,
    claim: CommandClaim,
)
    requires
        command@ == creation_key(caller@, request.idempotency_key@),
        completable(t, command@),
        t.commands[command@].intent_hash == sha256_digest(bytes),
        state.steps_to(active, event, Create::RecordError { command, code, error }),
        (Create::RecordError { command, code, error }).steps_to(active, CreateEvent::Recorded, first),
        spares(history, at),
        is_authorized_create(states, events, active, caller, request, subject, bytes),
        events.len() == 6,
        events[5] == CreateEvent::Entry(EntryEvent::Admission(AdmissionEvent::Claimed(claim))),
        claim_outcome(
            replay(after_error(t, command@, code@, at), history),
            command@,
            sha256_digest(bytes),
        ) == Some(claim@),
    ensures
        ({
            let later = replay(after_error(t, command@, code@, at), history);
            forall|claimed_at: int| #[trigger]
                after_claim(later, command@, sha256_digest(bytes), claimed_at) == later
        }),
        first == Create::Done(Err(error)),
        forall|i: int| 0 <= i < 6 ==> (#[trigger] states[i]) is Enter,
        states[6] == first,
{
    completed_commands_last(after_error(t, command@, code@, at), history, command@, at);
    recorded_creation_errors_are_read_back(state, active, event, command, code, error);
    reveal_strlit("completed_success");
    reveal_strlit("completed_error");
    assert("completed_error"@.len() != "completed_success"@.len());
    assert(claim@ == ClaimView::CompletedError(code@));
    assert forall|i: int| 0 <= i < 6 implies (#[trigger] states[i]) is Enter by {
        lemma_create_reaches_its_claim(states, events, active, caller, request, subject, bytes, i);
    }
    lemma_create_reaches_its_claim(states, events, active, caller, request, subject, bytes, 5);
    assert(states[5].steps_to(active, events[5], states[6]));
}

/// A creation that was started and not completed is not started again: the
/// repeated call is answered that the operation is in progress, whatever happened
/// meanwhile, and changes nothing.
pub proof fn a_creation_in_progress_is_not_started_again(
    t: TablesView,
    history: Seq<Transaction>,
    states: Seq<Create>,
    events: Seq<CreateEvent>,
    active: ActiveServiceAccount,
    caller: String,
    request: CreateServiceAccountRequest,
    subject: Seq<char>,
    bytes: Seq<u8>,
    claim: CommandClaim,
)
    requires
        ({
            let key = creation_key(caller@, request.idempotency_key@);
            &&& completable(t, key)
            &&& t.commands[key].completed_at is None
            &&& t.commands[key].intent_hash == sha256_digest(bytes)
            &&& leaves_open(history, key)
            &&& claim_outcome(replay(t, history), key, sha256_digest(bytes)) == Some(claim@)
        }),
        is_authorized_create(states, events, active, caller, request, subject, bytes),
        events.len() == 6,
        events[5] == CreateEvent::Entry(EntryEvent::Admission(AdmissionEvent::Claimed(claim))),
    ensures
        ({
            let key = creation_key(caller@, request.idempotency_key@);
            let later = replay(t, history);
            forall|claimed_at: int| #[trigger]
                after_claim(later, key, sha256_digest(bytes), claimed_at) == later
        }),
        forall|i: int| 0 <= i < 6 ==> (#[trigger] states[i]) is Enter,
        states[6] == Create::Done(Err(CreateServiceAccountError::OperationInProgress)),
{
    unfinished_commands_stay_in_progress(
        t,
        history,
        creation_key(caller@, request.idempotency_key@),
    );
    assert forall|i: int| 0 <= i < 6 implies (#[trigger] states[i]) is Enter by {
        lemma_create_reaches_its_claim(states, events, active, caller, request, subject, bytes, i);
    }
    lemma_create_reaches_its_claim(states, events, active, caller, request, subject, bytes, 5);
    assert(states[5].steps_to(active, events[5], states[6]));
}

} // verus!
