//! How a mutation is entered: the caller is authorized, then the command is
//! admitted.

use vstd::prelude::*;
use vstd::string::*;

use crate::admission::{Admission, AdmissionEvent, Refusal};
use crate::authorization::{
    Authorization, AuthorizationError, AuthorizationEvent, MembershipReply, PermissionReply,
    MANAGE_PERMISSION,
};
use crate::config::ServiceAccountConfig;
use crate::crypto::{sha256_digest, ReceiptCipher};
use crate::error::Failure;
use crate::rows::{CommandClaim, CommandKey, CommandKeyView};
use crate::storage::{claim_outcome, TablesView};
use crate::text::is_token;

verus! {

/// Where a mutation stands before it is carried out. The first two states ask
/// for outside work, the others are the outcome.
pub enum Entry {
    Authorize {
        operation: String,
        idempotency_key: String,
        retention_seconds: u64,
        authorization: Authorization,
    },
    Admit(Admission),
    /// The command is new and is to be carried out.
    Admitted { command: CommandKey },
    /// The command succeeded before; this is its receipt.
    Replayed { receipt: Vec<u8> },
    Refused(Refusal),
    Denied(AuthorizationError),
    Failed(Failure),
}

/// Outside work that was done.
pub enum EntryEvent {
    Authorization(AuthorizationEvent),
    Admission(AdmissionEvent),
}

impl Entry {
    /// The entry of a mutation, given where its authorization stands.
    pub open spec fn follows_authorization(
        self,
        operation: Seq<char>,
        idempotency_key: Seq<char>,
        retention_seconds: u64,
        authorization: Authorization,
    ) -> bool {
        match authorization {
            Authorization::Granted(authorized) => {
                &&& self matches Entry::Admit(admission)
                &&& admission.is_start(
                    CommandKeyView { caller: authorized.caller@, operation, idempotency_key },
                    Some(authorized.actor_subject),
                    retention_seconds,
                )
            },
            Authorization::Denied(error) => self == Entry::Denied(error),
            authorization => {
                &&& self matches Entry::Authorize {
                    operation: own_operation,
                    idempotency_key: own_key,
                    retention_seconds: own_seconds,
                    authorization: pending,
                }
                &&& own_operation@ == operation
                &&& own_key@ == idempotency_key
                &&& own_seconds == retention_seconds
                &&& pending == authorization
            },
        }
    }

    /// The entry of a mutation, given where its admission stands.
    pub open spec fn after_admission(admission: Admission) -> Entry {
        match admission {
            Admission::Admitted { command } => Entry::Admitted { command },
            Admission::Replayed { receipt } => Entry::Replayed { receipt },
            Admission::Refused(refusal) => Entry::Refused(refusal),
            Admission::Failed(failure) => Entry::Failed(failure),
            pending => Entry::Admit(pending),
        }
    }

    /// The start of a mutation of `organization_id`.
    pub open spec fn is_start(
        self,
        config: ServiceAccountConfig,
        caller: Option<String>,
        operation: Seq<char>,
        organization_id: Seq<char>,
        idempotency_key: Seq<char>,
    ) -> bool {
        exists|authorization: Authorization| #[trigger]
            authorization.is_start(
                config,
                caller,
                operation,
                organization_id,
                MANAGE_PERMISSION@,
            ) && self.follows_authorization(
                operation,
                idempotency_key,
                config.receipt_ttl_seconds,
                authorization,
            )
    }

    fn from_authorization(
        operation: String,
        idempotency_key: String,
        retention_seconds: u64,
        authorization: Authorization,
    ) -> (r: Entry)
        ensures
            r.follows_authorization(
                operation@,
                idempotency_key@,
                retention_seconds,
                authorization,
            ),
    {
        match authorization {
            Authorization::Granted(authorized) => Entry::Admit(
                Admission::start(
                    authorized.caller,
                    operation.as_str(),
                    idempotency_key.as_str(),
                    Some(authorized.actor_subject),
                    retention_seconds,
                ),
            ),
            Authorization::Denied(error) => Entry::Denied(error),
            authorization => Entry::Authorize {
                operation,
                idempotency_key,
                retention_seconds,
                authorization,
            },
        }
    }

    fn from_admission(admission: Admission) -> (r: Entry)
        ensures
            r == Entry::after_admission(admission),
    {
        match admission {
            Admission::Admitted { command } => Entry::Admitted { command },
            Admission::Replayed { receipt } => Entry::Replayed { receipt },
            Admission::Refused(refusal) => Entry::Refused(refusal),
            Admission::Failed(failure) => Entry::Failed(failure),
            pending => Entry::Admit(pending),
        }
    }

    pub fn start(
        config: &ServiceAccountConfig,
        caller: Option<String>,
        operation: &str,
        organization_id: &str,
        idempotency_key: &str,
    ) -> (r: Entry)
        ensures
            r.is_start(*config, caller, operation@, organization_id@, idempotency_key@),
    {
        let authorization: Authorization = Authorization::start(
            config,
            caller,
            operation,
            organization_id,
            MANAGE_PERMISSION,
        );
        Entry::from_authorization(
            operation.to_string(),
            idempotency_key.to_string(),
            config.receipt_ttl_seconds,
            authorization,
        )
    }

    /// `next` is where the mutation goes on after `event`.
    pub open spec fn steps_to(self, cipher: ReceiptCipher, event: EntryEvent, next: Entry) -> bool {
        match (self, event) {
            (
                Entry::Authorize { operation, idempotency_key, retention_seconds, authorization },
                EntryEvent::Authorization(event),
            ) => exists|pending: Authorization| #[trigger]
                authorization.steps_to(event, pending) && next.follows_authorization(
                    operation@,
                    idempotency_key@,
                    retention_seconds,
                    pending,
                ),
            (Entry::Admit(admission), EntryEvent::Admission(event)) => exists|pending: Admission|
             #[trigger]
                admission.steps_to(cipher, event, pending) && next == Entry::after_admission(pending),
            _ => next == Entry::Failed(Failure::UnexpectedReply),
        }
    }

    /// Goes on after `event`.
    pub fn resume(self, cipher: &ReceiptCipher, event: EntryEvent) -> (next: Entry)
        ensures
            self.steps_to(*cipher, event, next),
    {
        match (self, event) {
            (
                Entry::Authorize { operation, idempotency_key, retention_seconds, authorization },
                EntryEvent::Authorization(event),
            ) => Entry::from_authorization(
                operation,
                idempotency_key,
                retention_seconds,
                authorization.resume(event),
            ),
            (Entry::Admit(admission), EntryEvent::Admission(event)) => Entry::from_admission(
                admission.resume(cipher, event),
            ),
            _ => Entry::Failed(Failure::UnexpectedReply),
        }
    }
}

/// The i-th event of a call that is authorized as `subject`, up to its claim; its
/// intent is serialized as `bytes`.
pub open spec fn goes_through(event: EntryEvent, i: int, subject: Seq<char>, bytes: Seq<u8>) -> bool {
    match event {
        EntryEvent::Authorization(AuthorizationEvent::Actor(Some(actor))) => i == 0
            && actor.subject@ == subject,
        EntryEvent::Authorization(
            AuthorizationEvent::Membership(MembershipReply::Answer { active }),
        ) => i == 1 && active,
        EntryEvent::Authorization(
            AuthorizationEvent::Permission(PermissionReply::Answer { allowed }),
        ) => i == 2 && allowed,
        EntryEvent::Admission(AdmissionEvent::Pruned) => i == 3,
        EntryEvent::Admission(AdmissionEvent::IntentEncoded(Ok(encoded))) => i == 4 && encoded@
            == bytes,
        _ => false,
    }
}

/// Where such a call stands before its i-th event: what it asks for is asked for
/// its own command, and from the second event on for `subject`.
pub open spec fn stands(
    entry: Entry,
    i: int,
    command: CommandKeyView,
    subject: Seq<char>,
    bytes: Seq<u8>,
) -> bool {
    match entry {
        Entry::Authorize { operation, idempotency_key, authorization, .. } => {
            &&& operation@ == command.operation
            &&& idempotency_key@ == command.idempotency_key
            &&& match authorization {
                Authorization::ProjectActor { caller, .. } => i == 0 && caller@ == command.caller,
                Authorization::CheckMembership { caller, query, .. } => {
                    i == 1 && caller@ == command.caller && query.subject@ == subject
                },
                Authorization::CheckPermission { caller, request } => {
                    i == 2 && caller@ == command.caller && request.subject@ == subject
                },
                _ => false,
            }
        },
        Entry::Admit(Admission::Prune { command: own, actor, .. }) => i == 3 && own@ == command
            && actor.deep_view() == Some(subject),
        Entry::Admit(Admission::EncodeIntent { command: own, actor }) => i == 4 && own@ == command
            && actor.deep_view() == Some(subject),
        Entry::Admit(Admission::Claim { command: own, intent }) => i == 5 && own@ == command
            && intent@ == sha256_digest(bytes),
        _ => false,
    }
}

/// A call that is authorized goes on to the claim of its own command: the intent
/// is serialized for the acting user, and the claim is made with its hash.
pub proof fn an_authorized_call_goes_on(
    entry: Entry,
    cipher: ReceiptCipher,
    event: EntryEvent,
    next: Entry,
    i: int,
    command: CommandKeyView,
    subject: Seq<char>,
    bytes: Seq<u8>,
)
    requires
        stands(entry, i, command, subject, bytes),
        goes_through(event, i, subject, bytes),
        is_token(subject, 256),
        entry.steps_to(cipher, event, next),
    ensures
        stands(next, i + 1, command, subject, bytes),
{
}

/// A claim with another intent than the one that the command was started with is
/// refused as a conflict.
pub proof fn another_intent_is_refused(
    t: TablesView,
    command: CommandKey,
    intent: Vec<u8>,
    cipher: ReceiptCipher,
    claim: CommandClaim,
    next: Entry,
)
    requires
        t.commands.dom().contains(command@),
        t.commands[command@].intent_hash != intent@,
        claim_outcome(t, command@, intent@) == Some(claim@),
        Entry::Admit(Admission::Claim { command, intent }).steps_to(
            cipher,
            EntryEvent::Admission(AdmissionEvent::Claimed(claim)),
            next,
        ),
    ensures
        next == Entry::Refused(Refusal::Conflict),
{
}

} // verus!
