//! Who may call, and when a call is carried out.

use vstd::prelude::*;
use vstd::string::*;
use vstd::utf8::*;

use crate::admission::{command_aad, receipt_aad, Admission, AdmissionEvent, Refusal};
use crate::authorization::{
    Authorization, AuthorizationError, AuthorizationEvent, AuthorizedManagement, MembershipReply,
    PermissionReply, UnexpectedActorKind, UserActor,
};
use crate::config::{listed, ServiceAccountConfig};
use crate::crypto::{aes256_gcm_opened, sha256_digest, ReceiptCipher};
use crate::entry::{Entry, EntryEvent};
use crate::error::{CryptoError, Failure, ServiceAccountPluginError};
use crate::laws::{among, identifier, tells};
use crate::rows::{CommandClaim, CommandKey};

verus! {

/// An assertion speaks of a user exactly if it says so, and then of the subject
/// that it names.
pub proof fn only_assertions_about_users_name_users(
    actor_kind: &str,
    subject: &str,
    r: Result<UserActor, UnexpectedActorKind>,
)
    requires
        call_ensures(UserActor::from_assertion, (actor_kind, subject), r),
    ensures
        actor_kind@ == "user"@ ==> (r matches Ok(actor) && actor.subject@ == subject@),
        actor_kind@ != "user"@ ==> (r matches Err(error) && error.expected@ == "user"@
            && error.actual@ == actor_kind@),
{
}

/// A caller is on a list exactly if its name is, letter by letter.
pub proof fn callers_are_listed_exactly(values: &Vec<String>, value: &String, r: bool)
    requires
        call_ensures(listed, (values, value), r),
    ensures
        r == among(values@, value@),
{
}

/// A management call is looked at only if its caller is on the allowlist: then
/// the assertion of the acting user is verified for this very operation. Any
/// other caller is forbidden.
pub proof fn management_calls_start_with_their_caller(
    config: &ServiceAccountConfig,
    caller: Option<String>,
    operation: &str,
    organization_id: &str,
    permission: &str,
    r: Authorization,
)
    requires
        call_ensures(
            Authorization::start,
            (config, caller, operation, organization_id, permission),
            r,
        ),
    ensures
        caller is None ==> r == Authorization::Denied(AuthorizationError::Forbidden),
        caller matches Some(caller) ==> if among(config.management_callers@, caller@) {
            &&& r matches Authorization::ProjectActor { caller: own, capability_id, scope }
            &&& own == caller
            &&& capability_id@ == "lenso.service-account@1"@
            &&& scope.operation@ == operation@
            &&& scope.organization_id@ == organization_id@
            &&& scope.permission@ == permission@
        } else {
            r == Authorization::Denied(AuthorizationError::Forbidden)
        },
{
}

/// The acting user must be known by an identifier of at most 256 characters, and
/// is then looked up as a member of the organization.
pub proof fn acting_users_are_looked_up_as_members(
    state: Authorization,
    actor: Option<UserActor>,
    next: Authorization,
)
    requires
        state is ProjectActor,
        call_ensures(Authorization::resume, (state, AuthorizationEvent::Actor(actor)), next),
    ensures
        actor is None ==> next == Authorization::Denied(AuthorizationError::Forbidden),
        actor matches Some(user) ==> if identifier(user.subject@, 256) {
            &&& next matches Authorization::CheckMembership { caller, query, permission }
            &&& caller == state->ProjectActor_caller
            &&& query.organization_id == state->ProjectActor_scope.organization_id
            &&& query.subject == user.subject
            &&& permission == state->ProjectActor_scope.permission
        } else {
            next == Authorization::Denied(AuthorizationError::Forbidden)
        },
{
}

/// Only an active member of the organization is asked about further, for the same
/// permission in the same organization.
pub proof fn only_active_members_go_on(
    state: Authorization,
    reply: MembershipReply,
    next: Authorization,
)
    requires
        state is CheckMembership,
        call_ensures(Authorization::resume, (state, AuthorizationEvent::Membership(reply)), next),
    ensures
        match reply {
            MembershipReply::Answer { active: true } => {
                &&& next matches Authorization::CheckPermission { caller, request }
                &&& caller == state->CheckMembership_caller
                &&& request.subject == state->CheckMembership_query.subject
                &&& request.scope_kind@ == "organization"@
                &&& request.scope_id == state->CheckMembership_query.organization_id
                &&& request.permission == state->CheckMembership_permission
            },
            MembershipReply::Answer { active: false } => next == Authorization::Denied(
                AuthorizationError::MembershipRequired,
            ),
            MembershipReply::OrganizationNotFound => next == Authorization::Denied(
                AuthorizationError::OrganizationNotFound,
            ),
            MembershipReply::InvalidRequest => {
                &&& next matches Authorization::Denied(AuthorizationError::Runtime(failure))
                &&& tells(
                    failure,
                    "Organization Membership rejected a valid service-account request"@,
                )
            },
            MembershipReply::Unknown => {
                &&& next matches Authorization::Denied(AuthorizationError::Runtime(failure))
                &&& tells(
                    failure,
                    "Organization Membership returned an unknown service-account error"@,
                )
            },
            MembershipReply::Failed => next == Authorization::Denied(
                AuthorizationError::Runtime(Failure::Relayed),
            ),
        },
{
}

/// Only a member who has the permission may go on, as the caller and the user
/// that were found.
pub proof fn only_permitted_members_are_granted(
    state: Authorization,
    reply: PermissionReply,
    next: Authorization,
)
    requires
        state is CheckPermission,
        call_ensures(Authorization::resume, (state, AuthorizationEvent::Permission(reply)), next),
    ensures
        match reply {
            PermissionReply::Answer { allowed: true } => next == Authorization::Granted(
                AuthorizedManagement {
                    caller: state->CheckPermission_caller,
                    actor_subject: state->CheckPermission_request.subject,
                },
            ),
            PermissionReply::Answer { allowed: false } => next == Authorization::Denied(
                AuthorizationError::AccessDenied,
            ),
            PermissionReply::InvalidRequest => {
                &&& next matches Authorization::Denied(AuthorizationError::Runtime(failure))
                &&& tells(
                    failure,
                    "Access Control rejected a valid service-account permission request"@,
                )
            },
            PermissionReply::Unknown => {
                &&& next matches Authorization::Denied(AuthorizationError::Runtime(failure))
                &&& tells(failure, "Access Control returned an unknown service-account error"@)
            },
            PermissionReply::Failed => next == Authorization::Denied(
                AuthorizationError::Runtime(Failure::Relayed),
            ),
        },
{
}

/// A reply that was not asked for is never a reason to grant anything.
pub proof fn stray_replies_are_denied(
    state: Authorization,
    event: AuthorizationEvent,
    next: Authorization,
)
    requires
        call_ensures(Authorization::resume, (state, event), next),
        event is Actor ==> !(state is ProjectActor),
        event is Membership ==> !(state is CheckMembership),
        event is Permission ==> !(state is CheckPermission),
    ensures
        next == Authorization::Denied(AuthorizationError::Runtime(Failure::UnexpectedReply)),
{
}

/// What a receipt is bound to: caller, operation and key, with zeros between
/// them.
pub open spec fn binding(command: CommandKey) -> Seq<u8> {
    encode_utf8(
        command.caller@ + seq!['\0'] + command.operation@ + seq!['\0']
            + command.idempotency_key@,
    )
}

/// Receipts are bound to caller, operation and key.
pub proof fn receipts_are_bound_to_three_texts(
    caller: &str,
    operation: &str,
    idempotency_key: &str,
    r: Vec<u8>,
    command: &CommandKey,
    of_command: Vec<u8>,
)
    requires
        call_ensures(receipt_aad, (caller, operation, idempotency_key), r),
        call_ensures(command_aad, (command,), of_command),
    ensures
        of_command@ == binding(*command),
        r@ == encode_utf8(caller@ + seq!['\0'] + operation@ + seq!['\0'] + idempotency_key@),
{
}

/// A command starts with pruning, for its own key and with the given retention.
pub proof fn commands_start_with_pruning(
    caller: String,
    operation: &str,
    idempotency_key: &str,
    actor: Option<String>,
    seconds: u64,
    r: Admission,
)
    requires
        call_ensures(Admission::start, (caller, operation, idempotency_key, actor, seconds), r),
    ensures
        r matches Admission::Prune { command, actor: acting, retention_seconds },
        r->Prune_command.caller@ == caller@,
        r->Prune_command.operation@ == operation@,
        r->Prune_command.idempotency_key@ == idempotency_key@,
        r->Prune_actor == actor,
        r->retention_seconds == seconds,
{
}

/// After pruning the intent is serialized, for the same command and the same
/// user.
pub proof fn pruning_is_followed_by_the_intent(
    state: Admission,
    cipher: &ReceiptCipher,
    next: Admission,
)
    requires
        state is Prune,
        call_ensures(Admission::resume, (state, cipher, AdmissionEvent::Pruned), next),
    ensures
        next == (Admission::EncodeIntent {
            command: state->Prune_command,
            actor: state->Prune_actor,
        }),
{
}

/// A command is claimed with the SHA-256 hash of its intent; an intent that
/// cannot be serialized ends the call.
pub proof fn commands_are_claimed_with_the_hash_of_their_intent(
    state: Admission,
    cipher: &ReceiptCipher,
    encoded: Result<Vec<u8>, serde_json::Error>,
    next: Admission,
)
    requires
        state is EncodeIntent,
        call_ensures(
            Admission::resume,
            (state, cipher, AdmissionEvent::IntentEncoded(encoded)),
            next,
        ),
    ensures
        match encoded {
            Ok(bytes) => {
                &&& next matches Admission::Claim { command, intent }
                &&& command == state->EncodeIntent_command
                &&& intent@ == sha256_digest(bytes@)
            },
            Err(error) => next == Admission::Failed(
                Failure::Plugin(ServiceAccountPluginError::SerializeReceipt(error)),
            ),
        },
{
}

/// Only a command that was claimed anew is carried out. One that succeeded is
/// answered from its receipt, opened under its own binding; one that failed, one
/// with another intent and one in progress are refused as such.
pub proof fn only_new_commands_are_carried_out(
    state: Admission,
    cipher: &ReceiptCipher,
    claim: CommandClaim,
    next: Admission,
)
    requires
        state is Claim,
        call_ensures(Admission::resume, (state, cipher, AdmissionEvent::Claimed(claim)), next),
    ensures
        match claim {
            CommandClaim::Claimed => next == (Admission::Admitted {
                command: state->Claim_command,
            }),
            CommandClaim::CompletedSuccess { nonce, ciphertext } => {
                let opened = aes256_gcm_opened(
                    cipher.key(),
                    nonce@,
                    ciphertext@,
                    binding(state->Claim_command),
                );
                if nonce@.len() == 12 && opened is Some {
                    next matches Admission::Replayed { receipt } && receipt@ == opened.unwrap()
                } else {
                    next == Admission::Failed(
                        Failure::Plugin(
                            ServiceAccountPluginError::Crypto(CryptoError::ReceiptDecryption),
                        ),
                    )
                }
            },
            CommandClaim::CompletedError(code) => next == Admission::Refused(
                Refusal::Recorded(code),
            ),
            CommandClaim::Conflict => next == Admission::Refused(Refusal::Conflict),
            CommandClaim::InProgress => next == Admission::Refused(Refusal::InProgress),
        },
{
}

/// A reply that was not asked for ends a command before it starts.
pub proof fn stray_replies_end_a_command(
    state: Admission,
    cipher: &ReceiptCipher,
    event: AdmissionEvent,
    next: Admission,
)
    requires
        call_ensures(Admission::resume, (state, cipher, event), next),
        event is Pruned ==> !(state is Prune),
        event is IntentEncoded ==> !(state is EncodeIntent),
        event is Claimed ==> !(state is Claim),
    ensures
        next == Admission::Failed(Failure::UnexpectedReply),
{
}

/// A mutation starts with the authorization to manage the organization, and keeps
/// its operation, its key and the configured retention; a caller that is not on
/// the allowlist is forbidden.
pub proof fn mutations_start_with_the_permission_to_manage(
    config: &ServiceAccountConfig,
    caller: Option<String>,
    operation: &str,
    organization_id: &str,
    idempotency_key: &str,
    r: Entry,
)
    requires
        call_ensures(
            Entry::start,
            (config, caller, operation, organization_id, idempotency_key),
            r,
        ),
    ensures
        caller is None ==> r == Entry::Denied(AuthorizationError::Forbidden),
        caller matches Some(caller) ==> if among(config.management_callers@, caller@) {
            &&& r matches Entry::Authorize {
                operation: own_operation,
                idempotency_key: own_key,
                retention_seconds,
                authorization,
            }
            &&& own_operation@ == operation@
            &&& own_key@ == idempotency_key@
            &&& retention_seconds == config.receipt_ttl_seconds
            &&& authorization matches Authorization::ProjectActor {
                caller: own,
                capability_id,
                scope,
            }
            &&& own == caller
            &&& capability_id@ == "lenso.service-account@1"@
            &&& scope.operation@ == operation@
            &&& scope.organization_id@ == organization_id@
            &&& scope.permission@ == "service-account.manage"@
        } else {
            r == Entry::Denied(AuthorizationError::Forbidden)
        },
{
}

/// An authorized mutation starts its command, as the caller and the user that
/// were authorized; a denied one ends, and one that is not decided goes on.
pub proof fn authorized_mutations_start_their_command(
    state: Entry,
    cipher: &ReceiptCipher,
    event: AuthorizationEvent,
    next: Entry,
) -> (decision: Authorization)
    requires
        state is Authorize,
        call_ensures(Entry::resume, (state, cipher, EntryEvent::Authorization(event)), next),
    ensures
        state->Authorize_authorization.steps_to(event, decision),
        match decision {
            Authorization::Granted(authorized) => {
                &&& next matches Entry::Admit(Admission::Prune { command, actor, retention_seconds })
                &&& command.caller@ == authorized.caller@
                &&& command.operation@ == state->Authorize_operation@
                &&& command.idempotency_key@ == state->Authorize_idempotency_key@
                &&& actor == Some(authorized.actor_subject)
                &&& retention_seconds == state->Authorize_retention_seconds
            },
            Authorization::Denied(error) => next == Entry::Denied(error),
            decision => {
                &&& next matches Entry::Authorize {
                    operation,
                    idempotency_key,
                    retention_seconds,
                    authorization,
                }
                &&& operation@ == state->Authorize_operation@
                &&& idempotency_key@ == state->Authorize_idempotency_key@
                &&& retention_seconds == state->Authorize_retention_seconds
                &&& authorization == decision
            },
        },
{
    choose|decision: Authorization| #[trigger]
        state->Authorize_authorization.steps_to(event, decision) && next.follows_authorization(
            state->Authorize_operation@,
            state->Authorize_idempotency_key@,
            state->Authorize_retention_seconds,
            decision,
        )
}

/// A mutation goes on as its command does.
pub proof fn mutations_follow_their_command(
    state: Entry,
    cipher: &ReceiptCipher,
    event: AdmissionEvent,
    next: Entry,
) -> (admission: Admission)
    requires
        state is Admit,
        call_ensures(Entry::resume, (state, cipher, EntryEvent::Admission(event)), next),
    ensures
        (state->Admit_0).steps_to(*cipher, event, admission),
        match admission {
            Admission::Admitted { command } => next == (Entry::Admitted { command }),
            Admission::Replayed { receipt } => next == (Entry::Replayed { receipt }),
            Admission::Refused(refusal) => next == Entry::Refused(refusal),
            Admission::Failed(failure) => next == Entry::Failed(failure),
            admission => next == Entry::Admit(admission),
        },
{
    choose|admission: Admission| #[trigger]
        (state->Admit_0).steps_to(*cipher, event, admission) && next == Entry::after_admission(
            admission,
        )
}

} // verus!
