//! Who may manage service accounts: an exact caller with a verified user
//! assertion, whose user is an active member of the organization and is allowed
//! by Access Control.

use vstd::prelude::*;
use vstd::string::*;

use crate::config::{listed, lists, ServiceAccountConfig};
use crate::contract::CAPABILITY_ID;
use crate::error::Failure;
use crate::text::{is_token, same_text, valid_token};

verus! {

pub const READ_PERMISSION: &'static str = "service-account.read";

pub const MANAGE_PERMISSION: &'static str = "service-account.manage";

/// Who was found to be allowed.
pub struct AuthorizedManagement {
    pub caller: String,
    pub actor_subject: String,
}

/// The user whom a verified assertion speaks of.
pub struct UserActor {
    pub subject: String,
}

/// An assertion speaks of something else than a user.
pub struct UnexpectedActorKind {
    pub expected: String,
    pub actual: String,
}

impl UserActor {
    /// The user whom an assertion about an actor of kind `actor_kind` speaks of.
    pub fn from_assertion(actor_kind: &str, subject: &str) -> (r: Result<
        UserActor,
        UnexpectedActorKind,
    >)
        ensures
            match r {
                Ok(actor) => actor_kind@ == "user"@ && actor.subject@ == subject@,
                Err(error) => {
                    &&& actor_kind@ != "user"@
                    &&& error.expected@ == "user"@
                    &&& error.actual@ == actor_kind@
                },
            },
    {
        if !same_text(actor_kind, "user") {
            return Err(
                UnexpectedActorKind {
                    expected: "user".to_string(),
                    actual: actor_kind.to_string(),
                },
            );
        }
        Ok(UserActor { subject: subject.to_string() })
    }
}

/// Why management is refused.
pub enum AuthorizationError {
    Forbidden,
    OrganizationNotFound,
    MembershipRequired,
    AccessDenied,
    Runtime(Failure),
}

/// What is asked of Organization Membership.
pub struct MembershipQuery {
    pub organization_id: String,
    pub subject: String,
}

/// What is asked of Access Control.
pub struct PermissionQuery {
    pub subject: String,
    pub scope_kind: String,
    pub scope_id: String,
    pub permission: String,
}

/// What a management call is about.
pub struct ManagementScope {
    pub operation: String,
    pub organization_id: String,
    pub permission: String,
}

/// Where the authorization of a call stands. The first three states ask for
/// outside work, the last two are the outcome.
pub enum Authorization {
    /// Verify the actor assertion for `capability_id` and the operation, and
    /// read the user from it.
    ProjectActor { caller: String, capability_id: String, scope: ManagementScope },
    CheckMembership { caller: String, query: MembershipQuery, permission: String },
    CheckPermission { caller: String, request: PermissionQuery },
    Granted(AuthorizedManagement),
    Denied(AuthorizationError),
}

/// What Organization Membership answered.
pub enum MembershipReply {
    Answer { active: bool },
    OrganizationNotFound,
    InvalidRequest,
    Unknown,
    Failed,
}

/// What Access Control answered.
pub enum PermissionReply {
    Answer { allowed: bool },
    InvalidRequest,
    Unknown,
    Failed,
}

/// Outside work that was done.
pub enum AuthorizationEvent {
    /// The user of a valid assertion, or nothing.
    Actor(Option<UserActor>),
    Membership(MembershipReply),
    Permission(PermissionReply),
}

/// A subject is an identifier of at most 256 characters.
pub fn valid_subject(value: &str) -> (r: bool)
    ensures
        r == is_token(value@, 256),
{
    valid_token(value, 256)
}

impl Authorization {
    /// Where the authorization of a call by `caller` starts.
    pub open spec fn is_start(
        self,
        config: ServiceAccountConfig,
        caller: Option<String>,
        operation: Seq<char>,
        organization_id: Seq<char>,
        permission: Seq<char>,
    ) -> bool {
        if caller is Some && lists(config.management_callers@, caller.unwrap()@) {
            &&& self matches Authorization::ProjectActor { caller: own, capability_id, scope }
            &&& own == caller.unwrap()
            &&& capability_id@ == CAPABILITY_ID@
            &&& scope.operation@ == operation
            &&& scope.organization_id@ == organization_id
            &&& scope.permission@ == permission
        } else {
            self matches Authorization::Denied(AuthorizationError::Forbidden)
        }
    }

    pub fn start(
        config: &ServiceAccountConfig,
        caller: Option<String>,
        operation: &str,
        organization_id: &str,
        permission: &str,
    ) -> (r: Authorization)
        ensures
            r.is_start(*config, caller, operation@, organization_id@, permission@),
    {
        match caller {
            Some(caller) => if listed(&config.management_callers, &caller) {
                Authorization::ProjectActor {
                    caller,
                    capability_id: CAPABILITY_ID.to_string(),
                    scope: ManagementScope {
                        operation: operation.to_string(),
                        organization_id: organization_id.to_string(),
                        permission: permission.to_string(),
                    },
                }
            } else {
                Authorization::Denied(AuthorizationError::Forbidden)
            },
            None => Authorization::Denied(AuthorizationError::Forbidden),
        }
    }

    /// `next` is where the authorization goes on after `event`.
    pub open spec fn steps_to(self, event: AuthorizationEvent, next: Authorization) -> bool {
        match (self, event) {
            (
                Authorization::ProjectActor { caller, capability_id, scope },
                AuthorizationEvent::Actor(actor),
            ) => {
                if actor is Some && is_token(actor.unwrap().subject@, 256) {
                    &&& next matches Authorization::CheckMembership { caller: own, query, permission }
                    &&& own == caller
                    &&& query.organization_id == scope.organization_id
                    &&& query.subject == actor.unwrap().subject
                    &&& permission == scope.permission
                } else {
                    next matches Authorization::Denied(AuthorizationError::Forbidden)
                }
            },
            (
                Authorization::CheckMembership { caller, query, permission },
                AuthorizationEvent::Membership(reply),
            ) => match reply {
                MembershipReply::Answer { active } => if active {
                    &&& next matches Authorization::CheckPermission { caller: own, request: asked }
                    &&& own == caller
                    &&& asked.subject == query.subject
                    &&& asked.scope_kind@ == "organization"@
                    &&& asked.scope_id == query.organization_id
                    &&& asked.permission == permission
                } else {
                    next matches Authorization::Denied(AuthorizationError::MembershipRequired)
                },
                MembershipReply::OrganizationNotFound => {
                    next matches Authorization::Denied(AuthorizationError::OrganizationNotFound)
                },
                MembershipReply::InvalidRequest => next.fails_with(
                    "Organization Membership rejected a valid service-account request"@,
                ),
                MembershipReply::Unknown => next.fails_with(
                    "Organization Membership returned an unknown service-account error"@,
                ),
                MembershipReply::Failed => next.relays(),
            },
            (
                Authorization::CheckPermission { caller, request },
                AuthorizationEvent::Permission(reply),
            ) => match reply {
                PermissionReply::Answer { allowed } => if allowed {
                    &&& next matches Authorization::Granted(authorized)
                    &&& authorized.caller == caller
                    &&& authorized.actor_subject == request.subject
                } else {
                    next matches Authorization::Denied(AuthorizationError::AccessDenied)
                },
                PermissionReply::InvalidRequest => next.fails_with(
                    "Access Control rejected a valid service-account permission request"@,
                ),
                PermissionReply::Unknown => next.fails_with(
                    "Access Control returned an unknown service-account error"@,
                ),
                PermissionReply::Failed => next.relays(),
            },
            _ => {
                &&& next matches Authorization::Denied(AuthorizationError::Runtime(failure))
                &&& failure is UnexpectedReply
            },
        }
    }

    pub open spec fn fails_with(self, text: Seq<char>) -> bool {
        &&& self matches Authorization::Denied(AuthorizationError::Runtime(failure))
        &&& failure.says(text)
    }

    pub open spec fn relays(self) -> bool {
        &&& self matches Authorization::Denied(AuthorizationError::Runtime(failure))
        &&& failure is Relayed
    }

    fn failed(text: &str) -> (r: Authorization)
        ensures
            r.fails_with(text@),
    {
        Authorization::Denied(AuthorizationError::Runtime(Failure::detail(text)))
    }

    /// Goes on after `event`.
    pub fn resume(self, event: AuthorizationEvent) -> (next: Authorization)
        ensures
            self.steps_to(event, next),
    {
        match (self, event) {
            (
                Authorization::ProjectActor { caller, capability_id: _, scope },
                AuthorizationEvent::Actor(actor),
            ) => match actor {
                Some(actor) => if valid_subject(actor.subject.as_str()) {
                    Authorization::CheckMembership {
                        caller,
                        query: MembershipQuery {
                            organization_id: scope.organization_id,
                            subject: actor.subject,
                        },
                        permission: scope.permission,
                    }
                } else {
                    Authorization::Denied(AuthorizationError::Forbidden)
                },
                None => Authorization::Denied(AuthorizationError::Forbidden),
            },
            (
                Authorization::CheckMembership { caller, query, permission },
                AuthorizationEvent::Membership(reply),
            ) => match reply {
                MembershipReply::Answer { active } => if active {
                    Authorization::CheckPermission {
                        caller,
                        request: PermissionQuery {
                            subject: query.subject,
                            scope_kind: "organization".to_string(),
                            scope_id: query.organization_id,
                            permission,
                        },
                    }
                } else {
                    Authorization::Denied(AuthorizationError::MembershipRequired)
                },
                MembershipReply::OrganizationNotFound => Authorization::Denied(
                    AuthorizationError::OrganizationNotFound,
                ),
                MembershipReply::InvalidRequest => Authorization::failed(
                    "Organization Membership rejected a valid service-account request",
                ),
                MembershipReply::Unknown => Authorization::failed(
                    "Organization Membership returned an unknown service-account error",
                ),
                MembershipReply::Failed => Authorization::Denied(
                    AuthorizationError::Runtime(Failure::Relayed),
                ),
            },
            (
                Authorization::CheckPermission { caller, request },
                AuthorizationEvent::Permission(reply),
            ) => match reply {
                PermissionReply::Answer { allowed } => if allowed {
                    Authorization::Granted(
                        AuthorizedManagement { caller, actor_subject: request.subject },
                    )
                } else {
                    Authorization::Denied(AuthorizationError::AccessDenied)
                },
                PermissionReply::InvalidRequest => Authorization::failed(
                    "Access Control rejected a valid service-account permission request",
                ),
                PermissionReply::Unknown => Authorization::failed(
                    "Access Control returned an unknown service-account error",
                ),
                PermissionReply::Failed => Authorization::Denied(
                    AuthorizationError::Runtime(Failure::Relayed),
                ),
            },
            _ => Authorization::Denied(AuthorizationError::Runtime(Failure::UnexpectedReply)),
        }
    }
}

/// `states` is a run of an authorization over `events`.
pub open spec fn is_authorization_run(
    states: Seq<Authorization>,
    events: Seq<AuthorizationEvent>,
    config: ServiceAccountConfig,
    caller: Option<String>,
    operation: Seq<char>,
    organization_id: Seq<char>,
    permission: Seq<char>,
) -> bool {
    &&& states.len() == events.len() + 1
    &&& states[0].is_start(config, caller, operation, organization_id, permission)
    &&& forall|i: int|
        0 <= i < events.len() ==> (#[trigger] states[i]).steps_to(events[i], states[i + 1])
}

/// Management is granted only when all four factors are given: the caller is on
/// the management allowlist; a verified assertion for this very operation names
/// a user with a valid subject; that user is an active member of the
/// organization; and Access Control allows that user the permission on that
/// organization.
pub proof fn management_needs_all_four_factors(
    states: Seq<Authorization>,
    events: Seq<AuthorizationEvent>,
    config: ServiceAccountConfig,
    caller: Option<String>,
    operation: Seq<char>,
    organization_id: Seq<char>,
    permission: Seq<char>,
)
    requires
        is_authorization_run(
            states,
            events,
            config,
            caller,
            operation,
            organization_id,
            permission,
        ),
        states.last() is Granted,
    ensures
        ({
            let authorized = states.last()->Granted_0;
            &&& caller == Some(authorized.caller)
            &&& lists(config.management_callers@, authorized.caller@)
            &&& events.len() == 3
            &&& states[0] matches Authorization::ProjectActor { capability_id, scope, .. }
            &&& capability_id@ == CAPABILITY_ID@ && scope.operation@ == operation
            &&& events[0] matches AuthorizationEvent::Actor(Some(actor))
            &&& is_token(actor.subject@, 256) && authorized.actor_subject == actor.subject
            &&& states[1] matches Authorization::CheckMembership { query: membership, .. }
            &&& membership.organization_id@ == organization_id && membership.subject
                == actor.subject
            &&& events[1] matches AuthorizationEvent::Membership(
                MembershipReply::Answer { active: true },
            )
            &&& states[2] matches Authorization::CheckPermission { request: asked, .. }
            &&& asked.subject == actor.subject && asked.scope_kind@ == "organization"@
            &&& asked.scope_id@ == organization_id && asked.permission@ == permission
            &&& events[2] matches AuthorizationEvent::Permission(
                PermissionReply::Answer { allowed: true },
            )
        }),
{
    lemma_run_stages(
        states,
        events,
        config,
        caller,
        operation,
        organization_id,
        permission,
        events.len() as int,
    );
    let n = events.len() as int;
    assert(states[n] == states.last());
    assert(n == 3);
    assert(states[0].steps_to(events[0], states[1]));
    assert(states[1].steps_to(events[1], states[2]));
    assert(states[2].steps_to(events[2], states[3]));
}

/// A run is in its i-th asking state after i events, or it is over.
proof fn lemma_run_stages(
    states: Seq<Authorization>,
    events: Seq<AuthorizationEvent>,
    config: ServiceAccountConfig,
    caller: Option<String>,
    operation: Seq<char>,
    organization_id: Seq<char>,
    permission: Seq<char>,
    i: int,
)
    requires
        is_authorization_run(
            states,
            events,
            config,
            caller,
            operation,
            organization_id,
            permission,
        ),
        0 <= i <= events.len(),
    ensures
        match states[i] {
            Authorization::ProjectActor { .. } => i == 0,
            Authorization::CheckMembership { .. } => i == 1,
            Authorization::CheckPermission { .. } => i == 2,
            Authorization::Granted(_) => i == 3,
            Authorization::Denied(_) => true,
        },
    decreases i,
{
    if i > 0 {
        lemma_run_stages(
            states,
            events,
            config,
            caller,
            operation,
            organization_id,
            permission,
            i - 1,
        );
        assert(states[i - 1].steps_to(events[i - 1], states[i]));
    }
}

/// A caller that is not on the management allowlist is refused at once.
pub proof fn unlisted_callers_are_forbidden(
    start: Authorization,
    config: ServiceAccountConfig,
    caller: Option<String>,
    operation: Seq<char>,
    organization_id: Seq<char>,
    permission: Seq<char>,
)
    requires
        start.is_start(config, caller, operation, organization_id, permission),
        caller matches Some(caller) ==> !lists(config.management_callers@, caller@),
    ensures
        start matches Authorization::Denied(AuthorizationError::Forbidden),
{
}

} // verus!
