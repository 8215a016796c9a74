//! Operations from request to answer, with the outside work done by hand.

use lenso_auth_sdk::ActorAssertionIssuer;
use lenso_service_account::admission::{Admission, AdmissionEvent};
use lenso_service_account::auth_contract::{
    ExchangeServiceAccountSecretError, ExchangeServiceAccountSecretRequest,
    ExchangeServiceAccountSecretResponse,
};
use lenso_service_account::authentication::{
    Exchange, ExchangeEvent, IssueReply, StatusReply,
};
use lenso_service_account::authorization::{
    Authorization, AuthorizationError, AuthorizationEvent, MembershipReply, PermissionReply,
    UserActor, MANAGE_PERMISSION, READ_PERMISSION,
};
use lenso_service_account::config::ServiceAccountConfig;
use lenso_service_account::contract::{
    CreateServiceAccountError, CreateServiceAccountRequest, CreateServiceAccountResponse,
    GetServiceAccountError, GetServiceAccountRequest, ListServiceAccountsError,
    ListServiceAccountsRequest, Nullable, RevokeServiceAccountError, RevokeServiceAccountRequest,
    RevokeServiceAccountResponse, RotateServiceAccountSecretError,
    RotateServiceAccountSecretRequest, RotateServiceAccountSecretResponse, ServiceAccountStatus,
};
use lenso_service_account::create::{commit_creation, Create, CreateEvent, IdentityReply};
use lenso_service_account::crypto::{
    credential_id, digest, verify_secret, ReceiptCipher, SecretBytes, SecretText,
};
use lenso_service_account::entry::{Entry, EntryEvent};
use lenso_service_account::error::{CryptoError, Failure, ServiceAccountPluginError};
use lenso_service_account::inspect::{Get, GetEvent, List, ListEvent};
use lenso_service_account::instant::{format_time, now_utc};
use lenso_service_account::lifecycle::{
    Activation, ActivationEvent, ActiveServiceAccount, SecretReply,
};
use lenso_service_account::revoke::{commit_revocation, Revoke, RevokeEvent};
use lenso_service_account::rotate::{commit_rotation, Rotate, RotateEvent};
use lenso_service_account::rows::{CommandClaim, Mutation};
use lenso_service_account::storage::{StoreError, Tables};

const SECOND: i128 = 1_000_000_000;

fn configuration() -> ServiceAccountConfig {
    ServiceAccountConfig::new(
        "service_accounts".to_owned(),
        "database-url".to_owned(),
        "credential-pepper".to_owned(),
        "receipt-key".to_owned(),
        "service-accounts".to_owned(),
        "auth.users".to_owned(),
        ActorAssertionIssuer::new("auth.users", b"test signing key").public_key_base64(),
        vec!["admin-api".to_owned()],
        vec!["auth-ingress".to_owned()],
        vec!["application".to_owned()],
        86_400,
        300,
        900,
        86_400,
        60,
        100,
        300,
        2,
        3,
    )
    .expect("valid config")
}

fn secret_value(text: &str) -> ActivationEvent {
    ActivationEvent::Secret(SecretReply::Value(text.to_owned()))
}

const PEPPER: &str = "a pepper of at least thirty-two bytes";
const RECEIPT_KEY: &str = "a receipt key of at least thirty-two bytes";

fn activated() -> ActiveServiceAccount {
    let state = Activation::start(configuration())
        .resume(secret_value("postgres://database"))
        .resume(secret_value(PEPPER))
        .resume(secret_value(RECEIPT_KEY))
        .resume(ActivationEvent::DatabasePrepared);
    match state {
        Activation::Active(active) => active,
        _ => panic!("active"),
    }
}

#[test]
fn activation_resolves_three_secrets_in_order() {
    let state = Activation::start(configuration());
    let Activation::ResolveDatabaseUrl { ref reference, .. } = state else {
        panic!("database url");
    };
    assert_eq!(reference, "database-url");
    let state = state.resume(secret_value("postgres://database"));
    let Activation::ResolvePepper { ref reference, ref database_url, .. } = state else {
        panic!("pepper");
    };
    assert_eq!(reference, "credential-pepper");
    assert_eq!(database_url.as_str(), "postgres://database");
    let state = state.resume(secret_value(PEPPER));
    let Activation::ResolveReceiptKey { ref reference, ref pepper, .. } = state else {
        panic!("receipt key");
    };
    assert_eq!(reference, "receipt-key");
    assert_eq!(pepper.as_slice(), PEPPER.as_bytes());
    let state = state.resume(secret_value(RECEIPT_KEY));
    let Activation::PrepareDatabase { ref plan, ref database_url, .. } = state else {
        panic!("prepare");
    };
    assert_eq!(plan.schema(), "service_accounts");
    assert_eq!(database_url.as_str(), "postgres://database");
    let Activation::Active(active) = state.resume(ActivationEvent::DatabasePrepared) else {
        panic!("active");
    };
    assert!(active.dummy_verifier.starts_with("$argon2id$"));
    assert!(verify_secret(
        "invalid service-account credential",
        PEPPER.as_bytes(),
        &active.dummy_verifier
    ));
    assert_eq!(
        active.debug_text(),
        "ActiveServiceAccount { schema: \"service_accounts\", directory_provider: \"service-accounts\", pepper: \"<redacted>\", receipt_cipher: ReceiptCipher(<redacted>), dummy_verifier: \"<redacted>\", .. }"
    );
}

#[test]
fn an_active_plugin_is_made_of_what_was_resolved() {
    let config = configuration();
    let authority = config.actor_authority().expect("authority");
    let state = Activation::activated(
        config,
        SecretBytes::new(PEPPER.as_bytes().to_vec()),
        &SecretText::new(RECEIPT_KEY.to_owned()),
        authority,
        "a verifier".to_owned(),
    );
    let Activation::Active(active) = state else {
        panic!("active");
    };
    assert_eq!(active.config.schema, "service_accounts");
    assert_eq!(active.pepper.as_slice(), PEPPER.as_bytes());
    assert_eq!(active.dummy_verifier, "a verifier");
    let cipher = ReceiptCipher::derive(RECEIPT_KEY.as_bytes());
    let (nonce, ciphertext) = cipher.encrypt(b"receipt", b"binding").ok().expect("sealed");
    assert_eq!(
        active.receipt_cipher.decrypt(&nonce, &ciphertext, b"binding").ok(),
        Some(b"receipt".to_vec())
    );
}

fn failure_detail(failure: Failure) -> String {
    match failure {
        Failure::Detail(detail) | Failure::InvalidPlan(detail) => detail,
        Failure::Relayed => "relayed".to_owned(),
        Failure::UnexpectedReply => "unexpected".to_owned(),
        Failure::Constraint(name) => name,
        Failure::InvalidSchema(error) => error.to_string(),
        Failure::Plugin(_) => "plugin".to_owned(),
    }
}

fn activation_failure(state: Activation) -> String {
    match state {
        Activation::Failed(failure) => failure_detail(failure),
        _ => panic!("failed"),
    }
}

#[test]
fn activation_fails_closed() {
    let rejected = || ActivationEvent::Secret(SecretReply::Rejected);
    assert_eq!(
        activation_failure(Activation::start(configuration()).resume(rejected())),
        "Service Account database URL secret was rejected"
    );
    let first = || Activation::start(configuration()).resume(secret_value("url"));
    assert_eq!(
        activation_failure(first().resume(rejected())),
        "Service Account credential pepper secret was rejected"
    );
    assert_eq!(
        activation_failure(first().resume(secret_value(PEPPER)).resume(rejected())),
        "Service Account receipt encryption key secret was rejected"
    );
    assert_eq!(
        activation_failure(first().resume(ActivationEvent::Secret(SecretReply::Failed))),
        "relayed"
    );
    let weak = "Service Account pepper and receipt encryption key must each contain at least 32 bytes";
    assert_eq!(
        activation_failure(first().resume(secret_value("short")).resume(secret_value(RECEIPT_KEY))),
        weak
    );
    assert_eq!(
        activation_failure(first().resume(secret_value(PEPPER)).resume(secret_value(&"k".repeat(31)))),
        weak
    );
    assert_eq!(activation_failure(first().resume(ActivationEvent::DatabasePrepared)), "unexpected");
    let mut config = configuration();
    config.schema = "public".to_owned();
    let state = Activation::start(config)
        .resume(secret_value("url"))
        .resume(secret_value(PEPPER))
        .resume(secret_value(RECEIPT_KEY));
    assert!(activation_failure(state).contains("public"));
    let mut config = configuration();
    config.auth_public_key = "broken".to_owned();
    let state = Activation::start(config)
        .resume(secret_value("url"))
        .resume(secret_value(PEPPER))
        .resume(secret_value(RECEIPT_KEY))
        .resume(ActivationEvent::DatabasePrepared);
    assert_eq!(
        activation_failure(state),
        "invalid Service Account Auth verification key"
    );
}

fn user(subject: &str) -> AuthorizationEvent {
    AuthorizationEvent::Actor(Some(UserActor { subject: subject.to_owned() }))
}

fn member(active: bool) -> AuthorizationEvent {
    AuthorizationEvent::Membership(MembershipReply::Answer { active })
}

fn allow(allowed: bool) -> AuthorizationEvent {
    AuthorizationEvent::Permission(PermissionReply::Answer { allowed })
}

fn authorization_start(caller: Option<&str>) -> Authorization {
    Authorization::start(
        &configuration(),
        caller.map(str::to_owned),
        "create",
        "org_1",
        MANAGE_PERMISSION,
    )
}

#[test]
fn management_needs_caller_user_membership_and_permission() {
    let state = authorization_start(Some("admin-api"));
    let Authorization::ProjectActor { ref capability_id, ref scope, .. } = state else {
        panic!("actor");
    };
    assert_eq!(capability_id, "lenso.service-account@1");
    assert_eq!(scope.operation, "create");
    let state = state.resume(user("usr_admin"));
    let Authorization::CheckMembership { ref query, .. } = state else {
        panic!("membership");
    };
    assert_eq!(query.organization_id, "org_1");
    assert_eq!(query.subject, "usr_admin");
    let state = state.resume(member(true));
    let Authorization::CheckPermission { ref request, .. } = state else {
        panic!("permission");
    };
    assert_eq!(request.subject, "usr_admin");
    assert_eq!(request.scope_kind, "organization");
    assert_eq!(request.scope_id, "org_1");
    assert_eq!(request.permission, "service-account.manage");
    let Authorization::Granted(authorized) = state.resume(allow(true)) else {
        panic!("granted");
    };
    assert_eq!(authorized.caller, "admin-api");
    assert_eq!(authorized.actor_subject, "usr_admin");
    assert_eq!(READ_PERMISSION, "service-account.read");
}

#[test]
fn each_missing_factor_denies() {
    let denied = |state: Authorization| match state {
        Authorization::Denied(error) => error,
        _ => panic!("denied"),
    };
    let start = || authorization_start(Some("admin-api"));
    assert!(matches!(denied(authorization_start(None)), AuthorizationError::Forbidden));
    assert!(matches!(
        denied(authorization_start(Some("auth-ingress"))),
        AuthorizationError::Forbidden
    ));
    assert!(matches!(
        denied(start().resume(AuthorizationEvent::Actor(None))),
        AuthorizationError::Forbidden
    ));
    assert!(matches!(denied(start().resume(user("no subject"))), AuthorizationError::Forbidden));
    let known = || start().resume(user("usr_admin"));
    assert!(matches!(denied(known().resume(member(false))), AuthorizationError::MembershipRequired));
    assert!(matches!(
        denied(known().resume(AuthorizationEvent::Membership(MembershipReply::OrganizationNotFound))),
        AuthorizationError::OrganizationNotFound
    ));
    let detail = |state: Authorization| match denied(state) {
        AuthorizationError::Runtime(failure) => failure_detail(failure),
        _ => panic!("failure"),
    };
    assert_eq!(
        detail(known().resume(AuthorizationEvent::Membership(MembershipReply::InvalidRequest))),
        "Organization Membership rejected a valid service-account request"
    );
    assert_eq!(
        detail(known().resume(AuthorizationEvent::Membership(MembershipReply::Unknown))),
        "Organization Membership returned an unknown service-account error"
    );
    assert_eq!(
        detail(known().resume(AuthorizationEvent::Membership(MembershipReply::Failed))),
        "relayed"
    );
    let active = || known().resume(member(true));
    assert!(matches!(denied(active().resume(allow(false))), AuthorizationError::AccessDenied));
    assert_eq!(
        detail(active().resume(AuthorizationEvent::Permission(PermissionReply::InvalidRequest))),
        "Access Control rejected a valid service-account permission request"
    );
    assert_eq!(
        detail(active().resume(AuthorizationEvent::Permission(PermissionReply::Unknown))),
        "Access Control returned an unknown service-account error"
    );
    assert_eq!(
        detail(active().resume(AuthorizationEvent::Permission(PermissionReply::Failed))),
        "relayed"
    );
    // A factor cannot be skipped.
    assert_eq!(detail(start().resume(allow(true))), "unexpected");
    assert_eq!(detail(known().resume(allow(true))), "unexpected");
}

/// Answers every question on the way into a mutation.
fn entry_event(entry: &Entry, tables: &mut Tables, intent: &[u8]) -> EntryEvent {
    match entry {
        Entry::Authorize { authorization, .. } => EntryEvent::Authorization(match authorization {
            Authorization::ProjectActor { .. } => user("usr_admin"),
            Authorization::CheckMembership { .. } => member(true),
            Authorization::CheckPermission { .. } => allow(true),
            _ => panic!("pending"),
        }),
        Entry::Admit(admission) => EntryEvent::Admission(admission_event(admission, tables, intent)),
        _ => panic!("pending"),
    }
}

fn admission_event(admission: &Admission, tables: &mut Tables, intent: &[u8]) -> AdmissionEvent {
    match admission {
        Admission::Prune { retention_seconds, .. } => {
            tables.prune(now_utc(), *retention_seconds);
            AdmissionEvent::Pruned
        }
        Admission::EncodeIntent { .. } => AdmissionEvent::IntentEncoded(Ok(intent.to_vec())),
        Admission::Claim { command, intent } => AdmissionEvent::Claimed(
            tables
                .claim_command(command, intent, now_utc())
                .ok()
                .expect("claim"),
        ),
        _ => panic!("pending"),
    }
}

/// The account answers in these tests carry no more than the identifier.
fn encode_create(response: &CreateServiceAccountResponse) -> Result<Vec<u8>, serde_json::Error> {
    serde_json::to_vec(&(
        &response.account.service_account_id,
        response.created,
        &response.secret.0,
    ))
}

fn encode_rotate(
    response: &RotateServiceAccountSecretResponse,
) -> Result<Vec<u8>, serde_json::Error> {
    serde_json::to_vec(&(
        &response.account.revision,
        response.rotated,
        &response.secret.0,
    ))
}

fn encode_revoke(response: &RevokeServiceAccountResponse) -> Result<Vec<u8>, serde_json::Error> {
    serde_json::to_vec(&(&response.account.revision, response.revoked))
}

fn create_request(key: &str, name: &str) -> CreateServiceAccountRequest {
    CreateServiceAccountRequest {
        idempotency_key: key.to_owned(),
        organization_id: "org_1".to_owned(),
        name: name.to_owned(),
    }
}

/// Runs a creation to its end. Receipts are decoded to the given answer.
fn run_create(
    active: &ActiveServiceAccount,
    tables: &mut Tables,
    request: CreateServiceAccountRequest,
    subject: IdentityReply,
    decoded: Option<CreateServiceAccountResponse>,
) -> Create {
    let intent = format!("{:?}", request).into_bytes();
    let mut subject = Some(subject);
    let mut decoded = decoded;
    let mut state = Create::start(active, Some("admin-api".to_owned()), request);
    loop {
        let event = match &state {
            Create::Enter { entry, .. } => {
                CreateEvent::Entry(entry_event(entry, tables, &intent))
            }
            Create::DecodeReceipt { receipt } => {
                let (_, _, secret): (String, bool, Option<String>) =
                    serde_json::from_slice(receipt).expect("receipt");
                assert_eq!(secret, None);
                CreateEvent::ReceiptDecoded(Ok(decoded.take().expect("decoded")))
            }
            Create::EnsureIdentity { provider, external_subject, service_account_id, .. } => {
                assert_eq!(provider, "service-accounts");
                assert_eq!(external_subject, &format!("org_1:{service_account_id}"));
                CreateEvent::IdentityEnsured(subject.take().expect("asked once"))
            }
            Create::Insert { command, account, max_accounts, .. } => {
                CreateEvent::Inserted(commit_creation(
                    tables,
                    &active.receipt_cipher,
                    command,
                    account,
                    *max_accounts,
                    now_utc(),
                    encode_create,
                ))
            }
            Create::RecordError { command, code, .. } => {
                assert!(tables.complete_error(command, code, now_utc()).is_ok());
                CreateEvent::Recorded
            }
            Create::Done(_) | Create::Failed(_) => return state,
        };
        state = state.resume(active, event);
    }
}

fn subject(text: &str) -> IdentityReply {
    IdentityReply::Subject(text.to_owned())
}

fn created(state: Create) -> CreateServiceAccountResponse {
    match state {
        Create::Done(Ok(response)) => response,
        Create::Done(Err(error)) => panic!("{error:?}"),
        _ => panic!("created"),
    }
}

fn create_refused(state: Create) -> CreateServiceAccountError {
    match state {
        Create::Done(Err(error)) => error,
        _ => panic!("refused"),
    }
}

#[test]
fn creation_shows_its_secret_once() {
    let active = activated();
    let mut tables = Tables::new();
    let first = created(run_create(
        &active,
        &mut tables,
        create_request("create-1", "  Release bot "),
        subject("usr_machine"),
        None,
    ));
    assert!(first.created);
    assert_eq!(first.account.name, "Release bot");
    assert_eq!(first.account.revision, "1");
    assert_eq!(first.account.status, ServiceAccountStatus::Active);
    assert_eq!(first.account.subject, "usr_machine");
    let secret = first.secret.0.clone().expect("secret");
    // A prefix, 18 bytes of identifier, a dot and 32 bytes of material.
    assert!(secret.starts_with("lenso_sa_sac_"));
    assert_eq!(secret.len(), 13 + 24 + 1 + 43);
    let stored = tables.load_credential(credential_id(&secret).expect("id")).expect("credential");
    assert!(verify_secret(&secret, PEPPER.as_bytes(), &stored.verifier));
    assert_eq!(stored.valid_until - stored.valid_from, 86_400 * SECOND);

    let replayed = created(run_create(
        &active,
        &mut tables,
        create_request("create-1", "  Release bot "),
        subject("usr_machine"),
        Some(first.clone()),
    ));
    assert!(!replayed.created);
    assert_eq!(replayed.secret, Nullable(None));
    assert_eq!(replayed.account, first.account);
    assert_eq!(tables.accounts.len(), 1);

    let conflict = run_create(
        &active,
        &mut tables,
        create_request("create-1", "Another bot"),
        subject("usr_other"),
        None,
    );
    assert_eq!(create_refused(conflict), CreateServiceAccountError::IdempotencyConflict);
}

#[test]
fn refused_creations_are_recorded_and_read_back() {
    let active = activated();
    let mut tables = Tables::new();
    created(run_create(
        &active,
        &mut tables,
        create_request("create-1", "Release bot"),
        subject("usr_1"),
        None,
    ));
    for (key, name, reply, error) in [
        ("same-name", "RELEASE bot", subject("usr_2"), CreateServiceAccountError::NameConflict),
        ("same-subject", "Other", subject("usr_1"), CreateServiceAccountError::DirectoryRejected),
        ("bad-subject", "Other", subject("no subject"), CreateServiceAccountError::DirectoryRejected),
        ("rejected", "Other", IdentityReply::Rejected, CreateServiceAccountError::DirectoryRejected),
    ] {
        let refused = run_create(&active, &mut tables, create_request(key, name), reply, None);
        assert_eq!(create_refused(refused), error);
        let again = run_create(
            &active,
            &mut tables,
            create_request(key, name),
            subject("usr_9"),
            None,
        );
        assert_eq!(create_refused(again), error);
    }
    for n in 2..4 {
        created(run_create(
            &active,
            &mut tables,
            create_request(&format!("create-{n}"), &format!("Bot {n}")),
            subject(&format!("usr_{n}")),
            None,
        ));
    }
    let many = run_create(
        &active,
        &mut tables,
        create_request("too-many", "One more"),
        subject("usr_8"),
        None,
    );
    assert_eq!(create_refused(many), CreateServiceAccountError::TooManyServiceAccounts);
    let again = run_create(
        &active,
        &mut tables,
        create_request("too-many", "One more"),
        subject("usr_8"),
        None,
    );
    assert_eq!(create_refused(again), CreateServiceAccountError::TooManyServiceAccounts);
}

#[test]
fn creation_refuses_bad_requests_and_failed_work() {
    let active = activated();
    let mut tables = Tables::new();
    for request in [
        create_request("", "Bot"),
        create_request("k", "   "),
        CreateServiceAccountRequest {
            organization_id: "org 1".to_owned(),
            ..create_request("k", "Bot")
        },
    ] {
        let state = Create::start(&active, Some("admin-api".to_owned()), request);
        assert_eq!(create_refused(state), CreateServiceAccountError::InvalidRequest);
    }
    let stranger = Create::start(&active, Some("stranger".to_owned()), create_request("k", "Bot"));
    assert_eq!(create_refused(stranger), CreateServiceAccountError::Forbidden);
    let failed = run_create(
        &active,
        &mut tables,
        create_request("k", "Bot"),
        IdentityReply::Failed,
        None,
    );
    assert!(matches!(failed, Create::Failed(Failure::Relayed)));
    let pending = run_create(&active, &mut tables, create_request("k", "Bot"), subject("u"), None);
    assert_eq!(create_refused(pending), CreateServiceAccountError::OperationInProgress);
    let skipped = Create::start(&active, Some("admin-api".to_owned()), create_request("k2", "Bot"))
        .resume(&active, CreateEvent::Recorded);
    assert!(matches!(skipped, Create::Failed(Failure::UnexpectedReply)));
    let inserted = |outcome| {
        let state = run_to_insert(&active, &mut Tables::new());
        state.resume(&active, CreateEvent::Inserted(outcome))
    };
    assert!(matches!(
        inserted(Err(StoreError::Unique("service_accounts_pkey".to_owned()))),
        Create::Failed(Failure::Constraint(name)) if name == "service_accounts_pkey"
    ));
    assert!(matches!(
        inserted(Err(StoreError::Plugin(ServiceAccountPluginError::Invariant("x")))),
        Create::Failed(Failure::Plugin(ServiceAccountPluginError::Invariant("x")))
    ));
    assert!(matches!(
        inserted(Err(StoreError::Unique("service_accounts_subject_unique".to_owned()))),
        Create::RecordError { error: CreateServiceAccountError::DirectoryRejected, .. }
    ));
}

fn run_to_insert(active: &ActiveServiceAccount, tables: &mut Tables) -> Create {
    let mut state = Create::start(active, Some("admin-api".to_owned()), create_request("k", "Bot"));
    loop {
        let event = match &state {
            Create::Enter { entry, .. } => CreateEvent::Entry(entry_event(entry, tables, b"i")),
            Create::EnsureIdentity { .. } => CreateEvent::IdentityEnsured(subject("usr_1")),
            Create::Insert { .. } => return state,
            _ => panic!("insert"),
        };
        state = state.resume(active, event);
    }
}

#[test]
fn intents_are_hashed_before_they_are_claimed() {
    let active = activated();
    let mut tables = Tables::new();
    run_to_insert(&active, &mut tables);
    assert_eq!(tables.commands.len(), 1);
    assert_eq!(tables.commands[0].intent_hash, digest(b"i"));
    assert_eq!(tables.commands[0].command.caller, "admin-api");
    assert_eq!(tables.commands[0].command.operation, "create");
    assert_eq!(tables.commands[0].command.idempotency_key, "k");
}

#[test]
fn unreadable_receipts_fail_closed() {
    let active = activated();
    let state = Admission::start("c".to_owned(), "create", "k", None, 300);
    let state = state.resume(&active.receipt_cipher, AdmissionEvent::Pruned);
    let state = state.resume(
        &active.receipt_cipher,
        AdmissionEvent::IntentEncoded(Ok(b"intent".to_vec())),
    );
    let state = state.resume(
        &active.receipt_cipher,
        AdmissionEvent::Claimed(CommandClaim::CompletedSuccess {
            nonce: vec![0; 12],
            ciphertext: vec![0; 40],
        }),
    );
    assert!(matches!(
        state,
        Admission::Failed(Failure::Plugin(ServiceAccountPluginError::Crypto(
            CryptoError::ReceiptDecryption
        )))
    ));
    let error = serde_json::from_slice::<bool>(b"x").expect_err("json");
    let state = Admission::start("c".to_owned(), "create", "k", None, 300)
        .resume(&active.receipt_cipher, AdmissionEvent::Pruned)
        .resume(&active.receipt_cipher, AdmissionEvent::IntentEncoded(Err(error)));
    assert!(matches!(
        state,
        Admission::Failed(Failure::Plugin(ServiceAccountPluginError::SerializeReceipt(_)))
    ));
    let error = serde_json::from_slice::<bool>(b"x").expect_err("json");
    let state = Create::DecodeReceipt { receipt: vec![] }
        .resume(&active, CreateEvent::ReceiptDecoded(Err(error)));
    assert!(matches!(
        state,
        Create::Failed(Failure::Plugin(ServiceAccountPluginError::Crypto(
            CryptoError::Deserialize(_)
        )))
    ));
}

#[test]
fn a_receipt_that_cannot_be_serialized_rolls_back() {
    let active = activated();
    let mut tables = Tables::new();
    let Create::Insert { command, account, max_accounts, .. } = run_to_insert(&active, &mut tables)
    else {
        panic!("insert");
    };
    let outcome = commit_creation(
        &mut tables,
        &active.receipt_cipher,
        &command,
        &account,
        max_accounts,
        now_utc(),
        |_: &CreateServiceAccountResponse| {
            Err(serde_json::from_slice::<bool>(b"x").expect_err("json"))
        },
    );
    assert!(matches!(
        outcome,
        Err(StoreError::Plugin(ServiceAccountPluginError::Crypto(CryptoError::Serialize(_))))
    ));
    assert!(tables.accounts.is_empty());
    assert!(tables.credentials.is_empty());
}

fn rotate_request(key: &str, id: &str, revision: &str) -> RotateServiceAccountSecretRequest {
    RotateServiceAccountSecretRequest {
        idempotency_key: key.to_owned(),
        organization_id: "org_1".to_owned(),
        service_account_id: id.to_owned(),
        expected_revision: revision.to_owned(),
    }
}

fn run_rotate(
    active: &ActiveServiceAccount,
    tables: &mut Tables,
    request: RotateServiceAccountSecretRequest,
    decoded: Option<RotateServiceAccountSecretResponse>,
) -> Rotate {
    let intent = format!("{:?}", request).into_bytes();
    let mut decoded = decoded;
    let mut state = Rotate::start(active, Some("admin-api".to_owned()), request);
    loop {
        let event = match &state {
            Rotate::Enter { entry, .. } => RotateEvent::Entry(entry_event(entry, tables, &intent)),
            Rotate::DecodeReceipt { receipt } => {
                let (_, rotated, secret): (String, bool, Option<String>) =
                    serde_json::from_slice(receipt).expect("receipt");
                assert!(rotated);
                assert_eq!(secret, None);
                RotateEvent::ReceiptDecoded(Ok(decoded.take().expect("decoded")))
            }
            Rotate::Update { command, rotation, .. } => {
                assert_eq!(rotation.overlap_until - rotation.valid_from, 300 * SECOND);
                assert_eq!(rotation.valid_until - rotation.valid_from, 86_400 * SECOND);
                RotateEvent::Updated(commit_rotation(
                    tables,
                    &active.receipt_cipher,
                    command,
                    rotation,
                    now_utc(),
                    encode_rotate,
                ))
            }
            Rotate::RecordError { command, code, .. } => {
                assert!(tables.complete_error(command, code, now_utc()).is_ok());
                RotateEvent::Recorded
            }
            Rotate::Done(_) | Rotate::Failed(_) => return state,
        };
        state = state.resume(active, event);
    }
}

fn rotate_refused(state: Rotate) -> RotateServiceAccountSecretError {
    match state {
        Rotate::Done(Err(error)) => error,
        _ => panic!("refused"),
    }
}

fn run_revoke(
    active: &ActiveServiceAccount,
    tables: &mut Tables,
    key: &str,
    id: &str,
    revision: &str,
    decoded: Option<RevokeServiceAccountResponse>,
) -> Revoke {
    let request = RevokeServiceAccountRequest {
        idempotency_key: key.to_owned(),
        organization_id: "org_1".to_owned(),
        service_account_id: id.to_owned(),
        expected_revision: revision.to_owned(),
    };
    let intent = format!("{:?}", request).into_bytes();
    let mut decoded = decoded;
    let mut state = Revoke::start(active, Some("admin-api".to_owned()), request);
    loop {
        let event = match &state {
            Revoke::Enter { entry, .. } => RevokeEvent::Entry(entry_event(entry, tables, &intent)),
            Revoke::DecodeReceipt { .. } => {
                RevokeEvent::ReceiptDecoded(Ok(decoded.take().expect("decoded")))
            }
            Revoke::Update { command, revocation } => RevokeEvent::Updated(commit_revocation(
                tables,
                &active.receipt_cipher,
                command,
                revocation,
                now_utc(),
                now_utc(),
                encode_revoke,
            )),
            Revoke::RecordError { command, code, .. } => {
                assert!(tables.complete_error(command, code, now_utc()).is_ok());
                RevokeEvent::Recorded
            }
            Revoke::Done(_) | Revoke::Failed(_) => return state,
        };
        state = state.resume(active, event);
    }
}

#[test]
fn rotation_replaces_the_secret() {
    let active = activated();
    let mut tables = Tables::new();
    let first = created(run_create(
        &active,
        &mut tables,
        create_request("create-1", "Bot"),
        subject("usr_1"),
        None,
    ));
    let id = first.account.service_account_id.clone();
    let Rotate::Done(Ok(rotated)) =
        run_rotate(&active, &mut tables, rotate_request("rotate-1", &id, "1"), None)
    else {
        panic!("rotated");
    };
    assert!(rotated.rotated);
    assert_eq!(rotated.account.revision, "2");
    assert!(rotated.account.rotated_at.0.is_some());
    let secret = rotated.secret.0.clone().expect("secret");
    assert_ne!(Some(&secret), first.secret.0.as_ref());
    let Rotate::Done(Ok(replayed)) = run_rotate(
        &active,
        &mut tables,
        rotate_request("rotate-1", &id, "1"),
        Some(rotated.clone()),
    ) else {
        panic!("replayed");
    };
    assert!(!replayed.rotated);
    assert_eq!(replayed.secret, Nullable(None));
    assert_eq!(replayed.account, rotated.account);

    for _ in 0..2 {
        let stale = run_rotate(&active, &mut tables, rotate_request("rotate-2", &id, "1"), None);
        assert_eq!(rotate_refused(stale), RotateServiceAccountSecretError::RevisionConflict);
        let missing = run_rotate(&active, &mut tables, rotate_request("rotate-3", "sa_9", "1"), None);
        assert_eq!(rotate_refused(missing), RotateServiceAccountSecretError::NotFound);
    }
    let other = run_rotate(&active, &mut tables, rotate_request("rotate-1", &id, "2"), None);
    assert_eq!(rotate_refused(other), RotateServiceAccountSecretError::IdempotencyConflict);
    let invalid = run_rotate(&active, &mut tables, rotate_request("rotate-4", &id, "02"), None);
    assert_eq!(rotate_refused(invalid), RotateServiceAccountSecretError::InvalidRequest);

    let Revoke::Done(Ok(revoked)) = run_revoke(&active, &mut tables, "revoke-1", &id, "2", None)
    else {
        panic!("revoked");
    };
    assert!(revoked.revoked);
    assert_eq!(revoked.account.status, ServiceAccountStatus::Revoked);
    for _ in 0..2 {
        let late = run_rotate(&active, &mut tables, rotate_request("rotate-5", &id, "3"), None);
        assert_eq!(rotate_refused(late), RotateServiceAccountSecretError::Revoked);
    }
}

#[test]
fn revocation_is_answered_once_and_then_replayed() {
    let active = activated();
    let mut tables = Tables::new();
    let first = created(run_create(
        &active,
        &mut tables,
        create_request("create-1", "Bot"),
        subject("usr_1"),
        None,
    ));
    let id = first.account.service_account_id.clone();
    let answer = |state: Revoke| match state {
        Revoke::Done(answer) => answer,
        _ => panic!("answer"),
    };
    assert_eq!(
        answer(run_revoke(&active, &mut tables, "r0", &id, "9", None)),
        Err(RevokeServiceAccountError::RevisionConflict)
    );
    assert_eq!(
        answer(run_revoke(&active, &mut tables, "r0", &id, "9", None)),
        Err(RevokeServiceAccountError::RevisionConflict)
    );
    assert_eq!(
        answer(run_revoke(&active, &mut tables, "r1", "sa_9", "1", None)),
        Err(RevokeServiceAccountError::NotFound)
    );
    assert_eq!(
        answer(run_revoke(&active, &mut tables, "r2", &id, "x", None)),
        Err(RevokeServiceAccountError::InvalidRequest)
    );
    let revoked = answer(run_revoke(&active, &mut tables, "r3", &id, "1", None)).expect("revoked");
    assert!(revoked.revoked);
    let replayed = answer(run_revoke(&active, &mut tables, "r3", &id, "1", Some(revoked.clone())))
        .expect("replayed");
    assert!(!replayed.revoked);
    assert_eq!(replayed.account, revoked.account);
    let again = answer(run_revoke(&active, &mut tables, "r4", &id, "2", None)).expect("again");
    assert!(!again.revoked);
    let state = Revoke::Update {
        command: tables.commands[0].command.copy(),
        revocation: lenso_service_account::storage::Revocation {
            organization_id: "org_1".to_owned(),
            service_account_id: id,
            expected_revision: 1,
        },
    }
    .resume(&active, RevokeEvent::Updated(Ok(Mutation::Revoked)));
    assert!(matches!(
        state,
        Revoke::Failed(Failure::Plugin(ServiceAccountPluginError::Invariant(
            "revocation returned an impossible state"
        )))
    ));
}

fn authorized_event(authorization: &Authorization) -> AuthorizationEvent {
    match authorization {
        Authorization::ProjectActor { .. } => user("usr_admin"),
        Authorization::CheckMembership { .. } => member(true),
        Authorization::CheckPermission { request, .. } => {
            assert_eq!(request.permission, READ_PERMISSION);
            allow(true)
        }
        _ => panic!("pending"),
    }
}

fn run_get(active: &ActiveServiceAccount, tables: &Tables, organization: &str, id: &str) -> Get {
    let mut state = Get::start(
        active,
        Some("admin-api".to_owned()),
        GetServiceAccountRequest {
            organization_id: organization.to_owned(),
            service_account_id: id.to_owned(),
        },
    );
    loop {
        let event = match &state {
            Get::Authorize { authorization, .. } => {
                GetEvent::Authorization(authorized_event(authorization))
            }
            Get::Load { organization_id, service_account_id } => {
                GetEvent::Loaded(tables.load_account(organization_id, service_account_id))
            }
            Get::Done(_) | Get::Failed(_) => return state,
        };
        state = state.resume(event);
    }
}

fn run_list(
    active: &ActiveServiceAccount,
    tables: &Tables,
    after: Option<&str>,
    limit: &str,
) -> List {
    let mut state = List::start(
        active,
        Some("admin-api".to_owned()),
        ListServiceAccountsRequest {
            organization_id: "org_1".to_owned(),
            after: Nullable(after.map(str::to_owned)),
            limit: limit.to_owned(),
        },
    );
    loop {
        let event = match &state {
            List::Authorize { authorization, .. } => {
                ListEvent::Authorization(authorized_event(authorization))
            }
            List::Load { organization_id, after, limit, row_limit } => {
                assert_eq!(*row_limit, u64::from(*limit) + 1);
                ListEvent::Loaded(tables.list_accounts(
                    organization_id,
                    after.as_deref(),
                    *row_limit as usize,
                ))
            }
            List::Done(_) | List::Failed(_) => return state,
        };
        state = state.resume(event);
    }
}

#[test]
fn accounts_are_shown_one_by_one_and_in_pages() {
    let active = activated();
    let mut tables = Tables::new();
    let mut ids = Vec::new();
    for n in 0..3 {
        let response = created(run_create(
            &active,
            &mut tables,
            create_request(&format!("create-{n}"), &format!("Bot {n}")),
            subject(&format!("usr_{n}")),
            None,
        ));
        ids.push(response.account.service_account_id);
    }
    ids.sort();
    let Get::Done(Ok(shown)) = run_get(&active, &tables, "org_1", &ids[0]) else {
        panic!("shown");
    };
    assert_eq!(shown.account.service_account_id, ids[0]);
    assert!(matches!(
        run_get(&active, &tables, "org_2", &ids[0]),
        Get::Done(Err(GetServiceAccountError::NotFound))
    ));
    assert!(matches!(
        run_get(&active, &tables, "org 1", &ids[0]),
        Get::Done(Err(GetServiceAccountError::InvalidRequest))
    ));

    let page = |after: Option<&str>, limit: &str| match run_list(&active, &tables, after, limit) {
        List::Done(Ok(response)) => (
            response
                .accounts
                .iter()
                .map(|account| account.service_account_id.clone())
                .collect::<Vec<_>>(),
            response.next_cursor.0,
        ),
        _ => panic!("page"),
    };
    let (first, cursor) = page(None, "2");
    assert_eq!(first, ids[..2]);
    assert_eq!(cursor.as_deref(), Some(ids[1].as_str()));
    let (second, cursor) = page(cursor.as_deref(), "2");
    assert_eq!(second, ids[2..]);
    assert_eq!(cursor, None);
    let mut followed = Vec::new();
    let mut cursor = None;
    loop {
        let (shown, next) = page(cursor.as_deref(), "1");
        followed.extend(shown);
        cursor = next;
        if cursor.is_none() {
            break;
        }
    }
    assert_eq!(followed, ids);
    let (exact, cursor) = page(Some(ids[0].as_str()), "2");
    assert_eq!(exact, ids[1..]);
    assert_eq!(cursor, None);
    for limit in ["0", "3", "02", ""] {
        assert!(matches!(
            run_list(&active, &tables, None, limit),
            List::Done(Err(ListServiceAccountsError::InvalidRequest))
        ));
    }
    assert!(matches!(
        run_list(&active, &tables, Some("bad cursor"), "1"),
        List::Done(Err(ListServiceAccountsError::InvalidRequest))
    ));
    tables.accounts[0].status = "paused".to_owned();
    let paused = tables.accounts[0].service_account_id.clone();
    assert!(matches!(
        run_get(&active, &tables, "org_1", &paused),
        Get::Failed(Failure::Plugin(ServiceAccountPluginError::Invariant(_)))
    ));
    assert!(matches!(
        Get::Failed(Failure::Relayed).resume(GetEvent::Loaded(None)),
        Get::Failed(Failure::UnexpectedReply)
    ));
    assert!(matches!(
        List::Failed(Failure::Relayed).resume(ListEvent::Loaded(vec![])),
        List::Failed(Failure::UnexpectedReply)
    ));
}

fn exchange_request(key: &str, secret: &str) -> ExchangeServiceAccountSecretRequest {
    ExchangeServiceAccountSecretRequest {
        idempotency_key: key.to_owned(),
        secret: secret.to_owned(),
    }
}

/// Runs an exchange until it asks for what `stop` accepts, or ends.
fn run_exchange(
    active: &ActiveServiceAccount,
    tables: &mut Tables,
    request: ExchangeServiceAccountSecretRequest,
    stop: fn(&Exchange) -> bool,
    decoded: Option<ExchangeServiceAccountSecretResponse>,
) -> Exchange {
    let intent = format!("{}{}", request.idempotency_key, request.secret).into_bytes();
    let mut decoded = decoded;
    let mut state = Exchange::start(active, Some("auth-ingress".to_owned()), request);
    loop {
        if stop(&state) {
            return state;
        }
        let event = match &state {
            Exchange::Admit { admission, .. } => {
                ExchangeEvent::Admission(admission_event(admission, tables, &intent))
            }
            Exchange::DecodeReceipt { receipt } => {
                assert_eq!(receipt, b"encoded answer");
                ExchangeEvent::ReceiptDecoded(Ok(decoded.take().expect("decoded")))
            }
            Exchange::ReserveSlot {
                command,
                now,
                window_seconds,
                max_attempts,
                lockout_seconds,
                ..
            } => ExchangeEvent::SlotReserved(tables.reserve_rate_slot(
                &command.caller,
                *now,
                *window_seconds,
                *max_attempts,
                *lockout_seconds,
            )),
            Exchange::LoadCredential { credential_id, .. } => {
                ExchangeEvent::CredentialLoaded(tables.load_credential(credential_id))
            }
            Exchange::ReadStatus { credential, .. } => {
                ExchangeEvent::StatusRead(StatusReply::Status {
                    subject: credential.subject.clone(),
                    active: true,
                })
            }
            Exchange::MarkIssuing { command, credential_id, service_account_id, now } => {
                ExchangeEvent::Marked(tables.mark_exchange_issuing(
                    &command.caller,
                    &command.idempotency_key,
                    credential_id,
                    service_account_id,
                    *now,
                ))
            }
            Exchange::Issue { order, .. } => ExchangeEvent::Issued(IssueReply::Session {
                session_id: "session_1".to_owned(),
                credential: "issued".to_owned(),
                expires_at: order.expires_at.clone(),
            }),
            Exchange::EncodeReceipt { .. } => {
                ExchangeEvent::ReceiptEncoded(Ok(b"encoded answer".to_vec()))
            }
            Exchange::StoreReceipt { command, nonce, ciphertext, .. } => {
                assert!(tables
                    .complete_success(command, nonce.clone(), ciphertext.clone(), now_utc())
                    .is_ok());
                ExchangeEvent::ReceiptStored
            }
            Exchange::RecordError { command, code, .. } => {
                assert!(tables.complete_error(command, code, now_utc()).is_ok());
                ExchangeEvent::Recorded
            }
            Exchange::Done(_) | Exchange::Failed(_) => return state,
        };
        state = state.resume(active, event);
    }
}

fn never(_: &Exchange) -> bool {
    false
}

fn exchange_refused(state: Exchange) -> ExchangeServiceAccountSecretError {
    match state {
        Exchange::Done(Err(error)) => error,
        _ => panic!("refused"),
    }
}

/// Tables with one account, its identifier and its secret.
fn one_account(active: &ActiveServiceAccount) -> (Tables, String, String) {
    let mut tables = Tables::new();
    let response = created(run_create(
        active,
        &mut tables,
        create_request("create-1", "Bot"),
        subject("usr_1"),
        None,
    ));
    (
        tables,
        response.account.service_account_id,
        response.secret.0.expect("secret"),
    )
}

#[test]
fn a_secret_is_exchanged_for_a_bounded_credential() {
    let active = activated();
    let (mut tables, id, secret) = one_account(&active);
    let before = now_utc();
    let ordered = run_exchange(
        &active,
        &mut tables,
        exchange_request("order", &secret),
        |state| matches!(state, Exchange::Issue { .. }),
        None,
    );
    let Exchange::Issue { expires_at, order, .. } = ordered else {
        panic!("issue");
    };
    assert!(expires_at >= before + 900 * SECOND);
    assert!(expires_at <= now_utc() + 900 * SECOND);
    assert_eq!(order.subject, "usr_1");
    assert_eq!(order.actor_kind, "service_account");
    assert_eq!(order.assurance, "service_account_secret");
    assert_eq!(order.audience, vec!["application"]);
    assert_eq!(
        order.claims,
        vec![
            ("organization_id".to_owned(), "org_1".to_owned()),
            ("service_account_id".to_owned(), id.clone()),
        ]
    );
    assert_eq!(order.expires_at, format_time(expires_at).ok().expect("text"));

    let Exchange::Done(Ok(answer)) =
        run_exchange(&active, &mut tables, exchange_request("x1", &secret), never, None)
    else {
        panic!("exchanged");
    };
    assert_eq!(answer.service_account_id, id);
    assert_eq!(answer.organization_id, "org_1");
    assert_eq!(answer.subject, "usr_1");
    assert_eq!(answer.session_id, "session_1");
    assert_eq!(answer.credential, "issued");
    // The same call again is answered from the receipt.
    let again = run_exchange(
        &active,
        &mut tables,
        exchange_request("x1", &secret),
        |state| matches!(state, Exchange::ReserveSlot { .. }),
        Some(answer.clone()),
    );
    assert!(matches!(again, Exchange::Done(Ok(replayed)) if replayed == answer));
    // The command that was ordered and never answered stays in progress.
    let pending = run_exchange(&active, &mut tables, exchange_request("order", &secret), never, None);
    assert_eq!(exchange_refused(pending), ExchangeServiceAccountSecretError::OperationInProgress);
    let conflict = run_exchange(&active, &mut tables, exchange_request("x1", "lenso_sa_other"), never, None);
    assert_eq!(exchange_refused(conflict), ExchangeServiceAccountSecretError::IdempotencyConflict);
}

#[test]
fn exchanges_end_with_the_credential_they_use() {
    let active = activated();
    let (mut tables, _, secret) = one_account(&active);
    let soon = now_utc() + 60 * SECOND;
    tables.credentials[0].valid_until = soon;
    let ordered = run_exchange(
        &active,
        &mut tables,
        exchange_request("order", &secret),
        |state| matches!(state, Exchange::Issue { .. }),
        None,
    );
    let Exchange::Issue { expires_at, .. } = ordered else {
        panic!("issue");
    };
    assert_eq!(expires_at, soon);
}

#[test]
fn callers_and_requests_of_exchanges_are_checked() {
    let active = activated();
    for caller in [None, Some("admin-api".to_owned())] {
        let state = Exchange::start(&active, caller, exchange_request("k", "secret"));
        assert_eq!(exchange_refused(state), ExchangeServiceAccountSecretError::Forbidden);
    }
    let long = "s".repeat(513);
    for (key, secret) in [("", "secret"), ("k", ""), ("k", long.as_str())] {
        let state = Exchange::start(
            &active,
            Some("auth-ingress".to_owned()),
            exchange_request(key, secret),
        );
        assert_eq!(exchange_refused(state), ExchangeServiceAccountSecretError::InvalidRequest);
    }
    assert!(matches!(
        Exchange::start(
            &active,
            Some("auth-ingress".to_owned()),
            exchange_request("k", &"s".repeat(512))
        ),
        Exchange::Admit { .. }
    ));
}

#[test]
fn bad_secrets_are_answered_alike() {
    let active = activated();
    let (mut tables, id, secret) = one_account(&active);
    let unknown = secret.replace("lenso_sa_sac_", "lenso_sa_sax_");
    let mut wrong = secret.clone();
    let last = wrong.pop().expect("secret");
    wrong.push(if last == 'A' { 'B' } else { 'A' });
    for (key, text) in [("malformed", "not a secret"), ("unknown", unknown.as_str()), ("wrong", wrong.as_str())] {
        for _ in 0..2 {
            let state = run_exchange(&active, &mut tables, exchange_request(key, text), never, None);
            assert_eq!(
                exchange_refused(state),
                ExchangeServiceAccountSecretError::InvalidCredentials
            );
        }
    }
    let until = tables.credentials[0].valid_until;
    tables.credentials[0].valid_until = now_utc();
    let expired = run_exchange(&active, &mut tables, exchange_request("expired", &secret), never, None);
    assert_eq!(exchange_refused(expired), ExchangeServiceAccountSecretError::InvalidCredentials);
    tables.credentials[0].valid_until = until;
    let from = tables.credentials[0].valid_from;
    tables.credentials[0].valid_from = until - SECOND;
    let early = run_exchange(&active, &mut tables, exchange_request("early", &secret), never, None);
    assert_eq!(exchange_refused(early), ExchangeServiceAccountSecretError::InvalidCredentials);
    tables.credentials[0].valid_from = from;
    assert!(matches!(
        run_revoke(&active, &mut tables, "revoke-1", &id, "1", None),
        Revoke::Done(Ok(_))
    ));
    let revoked = run_exchange(&active, &mut tables, exchange_request("revoked", &secret), never, None);
    assert_eq!(exchange_refused(revoked), ExchangeServiceAccountSecretError::InvalidCredentials);
}

#[test]
fn a_revocation_in_between_stops_the_exchange() {
    let active = activated();
    let (mut tables, id, secret) = one_account(&active);
    let state = run_exchange(
        &active,
        &mut tables,
        exchange_request("x1", &secret),
        |state| matches!(state, Exchange::MarkIssuing { .. }),
        None,
    );
    assert!(matches!(
        run_revoke(&active, &mut tables, "revoke-1", &id, "1", None),
        Revoke::Done(Ok(_))
    ));
    let Exchange::MarkIssuing { ref command, ref credential_id, ref service_account_id, now } = state
    else {
        panic!("mark");
    };
    let marked = tables.mark_exchange_issuing(
        &command.caller,
        &command.idempotency_key,
        credential_id,
        service_account_id,
        now,
    );
    assert!(marked.is_none());
    assert!(matches!(
        state.resume(&active, ExchangeEvent::Marked(marked)),
        Exchange::RecordError {
            error: ExchangeServiceAccountSecretError::InvalidCredentials,
            ..
        }
    ));
}

fn exchange_detail(state: Exchange) -> String {
    match state {
        Exchange::Failed(failure) => failure_detail(failure),
        _ => panic!("failed"),
    }
}

#[test]
fn the_directory_decides_on_the_subject() {
    let active = activated();
    let (mut tables, _, secret) = one_account(&active);
    let mut reply = |key: &str, reply: StatusReply| {
        run_exchange(
            &active,
            &mut tables,
            exchange_request(key, &secret),
            |state| matches!(state, Exchange::ReadStatus { .. }),
            None,
        )
        .resume(&active, ExchangeEvent::StatusRead(reply))
    };
    let status = |subject: &str, active: bool| StatusReply::Status {
        subject: subject.to_owned(),
        active,
    };
    assert!(matches!(reply("a", status("usr_1", true)), Exchange::MarkIssuing { .. }));
    for (key, answer) in [("b", status("usr_1", false)), ("c", StatusReply::Missing)] {
        assert!(matches!(
            reply(key, answer),
            Exchange::RecordError { error: ExchangeServiceAccountSecretError::Disabled, code, .. }
                if code == "disabled"
        ));
    }
    assert_eq!(
        exchange_detail(reply("d", status("usr_2", true))),
        "Identity Directory returned another subject for service-account status"
    );
    assert_eq!(
        exchange_detail(reply("e", StatusReply::Unknown)),
        "Identity Directory returned an unknown service-account status error"
    );
    assert_eq!(exchange_detail(reply("f", StatusReply::Failed)), "relayed");
    assert_eq!(
        exchange_detail(
            run_exchange(
                &active,
                &mut tables,
                exchange_request("g", &secret),
                |state| matches!(state, Exchange::ReadStatus { .. }),
                None,
            )
            .resume(&active, ExchangeEvent::ReceiptStored)
        ),
        "unexpected"
    );
}

#[test]
fn unfinished_operations_stay_in_progress() {
    let active = activated();
    let (mut tables, id, secret) = one_account(&active);
    let state = run_exchange(
        &active,
        &mut tables,
        exchange_request("lost", &secret),
        |state| matches!(state, Exchange::Issue { .. }),
        None,
    );
    assert_eq!(
        exchange_detail(state.resume(&active, ExchangeEvent::Issued(IssueReply::Indeterminate))),
        "Credential Issuer returned an indeterminate service-account result"
    );
    assert!(matches!(
        run_create(
            &active,
            &mut tables,
            create_request("lost", "Lost"),
            IdentityReply::Failed,
            None
        ),
        Create::Failed(Failure::Relayed)
    ));
    // Other calls and pruning in between change nothing.
    assert!(matches!(
        run_exchange(&active, &mut tables, exchange_request("other", &secret), never, None),
        Exchange::Done(Ok(_))
    ));
    assert!(matches!(
        run_rotate(&active, &mut tables, rotate_request("other", &id, "1"), None),
        Rotate::Done(Ok(_))
    ));
    tables.prune(now_utc() + 1_000_000 * SECOND, 300);
    for _ in 0..2 {
        let pending =
            run_exchange(&active, &mut tables, exchange_request("lost", &secret), never, None);
        assert_eq!(
            exchange_refused(pending),
            ExchangeServiceAccountSecretError::OperationInProgress
        );
        let pending = run_create(
            &active,
            &mut tables,
            create_request("lost", "Lost"),
            subject("usr_2"),
            None,
        );
        assert_eq!(create_refused(pending), CreateServiceAccountError::OperationInProgress);
    }
}

#[test]
fn refused_exchanges_are_refused_alike_when_repeated() {
    let active = activated();
    let (mut tables, id, secret) = one_account(&active);
    let wrong = format!("{}A", &secret[..secret.len() - 1]);
    let wrong = if wrong == secret { format!("{}B", &secret[..secret.len() - 1]) } else { wrong };
    for _ in 0..2 {
        let refused =
            run_exchange(&active, &mut tables, exchange_request("wrong", &wrong), never, None);
        assert_eq!(
            exchange_refused(refused),
            ExchangeServiceAccountSecretError::InvalidCredentials
        );
    }
    // The answer does not change with the account.
    assert!(matches!(
        run_revoke(&active, &mut tables, "revoke", &id, "1", None),
        Revoke::Done(Ok(_))
    ));
    let refused = run_exchange(
        &active,
        &mut tables,
        exchange_request("wrong", &wrong),
        |state| matches!(state, Exchange::ReserveSlot { .. }),
        None,
    );
    assert_eq!(exchange_refused(refused), ExchangeServiceAccountSecretError::InvalidCredentials);
}

#[test]
fn issuer_replies_are_checked() {
    let active = activated();
    let (mut tables, _, secret) = one_account(&active);
    let mut reply = |key: &str, build: &dyn Fn(i128) -> IssueReply| {
        let state = run_exchange(
            &active,
            &mut tables,
            exchange_request(key, &secret),
            |state| matches!(state, Exchange::Issue { .. }),
            None,
        );
        let Exchange::Issue { expires_at, .. } = &state else {
            panic!("issue");
        };
        let answer = build(*expires_at);
        state.resume(&active, ExchangeEvent::Issued(answer))
    };
    let session = |id: &str, credential: &str, expires_at: String| IssueReply::Session {
        session_id: id.to_owned(),
        credential: credential.to_owned(),
        expires_at,
    };
    let text = |instant: i128| format_time(instant).ok().expect("text");
    assert!(matches!(
        reply("ok", &|at| session("s", "c", text(at))),
        Exchange::EncodeReceipt { .. }
    ));
    assert!(matches!(
        reply("longest", &|at| session(&"s".repeat(256), &"c".repeat(65_536), text(at))),
        Exchange::EncodeReceipt { .. }
    ));
    let invalid = "Credential Issuer returned an invalid service-account credential";
    assert_eq!(exchange_detail(reply("a", &|at| session("", "c", text(at)))), invalid);
    assert_eq!(exchange_detail(reply("b", &|at| session(&"s".repeat(257), "c", text(at)))), invalid);
    assert_eq!(exchange_detail(reply("c", &|at| session("s", "", text(at)))), invalid);
    assert_eq!(
        exchange_detail(reply("d", &|at| session("s", &"c".repeat(65_537), text(at)))),
        invalid
    );
    assert_eq!(
        exchange_detail(reply("e", &|_| session("s", "c", "later".to_owned()))),
        "Credential Issuer returned an invalid service-account expiry"
    );
    let exceeded = "Credential Issuer exceeded the bounded service-account expiry";
    assert_eq!(exchange_detail(reply("f", &|at| session("s", "c", text(at + 1)))), exceeded);
    assert_eq!(
        exchange_detail(reply("g", &|_| session("s", "c", text(now_utc() - SECOND)))),
        exceeded
    );
    assert!(matches!(
        reply("h", &|_| IssueReply::Disabled),
        Exchange::RecordError { error: ExchangeServiceAccountSecretError::Disabled, .. }
    ));
    assert_eq!(
        exchange_detail(reply("i", &|_| IssueReply::Indeterminate)),
        "Credential Issuer returned an indeterminate service-account result"
    );
    assert_eq!(exchange_detail(reply("j", &|_| IssueReply::Failed)), "relayed");
}

#[test]
fn the_rate_limit_refuses_before_the_secret_is_looked_at() {
    let mut active = activated();
    active.config.max_exchanges_per_window = 1;
    let (mut tables, _, secret) = one_account(&active);
    assert!(matches!(
        run_exchange(&active, &mut tables, exchange_request("x1", &secret), never, None),
        Exchange::Done(Ok(_))
    ));
    for _ in 0..2 {
        let refused = run_exchange(
            &active,
            &mut tables,
            exchange_request("x2", &secret),
            |state| matches!(state, Exchange::LoadCredential { .. }),
            None,
        );
        assert_eq!(exchange_refused(refused), ExchangeServiceAccountSecretError::RateLimited);
    }
}

#[test]
fn an_exchange_that_expires_at_once_is_refused() {
    let mut active = activated();
    active.config.token_ttl_seconds = 0;
    let (mut tables, _, secret) = one_account(&active);
    let refused = run_exchange(&active, &mut tables, exchange_request("x1", &secret), never, None);
    assert_eq!(exchange_refused(refused), ExchangeServiceAccountSecretError::InvalidCredentials);
}

#[test]
fn exchange_receipts_are_sealed_for_their_command() {
    let active = activated();
    let (mut tables, _, secret) = one_account(&active);
    let state = run_exchange(
        &active,
        &mut tables,
        exchange_request("x1", &secret),
        |state| matches!(state, Exchange::StoreReceipt { .. }),
        None,
    );
    let Exchange::StoreReceipt { nonce, ciphertext, .. } = state else {
        panic!("store");
    };
    assert_eq!(
        active
            .receipt_cipher
            .decrypt(&nonce, &ciphertext, b"auth-ingress\0exchange_secret\0x1")
            .ok()
            .expect("receipt"),
        b"encoded answer"
    );
    assert!(active
        .receipt_cipher
        .decrypt(&nonce, &ciphertext, b"auth-ingress\0exchange_secret\0x2")
        .is_err());
    let encoding = run_exchange(
        &active,
        &mut tables,
        exchange_request("x3", &secret),
        |state| matches!(state, Exchange::EncodeReceipt { .. }),
        None,
    );
    let error = serde_json::from_slice::<bool>(b"x").expect_err("json");
    assert!(matches!(
        encoding.resume(&active, ExchangeEvent::ReceiptEncoded(Err(error))),
        Exchange::Failed(Failure::Plugin(ServiceAccountPluginError::Crypto(
            CryptoError::Serialize(_)
        )))
    ));
}

#[test]
fn exchanges_can_be_replayed_at_a_given_instant() {
    let active = activated();
    let (mut tables, _, secret) = one_account(&active);
    let state = run_exchange(
        &active,
        &mut tables,
        exchange_request("x1", &secret),
        |state| matches!(state, Exchange::MarkIssuing { .. }),
        None,
    );
    let Exchange::MarkIssuing { ref command, ref credential_id, ref service_account_id, now } = state
    else {
        panic!("mark");
    };
    let marked = tables.mark_exchange_issuing(
        &command.caller,
        &command.idempotency_key,
        credential_id,
        service_account_id,
        now,
    );
    let Exchange::Issue { expires_at, .. } =
        state.resume_at(&active, ExchangeEvent::Marked(marked), now + 5)
    else {
        panic!("issue");
    };
    assert_eq!(expires_at, now + 5 + 900 * SECOND);
}
