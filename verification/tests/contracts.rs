//! Diagnostics of requests and answers, and the owned schema.

use lenso_service_account::auth_contract::{
    ExchangeServiceAccountSecretRequest, ExchangeServiceAccountSecretResponse,
};
use lenso_service_account::contract::{
    CreateServiceAccountResponse, Nullable, RotateServiceAccountSecretResponse,
    ServiceAccountStatus, ServiceAccountSummary,
};
use lenso_service_account::operator::ServiceAccountOperator;
use lenso_service_account::schema::{schema_plan, MIGRATION_SQL};

#[test]
fn exchange_debug_redacts_input_secret_and_issued_credential() {
    let request = ExchangeServiceAccountSecretRequest {
        idempotency_key: "exchange-1".to_owned(),
        secret: "lenso_sa_do_not_log".to_owned(),
    };
    let response = ExchangeServiceAccountSecretResponse {
        service_account_id: "sa_test".to_owned(),
        organization_id: "org_test".to_owned(),
        subject: "usr_machine".to_owned(),
        session_id: "session_test".to_owned(),
        credential: "issued_do_not_log".to_owned(),
        expires_at: "2026-08-30T00:15:00Z".to_owned(),
    };
    assert!(!request.debug_text().contains("do_not_log"));
    assert!(!response.debug_text().contains("do_not_log"));
    assert!(request.debug_text().contains("<redacted>"));
    assert!(response.debug_text().contains("<redacted>"));
}

#[test]
fn exchange_diagnostics_show_the_other_fields() {
    let request = ExchangeServiceAccountSecretRequest {
        idempotency_key: "exchange-1".to_owned(),
        secret: "lenso_sa_do_not_log".to_owned(),
    };
    assert_eq!(
        request.debug_text(),
        "ExchangeServiceAccountSecretRequest { idempotency_key: \"exchange-1\", secret: \"<redacted>\" }"
    );
    let response = ExchangeServiceAccountSecretResponse {
        service_account_id: "sa_test".to_owned(),
        organization_id: "org_test".to_owned(),
        subject: "usr_machine".to_owned(),
        session_id: "session_test".to_owned(),
        credential: "issued_do_not_log".to_owned(),
        expires_at: "2026-08-30T00:15:00Z".to_owned(),
    };
    assert_eq!(
        response.debug_text(),
        "ExchangeServiceAccountSecretResponse { credential: \"<redacted>\", expires_at: \"2026-08-30T00:15:00Z\", organization_id: \"org_test\", service_account_id: \"sa_test\", session_id: \"session_test\", subject: \"usr_machine\" }"
    );
}

fn account() -> ServiceAccountSummary {
    ServiceAccountSummary {
        service_account_id: "sa_test".to_owned(),
        organization_id: "org_test".to_owned(),
        subject: "usr_machine".to_owned(),
        name: "Build bot".to_owned(),
        status: ServiceAccountStatus::Active,
        revision: "1".to_owned(),
        created_at: "2026-08-30T00:00:00Z".to_owned(),
        rotated_at: Nullable(None),
        revoked_at: Nullable(None),
        credential_expires_at: Nullable(Some("2026-08-31T00:00:00Z".to_owned())),
    }
}

#[test]
fn create_and_rotate_debug_redact_raw_secrets() {
    let create = CreateServiceAccountResponse {
        account: account(),
        created: true,
        secret: Nullable(Some("lenso_sa_do_not_log".to_owned())),
    };
    let rotate = RotateServiceAccountSecretResponse {
        account: account(),
        rotated: true,
        secret: Nullable(Some("lenso_sa_do_not_log".to_owned())),
    };
    assert!(!create.debug_text().contains("do_not_log"));
    assert!(!rotate.debug_text().contains("do_not_log"));
    assert!(create.debug_text().contains("<redacted>"));
    assert!(rotate.debug_text().contains("<redacted>"));
}

#[test]
fn account_diagnostics_show_every_field() {
    assert_eq!(
        account().debug_text(),
        "ServiceAccountSummary { created_at: \"2026-08-30T00:00:00Z\", credential_expires_at: Some(\"2026-08-31T00:00:00Z\"), name: \"Build bot\", organization_id: \"org_test\", revision: \"1\", revoked_at: None, rotated_at: None, service_account_id: \"sa_test\", status: Active, subject: \"usr_machine\" }"
    );
    let rotate = RotateServiceAccountSecretResponse {
        account: ServiceAccountSummary {
            status: ServiceAccountStatus::Revoked,
            ..account()
        },
        rotated: false,
        secret: Nullable(None),
    };
    assert!(rotate
        .debug_text()
        .starts_with("RotateServiceAccountSecretResponse { account: ServiceAccountSummary { "));
    assert!(rotate
        .debug_text()
        .ends_with("status: Revoked, subject: \"usr_machine\" }, rotated: false, secret: \"<redacted>\" }"));
}

#[test]
fn diagnostics_escape_text_as_the_standard_library_does() {
    let request = ExchangeServiceAccountSecretRequest {
        idempotency_key: "a\"b\n".to_owned(),
        secret: String::new(),
    };
    assert!(request.debug_text().contains(&format!("{:?}", "a\"b\n")));
}

#[test]
fn schema_owns_credentials_revisions_commands_and_rate_limits() {
    let sql = MIGRATION_SQL;
    assert!(sql.contains("service_accounts_organization_name_unique"));
    assert!(sql.contains("service_accounts_subject_unique"));
    assert!(sql.contains("verifier TEXT NOT NULL"));
    assert!(sql.contains("valid_until TIMESTAMPTZ NOT NULL"));
    assert!(sql.contains("PRIMARY KEY (caller_instance, operation, idempotency_key)"));
    assert!(sql.contains("service_account_exchange_limits"));
}

#[test]
fn unsafe_schema_name_is_rejected() {
    assert!(schema_plan("public; DROP SCHEMA public".to_owned()).is_err());
}

#[test]
fn a_plan_is_for_the_schema_it_was_made_for() {
    let plan = ServiceAccountOperator::plan("service_accounts").expect("plan");
    assert_eq!(plan.schema(), "service_accounts");
    assert_eq!(plan.current_version(), 1);
    for refused in [
        "",
        "public",
        "information_schema",
        "pg_catalog",
        "Accounts",
        "1accounts",
        "service-accounts",
        "\u{e9}t\u{e9}",
    ] {
        assert!(ServiceAccountOperator::plan(refused).is_err());
    }
    assert!(ServiceAccountOperator::plan(&"a".repeat(63)).is_ok());
    assert!(ServiceAccountOperator::plan(&"a".repeat(64)).is_err());
    assert_eq!(
        format!("{:?}", ServiceAccountOperator::default()),
        "ServiceAccountOperator"
    );
}
