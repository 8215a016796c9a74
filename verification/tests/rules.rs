//! Text rules, instants, identifiers and codes.

use lenso_service_account::admission::{command_aad, receipt_aad};
use lenso_service_account::authentication::exchange_error;
use lenso_service_account::authorization::{valid_subject, AuthorizationError, UserActor};
use lenso_service_account::auth_contract::{
    ExchangeServiceAccountSecretError, EXCHANGE_SECRET_OPERATION,
};
use lenso_service_account::contract::{
    CreateServiceAccountError, GetServiceAccountError, ListServiceAccountsError, Nullable,
    RevokeServiceAccountError, RevokeServiceAccountRequest, RotateServiceAccountSecretError,
    RotateServiceAccountSecretRequest, ServiceAccountStatus, CAPABILITY_ID,
};
use lenso_service_account::error::{Failure, ServiceAccountPluginError};
use lenso_service_account::instant::{
    debug_instant, debug_optional_instant, earliest, format_time, is_calendar_instant, later,
    now_utc, parse_time, to_stored,
};
use lenso_service_account::management::{
    create_error, identifier, map_authorization, map_create_authorization, map_get_authorization,
    map_list_authorization, map_revoke_authorization, map_rotate_authorization, parse_page_limit,
    parse_revision, random_id, revoke_error, rotate_error, summary, valid_idempotency_key,
    valid_revocation, valid_rotation, AuthorizationDomain,
};
use lenso_service_account::rows::{AccountRow, CommandClaim, CommandKey, CredentialRow};
use lenso_service_account::text::{
    copy_bytes, copy_texts, decimal, parse_positive, precedes, same_bytes, same_text, to_lowercase,
    trim, valid_name, valid_token,
};

#[test]
fn tokens_are_letters_digits_and_four_signs() {
    assert!(valid_token("aZ09-_.:", 8));
    assert!(!valid_token("aZ09-_.:", 7));
    assert!(!valid_token("", 8));
    for refused in ["a b", "a/b", "a\u{0}", "\u{e9}", "a\n"] {
        assert!(!valid_token(refused, 128));
    }
    assert!(valid_idempotency_key(&"k".repeat(128)));
    assert!(!valid_idempotency_key(&"k".repeat(129)));
    assert!(valid_subject(&"s".repeat(256)));
    assert!(!valid_subject(&"s".repeat(257)));
}

#[test]
fn names_are_trimmed_printable_ascii() {
    assert!(valid_name("Release bot"));
    assert!(valid_name("  Release bot\u{a0}\n"));
    assert!(valid_name(&format!(" {} ", "n".repeat(128))));
    for refused in ["", "   ", "tab\tinside", "caf\u{e9}", "del\u{7f}", &"n".repeat(129)] {
        assert!(!valid_name(refused));
    }
    assert_eq!(trim(" \t Release bot \u{2003}"), "Release bot");
    assert_eq!(trim("\u{3000}"), "");
    assert_eq!(to_lowercase("Release BOT \u{c9}"), "release bot \u{c9}");
}

#[test]
fn revisions_are_canonical_positive_decimals() {
    assert_eq!(parse_revision("1"), Some(1));
    assert_eq!(parse_revision("9223372036854775807"), Some(i64::MAX));
    for refused in [
        "", "0", "-1", "+1", "01", "1 ", " 1", "1.0", "9223372036854775808",
        "99999999999999999999999999", "one",
    ] {
        assert_eq!(parse_revision(refused), None);
    }
    for revision in [1, 9, 10, 42, 1_000_000_007, i64::MAX] {
        assert_eq!(parse_revision(&decimal(revision)), Some(revision));
    }
    assert_eq!(decimal(0), "0");
    assert_eq!(decimal(-120), "-120");
    assert_eq!(decimal(i64::MIN), "-9223372036854775808");
    assert_eq!(parse_positive("7", 7), Some(7));
    assert_eq!(parse_positive("8", 7), None);
    assert_eq!(parse_positive("18446744073709551615", u64::MAX), Some(u64::MAX));
    assert_eq!(parse_positive("18446744073709551616", u64::MAX), None);
}

#[test]
fn page_limits_are_bounded() {
    assert_eq!(parse_page_limit("1", 100), Some(1));
    assert_eq!(parse_page_limit("100", 100), Some(100));
    for refused in ["101", "0", "", "010", "-5", "4294967296"] {
        assert_eq!(parse_page_limit(refused, 100), None);
    }
    assert_eq!(parse_page_limit("1", 0), None);
}

#[test]
fn rotation_and_revocation_requests_are_checked() {
    let rotation = |key: &str, organization: &str, account: &str, revision: &str| {
        valid_rotation(&RotateServiceAccountSecretRequest {
            idempotency_key: key.to_owned(),
            organization_id: organization.to_owned(),
            service_account_id: account.to_owned(),
            expected_revision: revision.to_owned(),
        })
    };
    let revocation = |key: &str, organization: &str, account: &str, revision: &str| {
        valid_revocation(&RevokeServiceAccountRequest {
            idempotency_key: key.to_owned(),
            organization_id: organization.to_owned(),
            service_account_id: account.to_owned(),
            expected_revision: revision.to_owned(),
        })
    };
    assert_eq!(rotation("k", "org", "sa", "3"), Some(3));
    assert_eq!(revocation("k", "org", "sa", "3"), Some(3));
    let long = "x".repeat(129);
    for (key, organization, account, revision) in [
        ("", "org", "sa", "3"),
        (long.as_str(), "org", "sa", "3"),
        ("k", "o g", "sa", "3"),
        ("k", "org", "", "3"),
        ("k", "org", long.as_str(), "3"),
        ("k", "org", "sa", "03"),
    ] {
        assert_eq!(rotation(key, organization, account, revision), None);
        assert_eq!(revocation(key, organization, account, revision), None);
    }
}

#[test]
fn receipts_are_bound_to_caller_operation_and_key() {
    assert_eq!(
        receipt_aad("admin-api", "create", "create-1"),
        b"admin-api\0create\0create-1"
    );
    let command = CommandKey {
        caller: "admin-api".to_owned(),
        operation: "create".to_owned(),
        idempotency_key: "create-1".to_owned(),
    };
    assert_eq!(command_aad(&command), b"admin-api\0create\0create-1");
    assert_ne!(receipt_aad("a", "bc", "d"), receipt_aad("ab", "c", "d"));
    assert!(command.same(&command.copy()));
    assert!(!command.same(&CommandKey {
        caller: "other".to_owned(),
        ..command.copy()
    }));
}

#[test]
fn identifiers_are_prefixed_base64() {
    assert_eq!(identifier("sa_", &[0xff_u8; 24]), format!("sa_{}", "_".repeat(32)));
    let id = random_id("sa_").ok().expect("id");
    assert_eq!(id.len(), 35);
    assert!(id.starts_with("sa_"));
    assert!(valid_token(&id, 128));
    assert_ne!(id, random_id("sa_").ok().expect("id"));
    let longest = random_id(&"p".repeat(96)).ok().expect("id");
    assert_eq!(longest.len(), 128);
    assert!(valid_token(&longest, 128));
    assert_eq!(identifier("x", &[0xff]), "x_w");
}

#[test]
fn text_helpers_compare_and_copy() {
    assert!(same_text("caf\u{e9}", "caf\u{e9}"));
    assert!(!same_text("cafe", "caf\u{e9}"));
    assert!(!same_text("a", "ab"));
    assert!(same_bytes(&[1, 2], &[1, 2]));
    assert!(!same_bytes(&[1, 2], &[1, 3]));
    assert!(!same_bytes(&[1], &[1, 2]));
    assert_eq!(copy_bytes(&[3, 1]), vec![3, 1]);
    assert_eq!(copy_texts(&vec!["a".to_owned()]), vec!["a".to_owned()]);
    assert!(precedes("a", "b"));
    assert!(precedes("a", "aa"));
    assert!(precedes("", "a"));
    assert!(precedes("Z", "a"));
    assert!(!precedes("b", "a"));
    assert!(!precedes("a", "a"));
}

#[test]
fn instants_have_rfc_3339_forms() {
    assert_eq!(format_time(0).ok().expect("text"), "1970-01-01T00:00:00Z");
    assert_eq!(
        format_time(1_788_048_000_123_456_000).ok().expect("text"),
        "2026-08-30T00:00:00.123456Z"
    );
    assert_eq!(
        format_time(253_402_300_799_999_999_999).ok().expect("text"),
        "9999-12-31T23:59:59.999999999Z"
    );
    assert!(format_time(253_402_300_800_000_000_000).is_err());
    assert!(matches!(
        format_time(-62_167_219_200_000_000_001),
        Err(ServiceAccountPluginError::FormatTime(_))
    ));
    assert!(format_time(-62_167_219_200_000_000_000).is_ok());
    assert_eq!(parse_time("1970-01-01T00:00:01Z"), Some(1_000_000_000));
    assert_eq!(parse_time("1970-01-01T01:00:01+01:00"), Some(1_000_000_000));
    assert_eq!(parse_time("tomorrow"), None);
    assert_eq!(later(5, 2), 2_000_000_005);
    assert_eq!(earliest(3, 4), 3);
    assert_eq!(earliest(4, 3), 3);
    assert!(now_utc() > 1_700_000_000_000_000_000);
    assert!(is_calendar_instant(now_utc()));
    assert!(!is_calendar_instant(i128::MAX));
}

#[test]
fn the_store_keeps_microseconds() {
    assert_eq!(to_stored(946_684_800_000_000_000), 946_684_800_000_000_000);
    assert_eq!(to_stored(946_684_800_000_001_999), 946_684_800_000_001_000);
    assert_eq!(to_stored(946_684_799_999_999_999), 946_684_800_000_000_000);
    assert_eq!(to_stored(1_001), 2_000);
    assert_eq!(to_stored(-1), 0);
    assert_eq!(to_stored(-1_000), -1_000);
    assert_eq!(to_stored(-1_001), -1_000);
    assert_eq!(to_stored(i128::MIN) - i128::MIN, 728);
}

#[test]
fn diagnostics_write_instants_as_dates() {
    assert_eq!(debug_instant(0), "1970-01-01 0:00:00.0 +00:00:00");
    assert_eq!(debug_optional_instant(None), "None");
    assert_eq!(debug_optional_instant(Some(0)), "Some(1970-01-01 0:00:00.0 +00:00:00)");
    assert_eq!(debug_instant(i128::MAX), "<out of range>");
}

#[test]
fn users_are_read_from_assertions_about_users() {
    assert_eq!(
        UserActor::from_assertion("user", "usr_1").ok().expect("user").subject,
        "usr_1"
    );
    let Err(error) = UserActor::from_assertion("service_account", "usr_1") else {
        panic!("refused");
    };
    assert_eq!(error.expected, "user");
    assert_eq!(error.actual, "service_account");
}

#[test]
fn recorded_codes_stand_for_their_errors() {
    assert_eq!(create_error("name_conflict").ok(), Some(CreateServiceAccountError::NameConflict));
    assert_eq!(
        create_error("directory_rejected").ok(),
        Some(CreateServiceAccountError::DirectoryRejected)
    );
    assert_eq!(
        create_error("too_many_service_accounts").ok(),
        Some(CreateServiceAccountError::TooManyServiceAccounts)
    );
    assert_eq!(rotate_error("not_found").ok(), Some(RotateServiceAccountSecretError::NotFound));
    assert_eq!(rotate_error("revoked").ok(), Some(RotateServiceAccountSecretError::Revoked));
    assert_eq!(
        rotate_error("revision_conflict").ok(),
        Some(RotateServiceAccountSecretError::RevisionConflict)
    );
    assert_eq!(revoke_error("not_found").ok(), Some(RevokeServiceAccountError::NotFound));
    assert_eq!(
        revoke_error("revision_conflict").ok(),
        Some(RevokeServiceAccountError::RevisionConflict)
    );
    assert_eq!(
        exchange_error("invalid_credentials").ok(),
        Some(ExchangeServiceAccountSecretError::InvalidCredentials)
    );
    assert_eq!(
        exchange_error("rate_limited").ok(),
        Some(ExchangeServiceAccountSecretError::RateLimited)
    );
    assert_eq!(
        exchange_error("disabled").ok(),
        Some(ExchangeServiceAccountSecretError::Disabled)
    );
    assert!(matches!(
        create_error("revoked"),
        Err(ServiceAccountPluginError::Invariant("unknown create receipt error"))
    ));
    assert!(matches!(
        rotate_error("name_conflict"),
        Err(ServiceAccountPluginError::Invariant("unknown rotate receipt error"))
    ));
    assert!(matches!(
        revoke_error("revoked"),
        Err(ServiceAccountPluginError::Invariant("unknown revoke receipt error"))
    ));
    assert!(matches!(
        exchange_error(""),
        Err(ServiceAccountPluginError::Invariant("unknown exchange receipt error"))
    ));
}

#[test]
fn refusals_map_to_each_operation() {
    let errors = || {
        vec![
            AuthorizationError::Forbidden,
            AuthorizationError::OrganizationNotFound,
            AuthorizationError::MembershipRequired,
            AuthorizationError::AccessDenied,
        ]
    };
    let create: Vec<_> = errors().into_iter().map(|e| map_create_authorization(e).ok()).collect();
    assert_eq!(
        create,
        vec![
            Some(CreateServiceAccountError::Forbidden),
            Some(CreateServiceAccountError::OrganizationNotFound),
            Some(CreateServiceAccountError::MembershipRequired),
            Some(CreateServiceAccountError::AccessDenied),
        ]
    );
    let get: Vec<_> = errors().into_iter().map(|e| map_get_authorization(e).ok()).collect();
    assert_eq!(
        get,
        vec![
            Some(GetServiceAccountError::Forbidden),
            Some(GetServiceAccountError::OrganizationNotFound),
            Some(GetServiceAccountError::MembershipRequired),
            Some(GetServiceAccountError::AccessDenied),
        ]
    );
    let list: Vec<_> = errors().into_iter().map(|e| map_list_authorization(e).ok()).collect();
    assert_eq!(
        list,
        vec![
            Some(ListServiceAccountsError::Forbidden),
            Some(ListServiceAccountsError::OrganizationNotFound),
            Some(ListServiceAccountsError::MembershipRequired),
            Some(ListServiceAccountsError::AccessDenied),
        ]
    );
    let rotate: Vec<_> = errors().into_iter().map(|e| map_rotate_authorization(e).ok()).collect();
    assert_eq!(
        rotate,
        vec![
            Some(RotateServiceAccountSecretError::Forbidden),
            Some(RotateServiceAccountSecretError::OrganizationNotFound),
            Some(RotateServiceAccountSecretError::MembershipRequired),
            Some(RotateServiceAccountSecretError::AccessDenied),
        ]
    );
    let revoke: Vec<_> = errors().into_iter().map(|e| map_revoke_authorization(e).ok()).collect();
    assert_eq!(
        revoke,
        vec![
            Some(RevokeServiceAccountError::Forbidden),
            Some(RevokeServiceAccountError::OrganizationNotFound),
            Some(RevokeServiceAccountError::MembershipRequired),
            Some(RevokeServiceAccountError::AccessDenied),
        ]
    );
    assert!(matches!(
        map_create_authorization(AuthorizationError::Runtime(Failure::Relayed)),
        Err(Failure::Relayed)
    ));
    assert!(matches!(
        map_authorization(AuthorizationError::AccessDenied),
        Ok(AuthorizationDomain::AccessDenied)
    ));
}

fn account_row() -> AccountRow {
    AccountRow {
        service_account_id: "sa_1".to_owned(),
        organization_id: "org_1".to_owned(),
        subject: "usr_1".to_owned(),
        name: "Release bot".to_owned(),
        status: "active".to_owned(),
        revision: 12,
        created_at: 0,
        rotated_at: Some(1_000_000_000),
        revoked_at: None,
        credential_expires_at: Some(2_000_000_000),
    }
}

#[test]
fn summaries_show_the_row() {
    let shown = summary(&account_row()).ok().expect("summary");
    assert_eq!(shown.service_account_id, "sa_1");
    assert_eq!(shown.organization_id, "org_1");
    assert_eq!(shown.subject, "usr_1");
    assert_eq!(shown.name, "Release bot");
    assert_eq!(shown.status, ServiceAccountStatus::Active);
    assert_eq!(shown.revision, "12");
    assert_eq!(shown.created_at, "1970-01-01T00:00:00Z");
    assert_eq!(shown.rotated_at, Nullable(Some("1970-01-01T00:00:01Z".to_owned())));
    assert_eq!(shown.revoked_at, Nullable(None));
    assert_eq!(shown.credential_expires_at, Nullable(Some("1970-01-01T00:00:02Z".to_owned())));
    let revoked = AccountRow {
        status: "revoked".to_owned(),
        revoked_at: Some(3_000_000_000),
        ..account_row()
    };
    let shown = summary(&revoked).ok().expect("summary");
    assert_eq!(shown.status, ServiceAccountStatus::Revoked);
    assert_eq!(shown.revoked_at, Nullable(Some("1970-01-01T00:00:03Z".to_owned())));
    let unknown = AccountRow {
        status: "paused".to_owned(),
        ..account_row()
    };
    assert!(matches!(
        summary(&unknown),
        Err(ServiceAccountPluginError::Invariant("unknown service-account status"))
    ));
    let far = AccountRow {
        credential_expires_at: Some(253_402_300_800_000_000_000),
        ..account_row()
    };
    assert!(matches!(summary(&far), Err(ServiceAccountPluginError::FormatTime(_))));
}

#[test]
fn rows_and_claims_are_redacted_in_diagnostics() {
    let row = CredentialRow {
        credential_id: "sac_1".to_owned(),
        service_account_id: "sa_1".to_owned(),
        organization_id: "org_1".to_owned(),
        subject: "usr_1".to_owned(),
        account_status: "active".to_owned(),
        verifier: "$argon2id$do_not_log".to_owned(),
        valid_from: 0,
        valid_until: 1_000_000_000,
        revoked_at: None,
    };
    assert_eq!(
        row.debug_text(),
        "CredentialRow { credential_id: \"sac_1\", service_account_id: \"sa_1\", organization_id: \"org_1\", subject: \"usr_1\", account_status: \"active\", verifier: \"<redacted>\", valid_from: 1970-01-01 0:00:00.0 +00:00:00, valid_until: 1970-01-01 0:00:01.0 +00:00:00, revoked_at: None }"
    );
    assert_eq!(CommandClaim::Claimed.debug_text(), "Claimed");
    assert_eq!(CommandClaim::Conflict.debug_text(), "Conflict");
    assert_eq!(CommandClaim::InProgress.debug_text(), "InProgress");
    assert_eq!(
        CommandClaim::CompletedError("revoked".to_owned()).debug_text(),
        "CompletedError(\"revoked\")"
    );
    assert_eq!(
        CommandClaim::CompletedSuccess { nonce: vec![1], ciphertext: vec![2] }.debug_text(),
        "CompletedSuccess { receipt: \"<redacted>\" }"
    );
}

#[test]
fn operations_have_their_names() {
    assert_eq!(CAPABILITY_ID, "lenso.service-account@1");
    assert_eq!(EXCHANGE_SECRET_OPERATION, "exchange_secret");
}
