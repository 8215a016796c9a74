//! Transactions on the tables.

use lenso_service_account::crypto::{CredentialSecret, ReceiptCipher};
use lenso_service_account::error::ServiceAccountPluginError;
use lenso_service_account::instant::now_utc;
use lenso_service_account::rows::{
    AccountRecord, AccountRow, CommandClaim, CommandKey, CommandRecord, CredentialRecord,
    LimitRecord, Mutation,
};
use lenso_service_account::storage::{NewAccount, Revocation, Rotation, StoreError, Tables};

const SECOND: i128 = 1_000_000_000;
const HOUR: i128 = 3_600 * SECOND;

fn key(caller: &str, operation: &str, idempotency_key: &str) -> CommandKey {
    CommandKey {
        caller: caller.to_owned(),
        operation: operation.to_owned(),
        idempotency_key: idempotency_key.to_owned(),
    }
}

fn new_account(id: &str, organization: &str, subject: &str, name: &str, credential: &str) -> NewAccount {
    NewAccount {
        service_account_id: id.to_owned(),
        organization_id: organization.to_owned(),
        subject: subject.to_owned(),
        name: name.to_owned(),
        name_key: name.to_ascii_lowercase(),
        credential_id: credential.to_owned(),
        verifier: "verifier".to_owned(),
        valid_from: HOUR,
        valid_until: 2 * HOUR,
    }
}

fn rotation(id: &str, organization: &str, revision: i64, credential: &str, from: i128) -> Rotation {
    Rotation {
        organization_id: organization.to_owned(),
        service_account_id: id.to_owned(),
        expected_revision: revision,
        credential_id: credential.to_owned(),
        verifier: "rotated".to_owned(),
        valid_from: from,
        overlap_until: from + 300 * SECOND,
        valid_until: from + HOUR,
    }
}

fn revocation(id: &str, organization: &str, revision: i64) -> Revocation {
    Revocation {
        organization_id: organization.to_owned(),
        service_account_id: id.to_owned(),
        expected_revision: revision,
    }
}

fn receipt<T>(_: &T) -> Result<(Vec<u8>, Vec<u8>), ServiceAccountPluginError> {
    Ok((vec![1_u8; 12], vec![2_u8; 20]))
}

fn no_receipt<T>(_: &T) -> Result<(Vec<u8>, Vec<u8>), ServiceAccountPluginError> {
    Err(ServiceAccountPluginError::Invariant("no receipt"))
}

/// Creates an account under a command of its own.
fn with_account(tables: &mut Tables, account: &NewAccount) -> AccountRow {
    let command = key("admin-api", "create", &account.service_account_id);
    assert!(matches!(
        tables.claim_command(&command, &[1; 32], HOUR),
        Ok(CommandClaim::Claimed)
    ));
    match tables.create_account(&command, 100, account, HOUR, receipt::<AccountRow>) {
        Ok(Some(row)) => row,
        _ => panic!("created"),
    }
}

/// The durable boundaries, on tables that outlive a restart.
#[test]
fn restart_concurrency_and_secret_once_acceptance() {
    let mut tables = Tables::new();
    let receipt_cipher = ReceiptCipher::derive(b"acceptance receipt key material over 32 bytes");
    let pepper = b"acceptance pepper material over 32 bytes";
    let now = now_utc();

    let create_intent = [1_u8; 32];
    let create_1 = key("admin-api", "create", "create-1");
    assert!(matches!(
        tables.claim_command(&create_1, &create_intent, now),
        Ok(CommandClaim::Claimed)
    ));
    assert!(matches!(
        tables.claim_command(&key("other-admin", "create", "create-1"), &create_intent, now),
        Ok(CommandClaim::Claimed)
    ));
    assert!(matches!(
        tables.claim_command(&create_1, &[2_u8; 32], now),
        Ok(CommandClaim::Conflict)
    ));

    let secret = CredentialSecret::generate().ok().expect("credential secret");
    let raw_secret = secret.expose();
    let verifier = secret.argon2id_verifier(pepper).ok().expect("credential verifier");
    let aad = b"admin-api\0create\0create-1";
    let null_secret = br#"{"secret":null}"#;
    let account = match tables.create_account(
        &create_1,
        100,
        &NewAccount {
            service_account_id: "sa_acceptance".to_owned(),
            organization_id: "org_acceptance".to_owned(),
            subject: "usr_service_account".to_owned(),
            name: "Release bot".to_owned(),
            name_key: "release bot".to_owned(),
            credential_id: secret.credential_id.clone(),
            verifier,
            valid_from: now,
            valid_until: now + HOUR,
        },
        now,
        |_: &AccountRow| {
            receipt_cipher
                .encrypt(null_secret, aad)
                .map_err(ServiceAccountPluginError::Crypto)
        },
    ) {
        Ok(created) => created.expect("within account limit"),
        Err(_) => panic!("create account"),
    };
    assert_eq!(account.revision, 1);
    assert!(raw_secret.starts_with("lenso_sa_sac_"));

    let create_duplicate = key("admin-api", "create", "create-duplicate");
    assert!(matches!(
        tables.claim_command(&create_duplicate, &[8_u8; 32], now),
        Ok(CommandClaim::Claimed)
    ));
    let duplicate = CredentialSecret::generate().ok().expect("duplicate credential");
    let duplicate_verifier = duplicate.argon2id_verifier(pepper).ok().expect("duplicate verifier");
    let duplicate_error = tables.create_account(
        &create_duplicate,
        100,
        &NewAccount {
            service_account_id: "sa_duplicate".to_owned(),
            organization_id: "org_acceptance".to_owned(),
            subject: "usr_duplicate_service_account".to_owned(),
            name: "Release BOT".to_owned(),
            name_key: "release bot".to_owned(),
            credential_id: duplicate.credential_id.clone(),
            verifier: duplicate_verifier,
            valid_from: now,
            valid_until: now + HOUR,
        },
        now,
        |_: &AccountRow| unreachable!("duplicate name cannot create a receipt"),
    );
    let Err(StoreError::Unique(constraint)) = duplicate_error else {
        panic!("organization name key must be unique");
    };
    assert_eq!(constraint, "service_accounts_organization_name_unique");

    let stored_verifier = &tables
        .credentials
        .iter()
        .find(|row| row.credential_id == secret.credential_id)
        .expect("credential")
        .verifier;
    assert!(!stored_verifier.contains(&raw_secret));
    let stored_ciphertext = tables
        .commands
        .iter()
        .find(|row| row.command.same(&create_1))
        .and_then(|row| row.response_ciphertext.as_ref())
        .expect("ciphertext");
    assert!(!stored_ciphertext
        .windows(raw_secret.len())
        .any(|window| window == raw_secret.as_bytes()));

    // After a restart the durable rows are loaded again; the receipt has only a null secret.
    let Tables {
        accounts,
        credentials,
        commands,
        limits,
    } = tables;
    let mut tables = Tables::load(accounts, credentials, commands, limits).expect("reload");
    let Ok(CommandClaim::CompletedSuccess { nonce, ciphertext }) =
        tables.claim_command(&create_1, &create_intent, now)
    else {
        panic!("restart must load a completed receipt");
    };
    let replay = receipt_cipher
        .decrypt(&nonce, &ciphertext, aad)
        .ok()
        .expect("decrypt receipt");
    let replay: serde_json::Value = serde_json::from_slice(&replay).expect("receipt");
    assert!(replay["secret"].is_null());

    // Two rotations from revision 1: exactly one advances the revision.
    let first = CredentialSecret::generate().ok().expect("first rotation");
    let second = CredentialSecret::generate().ok().expect("second rotation");
    let rotate_time = now_utc();
    let mut results = Vec::new();
    for (name, secret) in [("rotate-1", &first), ("rotate-2", &second)] {
        let command = key("admin-api", "rotate_secret", name);
        assert!(matches!(
            tables.claim_command(&command, &[3_u8; 32], now),
            Ok(CommandClaim::Claimed)
        ));
        let change = Rotation {
            organization_id: "org_acceptance".to_owned(),
            service_account_id: "sa_acceptance".to_owned(),
            expected_revision: 1,
            credential_id: secret.credential_id.clone(),
            verifier: secret.argon2id_verifier(pepper).ok().expect("verifier"),
            valid_from: rotate_time,
            overlap_until: rotate_time + 300 * SECOND,
            valid_until: rotate_time + HOUR,
        };
        let result = tables.rotate_account(&command, &change, rotate_time, |_: &AccountRow| {
            receipt_cipher
                .encrypt(null_secret, name.as_bytes())
                .map_err(ServiceAccountPluginError::Crypto)
        });
        results.push(result.ok().expect("rotation result"));
    }
    assert!(matches!(
        (&results[0], &results[1]),
        (Mutation::Updated(_), Mutation::RevisionConflict)
    ));
    let winning_secret = first.expose();
    let Ok(CommandClaim::CompletedSuccess { nonce, ciphertext }) =
        tables.claim_command(&key("admin-api", "rotate_secret", "rotate-1"), &[3_u8; 32], now)
    else {
        panic!("winning rotation must have a durable receipt");
    };
    let replay = receipt_cipher
        .decrypt(&nonce, &ciphertext, b"rotate-1")
        .ok()
        .expect("decrypt rotation receipt");
    let replay: serde_json::Value = serde_json::from_slice(&replay).expect("receipt");
    assert!(replay["secret"].is_null());
    assert!(!ciphertext
        .windows(winning_secret.len())
        .any(|window| window == winning_secret.as_bytes()));

    // Revocation closes the account and all credentials before a pending exchange may issue.
    let revoke_1 = key("admin-api", "revoke", "revoke-1");
    assert!(matches!(
        tables.claim_command(&revoke_1, &[4_u8; 32], now),
        Ok(CommandClaim::Claimed)
    ));
    assert!(matches!(
        tables.revoke_account(
            &revoke_1,
            &revocation("sa_acceptance", "org_acceptance", 2),
            now_utc(),
            now,
            |_: &(AccountRow, bool)| receipt_cipher
                .encrypt(br#"{"revoked":true}"#, b"revoke-1")
                .map_err(ServiceAccountPluginError::Crypto),
        ),
        Ok(Mutation::Updated(_))
    ));
    assert!(matches!(
        tables.claim_command(
            &key("auth-ingress", "exchange_secret", "exchange-revoked"),
            &[5_u8; 32],
            now
        ),
        Ok(CommandClaim::Claimed)
    ));
    assert!(tables
        .mark_exchange_issuing(
            "auth-ingress",
            "exchange-revoked",
            &first.credential_id,
            "sa_acceptance",
            now_utc(),
        )
        .is_none());

    let expired = CredentialSecret::generate().ok().expect("expired credential");
    let expired_verifier = expired.argon2id_verifier(pepper).ok().expect("expired verifier");
    let create_expired = key("admin-api", "create", "create-expired");
    assert!(matches!(
        tables.claim_command(&create_expired, &[6_u8; 32], now),
        Ok(CommandClaim::Claimed)
    ));
    assert!(matches!(
        tables.create_account(
            &create_expired,
            100,
            &NewAccount {
                service_account_id: "sa_expired".to_owned(),
                organization_id: "org_acceptance".to_owned(),
                subject: "usr_expired_service_account".to_owned(),
                name: "Expired bot".to_owned(),
                name_key: "expired bot".to_owned(),
                credential_id: expired.credential_id.clone(),
                verifier: expired_verifier,
                valid_from: now - 2 * HOUR,
                valid_until: now - HOUR,
            },
            now,
            |_: &AccountRow| receipt_cipher
                .encrypt(null_secret, b"create-expired")
                .map_err(ServiceAccountPluginError::Crypto),
        ),
        Ok(Some(_))
    ));
    assert!(matches!(
        tables.claim_command(
            &key("auth-ingress", "exchange_secret", "exchange-expired"),
            &[7_u8; 32],
            now
        ),
        Ok(CommandClaim::Claimed)
    ));
    assert!(tables
        .mark_exchange_issuing(
            "auth-ingress",
            "exchange-expired",
            &expired.credential_id,
            "sa_expired",
            now_utc(),
        )
        .is_none());

    assert!(tables.reserve_rate_slot("auth-ingress", now, 60, 1, 300));
    assert!(!tables.reserve_rate_slot("auth-ingress", now, 60, 1, 300));
}

#[test]
fn claims_follow_the_life_of_a_command() {
    let mut tables = Tables::new();
    let command = key("a", "create", "k");
    assert!(matches!(tables.claim_command(&command, &[1], 5), Ok(CommandClaim::Claimed)));
    assert!(matches!(tables.claim_command(&command, &[1], 6), Ok(CommandClaim::InProgress)));
    assert!(matches!(tables.claim_command(&command, &[2], 6), Ok(CommandClaim::Conflict)));
    // Another caller, operation or key is another command.
    for other in [key("b", "create", "k"), key("a", "revoke", "k"), key("a", "create", "l")] {
        assert!(matches!(tables.claim_command(&other, &[2], 6), Ok(CommandClaim::Claimed)));
    }
    assert!(tables.complete_success(&command, vec![7; 12], vec![8, 9], 10).is_ok());
    match tables.claim_command(&command, &[1], 11) {
        Ok(CommandClaim::CompletedSuccess { nonce, ciphertext }) => {
            assert_eq!(nonce, vec![7; 12]);
            assert_eq!(ciphertext, vec![8, 9]);
        }
        _ => panic!("completed"),
    }
    assert!(matches!(tables.claim_command(&command, &[2], 11), Ok(CommandClaim::Conflict)));
    assert!(matches!(
        tables.complete_success(&command, vec![], vec![], 12),
        Err(ServiceAccountPluginError::Invariant("service-account command was not completable"))
    ));
    assert!(matches!(
        tables.complete_error(&command, "revoked", 12),
        Err(ServiceAccountPluginError::Invariant(
            "service-account command error was not completable"
        ))
    ));
    let failed = key("b", "create", "k");
    assert!(tables.complete_error(&failed, "name_conflict", 12).is_ok());
    match tables.claim_command(&failed, &[2], 13) {
        Ok(CommandClaim::CompletedError(code)) => assert_eq!(code, "name_conflict"),
        _ => panic!("failed"),
    }
    assert!(tables.complete_error(&key("nobody", "create", "k"), "x", 1).is_err());
    assert!(tables.complete_success(&key("nobody", "create", "k"), vec![], vec![], 1).is_err());
}

#[test]
fn damaged_commands_are_reported() {
    let record = |status: &str| CommandRecord {
        command: key("a", "create", status),
        intent_hash: vec![1],
        status: status.to_owned(),
        response_nonce: None,
        response_ciphertext: Some(vec![1]),
        error_code: None,
        updated_at: 0,
        completed_at: Some(0),
    };
    let mut tables = Tables::load(
        vec![],
        vec![],
        vec![record("completed_success"), record("completed_error"), record("verifying"), record("odd")],
        vec![],
    )
    .expect("tables");
    for status in ["completed_success", "completed_error"] {
        assert!(matches!(
            tables.claim_command(&key("a", "create", status), &[1], 0),
            Err(ServiceAccountPluginError::Invariant(_))
        ));
        assert!(matches!(
            tables.claim_command(&key("a", "create", status), &[2], 0),
            Ok(CommandClaim::Conflict)
        ));
    }
    for status in ["verifying", "odd"] {
        assert!(matches!(
            tables.claim_command(&key("a", "create", status), &[1], 0),
            Ok(CommandClaim::InProgress)
        ));
    }
    assert!(tables.complete_error(&key("a", "create", "verifying"), "x", 1).is_ok());
    assert!(tables.complete_error(&key("a", "create", "odd"), "x", 1).is_err());
}

#[test]
fn only_old_completed_commands_are_pruned() {
    let mut tables = Tables::new();
    for name in ["old", "edge", "young", "running"] {
        assert!(tables.claim_command(&key("a", "create", name), &[1], 0).is_ok());
    }
    let now = 1_000 * SECOND;
    assert!(tables.complete_error(&key("a", "create", "old"), "x", now - 301 * SECOND).is_ok());
    assert!(tables.complete_error(&key("a", "create", "edge"), "x", now - 300 * SECOND).is_ok());
    assert!(tables.complete_error(&key("a", "create", "young"), "x", now).is_ok());
    tables.prune(now, 300);
    let mut left: Vec<String> = tables
        .commands
        .iter()
        .map(|row| row.command.idempotency_key.clone())
        .collect();
    left.sort();
    assert_eq!(left, vec!["edge", "running", "young"]);
    assert!(matches!(
        tables.claim_command(&key("a", "create", "old"), &[2], 0),
        Ok(CommandClaim::Claimed)
    ));
}

#[test]
fn rows_with_repeated_keys_are_not_loaded() {
    let account = |id: &str| AccountRecord {
        service_account_id: id.to_owned(),
        organization_id: "org".to_owned(),
        subject: id.to_owned(),
        name: id.to_owned(),
        name_key: id.to_owned(),
        status: "active".to_owned(),
        revision: 1,
        created_at: 0,
        updated_at: 0,
        rotated_at: None,
        revoked_at: None,
    };
    let credential = |id: &str| CredentialRecord {
        credential_id: id.to_owned(),
        service_account_id: "sa".to_owned(),
        verifier: String::new(),
        valid_from: 0,
        valid_until: 0,
        created_at: 0,
        superseded_at: None,
        revoked_at: None,
        last_used_at: None,
    };
    let limit = |caller: &str, started: i128| LimitRecord {
        caller_instance: caller.to_owned(),
        window_started_at: started,
        attempts: 0,
        locked_until: None,
    };
    let command = |name: &str| CommandRecord {
        command: key("a", "create", name),
        intent_hash: vec![],
        status: "reserved".to_owned(),
        response_nonce: None,
        response_ciphertext: None,
        error_code: None,
        updated_at: 0,
        completed_at: None,
    };
    assert!(Tables::load(
        vec![account("1"), account("2")],
        vec![credential("1"), credential("2")],
        vec![command("1"), command("2")],
        vec![limit("1", 0), limit("2", 0)]
    )
    .is_some());
    assert!(Tables::load(vec![account("1"), account("1")], vec![], vec![], vec![]).is_none());
    assert!(Tables::load(vec![], vec![credential("1"), credential("1")], vec![], vec![]).is_none());
    assert!(Tables::load(vec![], vec![], vec![command("1"), command("1")], vec![]).is_none());
    assert!(Tables::load(vec![], vec![], vec![], vec![limit("1", 0), limit("1", 1)]).is_none());
    assert!(Tables::load(vec![], vec![], vec![], vec![limit("1", i128::MAX)]).is_none());
}

#[test]
fn creation_is_bounded_and_unique() {
    let mut tables = Tables::new();
    let row = with_account(&mut tables, &new_account("sa_1", "org", "usr_1", "Bot", "sac_1"));
    assert_eq!(row.service_account_id, "sa_1");
    assert_eq!(row.status, "active");
    assert_eq!(row.revision, 1);
    assert_eq!(row.created_at, HOUR);
    assert_eq!(row.credential_expires_at, Some(2 * HOUR));
    let command = key("admin-api", "create", "next");
    assert!(tables.claim_command(&command, &[1], 0).is_ok());
    for (account, constraint) in [
        (new_account("sa_1", "org", "usr_2", "Other", "sac_2"), "service_accounts_pkey"),
        (
            new_account("sa_2", "org", "usr_2", "bOT", "sac_2"),
            "service_accounts_organization_name_unique",
        ),
        (new_account("sa_2", "org", "usr_1", "Other", "sac_2"), "service_accounts_subject_unique"),
        (
            new_account("sa_2", "org", "usr_2", "Other", "sac_1"),
            "service_account_credentials_pkey",
        ),
    ] {
        match tables.create_account(&command, 100, &account, HOUR, receipt::<AccountRow>) {
            Err(StoreError::Unique(name)) => assert_eq!(name, constraint),
            _ => panic!("taken"),
        }
    }
    // The limit counts the organization's accounts only.
    let other = new_account("sa_2", "org", "usr_2", "Other", "sac_2");
    assert!(matches!(
        tables.create_account(&command, 1, &other, HOUR, receipt::<AccountRow>),
        Ok(None)
    ));
    assert_eq!(tables.accounts.len(), 1);
    // The same name in another organization is free.
    let elsewhere = new_account("sa_3", "org_2", "usr_3", "Bot", "sac_3");
    assert!(matches!(
        tables.create_account(&command, 1, &elsewhere, HOUR, receipt::<AccountRow>),
        Ok(Some(_))
    ));
}

#[test]
fn a_failed_transaction_changes_nothing() {
    let mut tables = Tables::new();
    with_account(&mut tables, &new_account("sa_1", "org", "usr_1", "Bot", "sac_1"));
    let command = key("admin-api", "create", "next");
    let other = new_account("sa_2", "org", "usr_2", "Other", "sac_2");
    // No such command.
    assert!(matches!(
        tables.create_account(&command, 100, &other, HOUR, receipt::<AccountRow>),
        Err(StoreError::Plugin(ServiceAccountPluginError::Invariant(_)))
    ));
    assert!(tables.claim_command(&command, &[1], 0).is_ok());
    assert!(matches!(
        tables.create_account(&command, 100, &other, HOUR, no_receipt::<AccountRow>),
        Err(StoreError::Plugin(ServiceAccountPluginError::Invariant("no receipt")))
    ));
    assert!(matches!(
        tables.rotate_account(&command, &rotation("sa_1", "org", 1, "sac_2", HOUR), HOUR, no_receipt::<AccountRow>),
        Err(StoreError::Plugin(_))
    ));
    assert!(matches!(
        tables.revoke_account(&command, &revocation("sa_1", "org", 1), HOUR, HOUR, no_receipt::<(AccountRow, bool)>),
        Err(StoreError::Plugin(_))
    ));
    assert_eq!(tables.accounts.len(), 1);
    assert_eq!(tables.credentials.len(), 1);
    let row = tables.load_account("org", "sa_1").expect("account");
    assert_eq!(row.revision, 1);
    assert_eq!(row.status, "active");
    assert_eq!(row.rotated_at, None);
    assert_eq!(row.credential_expires_at, Some(2 * HOUR));
    assert_eq!(tables.credentials[0].superseded_at, None);
    assert_eq!(tables.credentials[0].revoked_at, None);
    assert!(matches!(tables.claim_command(&command, &[1], 0), Ok(CommandClaim::InProgress)));
}

#[test]
fn rotation_bounds_live_credentials() {
    let mut tables = Tables::new();
    with_account(&mut tables, &new_account("sa_1", "org", "usr_1", "Bot", "sac_1"));
    with_account(&mut tables, &new_account("sa_2", "org", "usr_2", "Other", "sac_other"));
    let from = HOUR + 60 * SECOND;
    let command = key("admin-api", "rotate_secret", "r1");
    assert!(tables.claim_command(&command, &[1], 0).is_ok());
    let Ok(Mutation::Updated(row)) = tables.rotate_account(
        &command,
        &rotation("sa_1", "org", 1, "sac_2", from),
        from,
        receipt::<AccountRow>,
    ) else {
        panic!("rotated");
    };
    assert_eq!(row.revision, 2);
    assert_eq!(row.rotated_at, Some(from));
    assert_eq!(row.credential_expires_at, Some(from + HOUR));
    let credential = |tables: &Tables, id: &str| {
        tables
            .credentials
            .iter()
            .find(|row| row.credential_id == id)
            .map(|row| (row.valid_until, row.superseded_at))
            .expect("credential")
    };
    assert_eq!(credential(&tables, "sac_1"), (from + 300 * SECOND, Some(from)));
    assert_eq!(credential(&tables, "sac_2"), (from + HOUR, None));
    assert_eq!(credential(&tables, "sac_other"), (2 * HOUR, None));

    // A second rotation keeps the earlier end and the earlier note.
    let again = from + 60 * SECOND;
    let command = key("admin-api", "rotate_secret", "r2");
    assert!(tables.claim_command(&command, &[1], 0).is_ok());
    assert!(matches!(
        tables.rotate_account(&command, &rotation("sa_1", "org", 2, "sac_3", again), again, receipt::<AccountRow>),
        Ok(Mutation::Updated(_))
    ));
    assert_eq!(credential(&tables, "sac_1"), (from + 300 * SECOND, Some(from)));
    assert_eq!(credential(&tables, "sac_2"), (again + 300 * SECOND, Some(again)));

    let command = key("admin-api", "rotate_secret", "r3");
    assert!(tables.claim_command(&command, &[1], 0).is_ok());
    for (change, expected) in [
        (rotation("sa_9", "org", 3, "sac_4", again), "not found"),
        (rotation("sa_1", "org_9", 3, "sac_4", again), "not found"),
        (rotation("sa_1", "org", 2, "sac_4", again), "conflict"),
        (rotation("sa_1", "org", 3, "sac_3", again), "taken"),
    ] {
        let outcome = match tables.rotate_account(&command, &change, again, receipt::<AccountRow>) {
            Ok(Mutation::NotFound) => "not found",
            Ok(Mutation::RevisionConflict) => "conflict",
            Err(StoreError::Unique(name)) if name == "service_account_credentials_pkey" => "taken",
            _ => "other",
        };
        assert_eq!(outcome, expected);
    }
}

#[test]
fn revocation_is_final_and_idempotent() {
    let mut tables = Tables::new();
    with_account(&mut tables, &new_account("sa_1", "org", "usr_1", "Bot", "sac_1"));
    with_account(&mut tables, &new_account("sa_2", "org", "usr_2", "Other", "sac_2"));
    let now = HOUR + 60 * SECOND + 1;
    // Before the year 2000 the rest of a microsecond is rounded up.
    let stored = HOUR + 60 * SECOND + 1_000;
    let revoke = |tables: &mut Tables, name: &str, revision: i64| {
        let command = key("admin-api", "revoke", name);
        assert!(tables.claim_command(&command, &[1], 0).is_ok());
        tables
            .revoke_account(&command, &revocation("sa_1", "org", revision), now, now, receipt::<(AccountRow, bool)>)
            .ok()
            .expect("outcome")
    };
    assert!(matches!(revoke(&mut tables, "stale", 7), Mutation::RevisionConflict));
    let Mutation::Updated((row, changed)) = revoke(&mut tables, "first", 1) else {
        panic!("revoked");
    };
    assert!(changed);
    assert_eq!(row.status, "revoked");
    assert_eq!(row.revision, 2);
    assert_eq!(row.revoked_at, Some(stored));
    assert_eq!(row.credential_expires_at, Some(stored));
    assert!(matches!(revoke(&mut tables, "again", 1), Mutation::RevisionConflict));
    let Mutation::Updated((row, changed)) = revoke(&mut tables, "once more", 2) else {
        panic!("unchanged");
    };
    assert!(!changed);
    assert_eq!(row.revision, 2);
    let command = key("admin-api", "rotate_secret", "late");
    assert!(tables.claim_command(&command, &[1], 0).is_ok());
    assert!(matches!(
        tables.rotate_account(&command, &rotation("sa_1", "org", 2, "sac_9", now), now, receipt::<AccountRow>),
        Ok(Mutation::Revoked)
    ));
    let other = tables.load_credential("sac_2").expect("credential");
    assert_eq!(other.account_status, "active");
    assert_eq!(other.revoked_at, None);
    let closed = tables.load_credential("sac_1").expect("credential");
    assert_eq!(closed.account_status, "revoked");
    assert_eq!(closed.revoked_at, Some(stored));
    assert!(matches!(
        tables.revoke_account(
            &command,
            &revocation("sa_1", "elsewhere", 2),
            now,
            now,
            receipt::<(AccountRow, bool)>
        ),
        Ok(Mutation::NotFound)
    ));
}

#[test]
fn a_revoked_credential_never_ends_before_it_starts() {
    let mut tables = Tables::new();
    with_account(&mut tables, &new_account("sa_1", "org", "usr_1", "Bot", "sac_1"));
    let command = key("admin-api", "revoke", "early");
    assert!(tables.claim_command(&command, &[1], 0).is_ok());
    assert!(matches!(
        tables.revoke_account(&command, &revocation("sa_1", "org", 1), 0, 0, receipt::<(AccountRow, bool)>),
        Ok(Mutation::Updated((_, true)))
    ));
    assert_eq!(tables.credentials[0].valid_until, HOUR);
    assert_eq!(tables.credentials[0].revoked_at, Some(0));
}

#[test]
fn an_exhausted_revision_is_refused() {
    let mut tables = Tables::new();
    with_account(&mut tables, &new_account("sa_1", "org", "usr_1", "Bot", "sac_1"));
    tables.accounts[0].revision = i64::MAX;
    let command = key("admin-api", "rotate_secret", "r1");
    assert!(tables.claim_command(&command, &[1], 0).is_ok());
    assert!(matches!(
        tables.rotate_account(&command, &rotation("sa_1", "org", i64::MAX, "sac_2", HOUR), HOUR, receipt::<AccountRow>),
        Err(StoreError::Plugin(ServiceAccountPluginError::Invariant(_)))
    ));
    assert!(matches!(
        tables.revoke_account(&command, &revocation("sa_1", "org", i64::MAX), HOUR, HOUR, receipt::<(AccountRow, bool)>),
        Err(StoreError::Plugin(ServiceAccountPluginError::Invariant(_)))
    ));
}

#[test]
fn the_latest_credential_gives_the_expiry() {
    let mut tables = Tables::new();
    with_account(&mut tables, &new_account("sa_1", "org", "usr_1", "Bot", "sac_b"));
    for (id, created, until) in [("sac_a", HOUR, 7), ("sac_c", HOUR, 8), ("sac_z", HOUR - 1, 9)] {
        tables.credentials.push(CredentialRecord {
            credential_id: id.to_owned(),
            service_account_id: "sa_1".to_owned(),
            verifier: String::new(),
            valid_from: 0,
            valid_until: until,
            created_at: created,
            superseded_at: None,
            revoked_at: None,
            last_used_at: None,
        });
    }
    assert_eq!(
        tables.load_account("org", "sa_1").expect("account").credential_expires_at,
        Some(8)
    );
    assert!(tables.load_account("org_2", "sa_1").is_none());
    assert!(tables.load_account("org", "sa_2").is_none());
    tables.credentials.clear();
    assert_eq!(
        tables.load_account("org", "sa_1").expect("account").credential_expires_at,
        None
    );
}

#[test]
fn pages_are_ordered_and_complete() {
    let mut tables = Tables::new();
    for (i, id) in ["sa_d", "sa_b", "sa_e", "sa_a", "sa_c"].iter().enumerate() {
        with_account(
            &mut tables,
            &new_account(id, "org", &format!("usr_{i}"), &format!("Bot {i}"), &format!("sac_{i}")),
        );
    }
    with_account(&mut tables, &new_account("sa_bb", "org_2", "usr_x", "Bot", "sac_x"));
    let ids = |after: Option<&str>, limit: usize| -> Vec<String> {
        tables
            .list_accounts("org", after, limit)
            .into_iter()
            .map(|row| row.service_account_id)
            .collect()
    };
    assert_eq!(ids(None, 10), vec!["sa_a", "sa_b", "sa_c", "sa_d", "sa_e"]);
    assert_eq!(ids(None, 2), vec!["sa_a", "sa_b"]);
    assert_eq!(ids(Some("sa_b"), 2), vec!["sa_c", "sa_d"]);
    assert_eq!(ids(Some("sa_d"), 2), vec!["sa_e"]);
    assert_eq!(ids(Some("sa_bz"), 1), vec!["sa_c"]);
    assert!(ids(Some("sa_e"), 2).is_empty());
    assert!(ids(None, 0).is_empty());
    assert!(tables.list_accounts("org_3", None, 5).is_empty());
}

#[test]
fn rows_keep_their_places_and_new_ones_come_last() {
    let places = |tables: &Tables| {
        (
            tables.accounts.iter().map(|row| row.service_account_id.clone()).collect::<Vec<_>>(),
            tables.credentials.iter().map(|row| row.credential_id.clone()).collect::<Vec<_>>(),
            tables
                .commands
                .iter()
                .map(|row| row.command.idempotency_key.clone())
                .collect::<Vec<_>>(),
        )
    };
    let mut tables = Tables::new();
    with_account(&mut tables, &new_account("sa_2", "org", "usr_2", "Two", "sac_2"));
    with_account(&mut tables, &new_account("sa_1", "org", "usr_1", "One", "sac_1"));
    let (accounts, credentials, mut commands) = places(&tables);
    assert_eq!(accounts, vec!["sa_2", "sa_1"]);
    assert_eq!(credentials, vec!["sac_2", "sac_1"]);
    let command = key("admin-api", "rotate_secret", "a");
    assert!(tables.claim_command(&command, &[1], 0).is_ok());
    commands.push("a".to_owned());
    let from = HOUR + 60 * SECOND;
    assert!(matches!(
        tables.rotate_account(&command, &rotation("sa_2", "org", 1, "sac_0", from), from, receipt::<AccountRow>),
        Ok(Mutation::Updated(_))
    ));
    let rotated = vec!["sac_2".to_owned(), "sac_1".to_owned(), "sac_0".to_owned()];
    assert_eq!(places(&tables), (accounts.clone(), rotated.clone(), commands.clone()));
    let command = key("admin-api", "revoke", "0");
    assert!(tables.claim_command(&command, &[1], 0).is_ok());
    commands.push("0".to_owned());
    assert!(matches!(
        tables.revoke_account(&command, &revocation("sa_2", "org", 2), from, from, receipt::<(AccountRow, bool)>),
        Ok(Mutation::Updated(_))
    ));
    assert_eq!(places(&tables), (accounts, rotated, commands));
}

#[test]
fn exchanges_are_admitted_once_and_only_while_valid() {
    let mut tables = Tables::new();
    with_account(&mut tables, &new_account("sa_1", "org", "usr_1", "Bot", "sac_1"));
    with_account(&mut tables, &new_account("sa_2", "org", "usr_2", "Other", "sac_2"));
    let command = key("auth-ingress", "exchange_secret", "x1");
    assert!(tables.claim_command(&command, &[1], 0).is_ok());
    let mark = |tables: &mut Tables, name: &str, credential: &str, account: &str, now: i128| {
        tables.mark_exchange_issuing("auth-ingress", name, credential, account, now)
    };
    assert!(mark(&mut tables, "x1", "sac_1", "sa_1", HOUR - 1_000).is_none());
    assert!(mark(&mut tables, "x1", "sac_1", "sa_1", 2 * HOUR).is_none());
    assert!(mark(&mut tables, "x1", "sac_1", "sa_2", HOUR).is_none());
    assert!(mark(&mut tables, "x1", "sac_9", "sa_1", HOUR).is_none());
    assert!(mark(&mut tables, "x9", "sac_1", "sa_1", HOUR).is_none());
    assert_eq!(tables.credentials[0].last_used_at, None);
    let row = mark(&mut tables, "x1", "sac_1", "sa_1", HOUR).expect("admitted");
    assert_eq!(row.credential_id, "sac_1");
    assert_eq!(row.organization_id, "org");
    assert_eq!(row.subject, "usr_1");
    assert_eq!(row.valid_until, 2 * HOUR);
    assert_eq!(tables.credentials[0].last_used_at, Some(HOUR));
    // Once issuing, the command is in progress, not admitted again, and not pruned.
    assert!(mark(&mut tables, "x1", "sac_1", "sa_1", HOUR).is_none());
    assert!(matches!(tables.claim_command(&command, &[1], 0), Ok(CommandClaim::InProgress)));
    tables.prune(1_000 * HOUR, 300);
    assert!(matches!(tables.claim_command(&command, &[1], 0), Ok(CommandClaim::InProgress)));
    assert!(tables.complete_success(&command, vec![1; 12], vec![2], HOUR).is_ok());
    assert!(tables.load_credential("sac_9").is_none());
}

#[test]
fn rate_limits_bound_a_window_and_lock_out() {
    let mut tables = Tables::new();
    let start = 1_800_000_000 * SECOND;
    let slot = |tables: &mut Tables, caller: &str, now: i128| {
        tables.reserve_rate_slot(caller, now, 60, 2, 300)
    };
    assert!(slot(&mut tables, "a", start));
    assert!(slot(&mut tables, "a", start + 59 * SECOND));
    assert!(!slot(&mut tables, "a", start + 59 * SECOND));
    let limit = &tables.limits[0];
    assert_eq!(limit.attempts, 2);
    assert_eq!(limit.locked_until, Some(start + 359 * SECOND));
    // The lockout outlasts the window.
    assert!(!slot(&mut tables, "a", start + 358 * SECOND));
    assert!(slot(&mut tables, "b", start + 59 * SECOND));
    assert!(slot(&mut tables, "a", start + 359 * SECOND));
    let limit = &tables.limits[0];
    assert_eq!(limit.window_started_at, start + 359 * SECOND);
    assert_eq!(limit.attempts, 1);
    assert_eq!(limit.locked_until, None);
    // A new window starts exactly when the old one is over.
    assert!(slot(&mut tables, "b", start + 118 * SECOND));
    assert!(slot(&mut tables, "b", start + 119 * SECOND));
    assert_eq!(tables.limits[1].attempts, 1);
}
