//! The rules of a configuration.

use lenso_auth_sdk::ActorAssertionIssuer;
use lenso_service_account::config::{
    listed, valid_authority, valid_secret_reference, validate_authority_set, validate_config,
    ServiceAccountConfig, ServiceAccountConfigError,
};
use lenso_service_account::error::Failure;

fn public_key() -> String {
    ActorAssertionIssuer::new("auth.users", b"test signing key").public_key_base64()
}

fn config() -> ServiceAccountConfig {
    ServiceAccountConfig::new(
        "service_accounts".to_owned(),
        "database-url".to_owned(),
        "credential-pepper".to_owned(),
        "receipt-key".to_owned(),
        "service-accounts".to_owned(),
        "auth.users".to_owned(),
        public_key(),
        vec!["admin-api".to_owned()],
        vec!["auth-ingress".to_owned()],
        vec!["application".to_owned()],
        86_400,
        300,
        900,
        86_400,
        60,
        100,
        300,
        100,
        1_000,
    )
    .expect("valid config")
}

#[test]
fn config_requires_distinct_secret_references_and_bounded_overlap() {
    let valid = config();
    assert_eq!(valid.rotation_overlap_seconds, 300);

    let mut invalid = valid.clone();
    invalid.credential_pepper_secret = invalid.database_url_secret.clone();
    assert_eq!(
        invalid.validate(),
        Err(ServiceAccountConfigError::InvalidSecretReferences)
    );

    let mut invalid = valid;
    invalid.rotation_overlap_seconds = invalid.credential_ttl_seconds;
    assert_eq!(
        invalid.validate(),
        Err(ServiceAccountConfigError::InvalidLimits)
    );
}

#[test]
fn new_refuses_what_validate_refuses() {
    let refused = ServiceAccountConfig::new(
        "public".to_owned(),
        "database-url".to_owned(),
        "credential-pepper".to_owned(),
        "receipt-key".to_owned(),
        "service-accounts".to_owned(),
        "auth.users".to_owned(),
        public_key(),
        vec!["admin-api".to_owned()],
        vec!["auth-ingress".to_owned()],
        vec!["application".to_owned()],
        86_400,
        300,
        900,
        86_400,
        60,
        100,
        300,
        100,
        1_000,
    );
    assert_eq!(refused, Err(ServiceAccountConfigError::InvalidSchema));
}

#[test]
fn every_secret_reference_is_checked() {
    for broken in ["", "with space", "caf\u{e9}", &"r".repeat(257)] {
        let mut first = config();
        first.database_url_secret = broken.to_owned();
        let mut second = config();
        second.credential_pepper_secret = broken.to_owned();
        let mut third = config();
        third.receipt_encryption_key_secret = broken.to_owned();
        for invalid in [first, second, third] {
            assert_eq!(
                invalid.validate(),
                Err(ServiceAccountConfigError::InvalidSecretReferences)
            );
        }
    }
    let mut same = config();
    same.receipt_encryption_key_secret = same.database_url_secret.clone();
    assert_eq!(
        same.validate(),
        Err(ServiceAccountConfigError::InvalidSecretReferences)
    );
    let mut same = config();
    same.receipt_encryption_key_secret = same.credential_pepper_secret.clone();
    assert_eq!(
        same.validate(),
        Err(ServiceAccountConfigError::InvalidSecretReferences)
    );
    assert!(valid_secret_reference(&"r".repeat(256)));
}

#[test]
fn authorities_are_identifiers() {
    let mut invalid = config();
    invalid.directory_provider = "a b".to_owned();
    assert_eq!(
        invalid.validate(),
        Err(ServiceAccountConfigError::InvalidAuthorities)
    );
    let mut invalid = config();
    invalid.auth_issuer = "i".repeat(129);
    assert_eq!(
        invalid.validate(),
        Err(ServiceAccountConfigError::InvalidAuthorities)
    );
    assert!(valid_authority("a-b_c.d:e", 9));
    assert!(!valid_authority("a-b_c.d:e", 8));
    assert!(!valid_authority("", 8));
}

#[test]
fn the_public_key_is_checked() {
    let long = "A".repeat(257);
    for broken in ["", "not a key", long.as_str(), "AAAA"] {
        let mut invalid = config();
        invalid.auth_public_key = broken.to_owned();
        assert_eq!(
            invalid.validate(),
            Err(ServiceAccountConfigError::InvalidAuthPublicKey)
        );
        assert!(invalid.actor_authority().is_none());
    }
    let authority = config().actor_authority().expect("authority");
    assert_eq!(authority.public_key_base64(), public_key());
}

#[test]
fn authority_sets_are_bounded_and_distinct() {
    assert_eq!(validate_authority_set(&["a".to_owned()], 1), Ok(()));
    let many: Vec<String> = (0..64).map(|n| format!("caller-{n}")).collect();
    assert_eq!(validate_authority_set(&many, 128), Ok(()));
    let too_many: Vec<String> = (0..65).map(|n| format!("caller-{n}")).collect();
    for broken in [
        vec![],
        too_many,
        vec!["a".to_owned(), "b".to_owned(), "a".to_owned()],
        vec!["".to_owned()],
        vec!["abc".to_owned(); 1].into_iter().map(|t| t.repeat(43)).collect(),
    ] {
        assert_eq!(
            validate_authority_set(&broken, 128),
            Err(ServiceAccountConfigError::InvalidAuthoritySet)
        );
    }
    let mut management = config();
    management.management_callers = vec![];
    let mut authentication = config();
    authentication.authentication_callers = vec!["x".to_owned(), "x".to_owned()];
    let mut audience = config();
    audience.token_audience = vec!["y z".to_owned()];
    for invalid in [management, authentication, audience] {
        assert_eq!(
            invalid.validate(),
            Err(ServiceAccountConfigError::InvalidAuthoritySet)
        );
    }
    let mut long_audience = config();
    long_audience.token_audience = vec!["y".repeat(256)];
    assert_eq!(long_audience.validate(), Ok(()));
}

#[test]
fn every_limit_is_checked_at_its_bounds() {
    let edits: Vec<(fn(&mut ServiceAccountConfig, u64), Vec<u64>, Vec<u64>)> = vec![
        (|c, v| c.credential_ttl_seconds = v, vec![901, 31_536_000], vec![299, 899, 31_536_001]),
        (|c, v| c.rotation_overlap_seconds = v, vec![0, 3_600], vec![3_601, u64::MAX]),
        (|c, v| c.token_ttl_seconds = v, vec![1, 86_400], vec![0, 86_401]),
        (|c, v| c.receipt_ttl_seconds = v, vec![300, 604_800], vec![299, 604_801]),
        (|c, v| c.exchange_window_seconds = v, vec![1, 3_600], vec![0, 3_601]),
        (|c, v| c.max_exchanges_per_window = v as u32, vec![1, 10_000], vec![0, 10_001]),
        (|c, v| c.exchange_lockout_seconds = v, vec![1, 86_400], vec![0, 86_401]),
        (|c, v| c.max_page_size = v as u32, vec![1, 200], vec![0, 201]),
        (|c, v| c.max_accounts_per_organization = v as u32, vec![1, 10_000], vec![0, 10_001]),
    ];
    for (edit, accepted, refused) in edits {
        for value in accepted {
            let mut valid = config();
            edit(&mut valid, value);
            assert_eq!(valid.validate(), Ok(()));
        }
        for value in refused {
            let mut invalid = config();
            edit(&mut invalid, value);
            assert_eq!(
                invalid.validate(),
                Err(ServiceAccountConfigError::InvalidLimits)
            );
        }
    }
    let mut token = config();
    token.credential_ttl_seconds = 600;
    token.token_ttl_seconds = 601;
    assert_eq!(token.validate(), Err(ServiceAccountConfigError::InvalidLimits));
}

#[test]
fn a_refused_configuration_says_why() {
    assert!(validate_config(&config()).is_ok());
    let mut invalid = config();
    invalid.max_page_size = 0;
    let Err(Failure::InvalidPlan(detail)) = validate_config(&invalid) else {
        panic!("refused");
    };
    assert_eq!(
        detail,
        "Service Account configuration is invalid: invalid credential, token, receipt, rate, page, or organization limit"
    );
    for (error, text) in [
        (ServiceAccountConfigError::InvalidSchema, "invalid owned PostgreSQL schema"),
        (
            ServiceAccountConfigError::InvalidSecretReferences,
            "database, credential pepper, and receipt encryption need distinct secret references",
        ),
        (
            ServiceAccountConfigError::InvalidAuthorities,
            "invalid Identity Directory provider or Auth issuer",
        ),
        (
            ServiceAccountConfigError::InvalidAuthPublicKey,
            "invalid Auth actor assertion public key",
        ),
        (
            ServiceAccountConfigError::InvalidAuthoritySet,
            "caller or audience sets must contain unique exact Instance keys",
        ),
    ] {
        assert_eq!(error.message(), text);
    }
}

#[test]
fn listed_compares_exactly() {
    let callers = vec!["admin-api".to_owned(), "ops".to_owned()];
    assert!(listed(&callers, &"ops".to_owned()));
    assert!(!listed(&callers, &"Ops".to_owned()));
    assert!(!listed(&callers, &"op".to_owned()));
    assert!(!listed(&vec![], &"ops".to_owned()));
}
