//! Which configurations are accepted, and how the plugin is activated.

use vstd::prelude::*;
use vstd::string::*;
use vstd::utf8::*;

use crate::config::{
    ed25519_public_key, trusted_authority, validate_authority_set, validate_config,
    ServiceAccountConfig, ServiceAccountConfigError,
};
use crate::crypto::{
    argon2_accepts, argon2id_phc, secret_bytes, secret_text, sha256_digest, SecretBytes, SecretText,
};
use crate::error::{Failure, ServiceAccountPluginError};
use crate::laws::{identifier, tells};
use crate::lifecycle::{Activation, ActivationEvent, SecretReply};
use crate::operator::ServiceAccountOperator;
use crate::schema::{plan_migrations, plan_schema, schema_plan, MIGRATION_SQL};

verus! {

/// 1 to 63 lower-case letters, digits and underscores, the first a letter, and
/// none of the names that the database keeps to itself.
pub open spec fn schema_may_be_owned(name: Seq<char>) -> bool {
    &&& 1 <= name.len() <= 63
    &&& 'a' <= name[0] <= 'z'
    &&& forall|i: int|
        0 <= i < name.len() ==> 'a' <= #[trigger] name[i] <= 'z' || '0' <= name[i] <= '9'
            || name[i] == '_'
    &&& name != "public"@
    &&& name != "information_schema"@
    &&& !(name.len() >= 3 && name[0] == 'p' && name[1] == 'g' && name[2] == '_')
}

proof fn lemma_schema(name: Seq<char>)
    ensures
        crate::schema::owned_schema_name(name) == schema_may_be_owned(name),
{
    reveal_strlit("pg_");
    assert("pg_"@.len() == 3);
    assert("pg_"@[0] == 'p' && "pg_"@[1] == 'g' && "pg_"@[2] == '_');
    if name.len() >= 3 && name[0] == 'p' && name[1] == 'g' && name[2] == '_' {
        assert("pg_"@ =~= name.subrange(0, 3));
    }
    if "pg_"@.is_prefix_of(name) {
        assert(name.subrange(0, 3)[0] == name[0]);
        assert(name.subrange(0, 3)[1] == name[1]);
        assert(name.subrange(0, 3)[2] == name[2]);
    }
}

/// There is a plan exactly for a schema that may be owned: for that schema, with
/// the one migration of the plugin.
pub proof fn plans_are_for_schemas_that_may_be_owned(
    schema: String,
    name: &str,
    r: Result<lenso_postgres_kit::SchemaPlan, lenso_postgres_kit::PlanError>,
    installed: Result<lenso_postgres_kit::SchemaPlan, lenso_postgres_kit::PlanError>,
)
    requires
        call_ensures(schema_plan, (schema,), r),
        call_ensures(ServiceAccountOperator::plan, (name,), installed),
    ensures
        r is Ok <==> schema_may_be_owned(schema@),
        r matches Ok(plan) ==> plan_schema(plan) == schema@ && plan_migrations(plan) == seq![
            (1u64, "create-service-account-state"@, MIGRATION_SQL@),
        ],
        installed is Ok <==> schema_may_be_owned(name@),
        installed matches Ok(plan) ==> plan_schema(plan) == name@ && plan_migrations(plan) == seq![
            (1u64, "create-service-account-state"@, MIGRATION_SQL@),
        ],
{
    lemma_schema(schema@);
    lemma_schema(name@);
}

/// 1 to 64 identifiers, no two alike.
pub open spec fn distinct_identifiers(values: Seq<String>, max: int) -> bool {
    &&& 1 <= values.len() <= 64
    &&& forall|i: int| 0 <= i < values.len() ==> identifier((#[trigger] values[i])@, max)
    &&& forall|i: int, j: int|
        0 <= i < j < values.len() ==> (#[trigger] values[i])@ != (#[trigger] values[j])@
}

proof fn lemma_identifiers(values: Seq<String>, max: nat)
    ensures
        crate::config::is_authority_set(values, max) == distinct_identifiers(values, max as int),
{
    assert forall|i: int| 0 <= i < values.len() implies crate::text::is_token(
        (#[trigger] values[i])@,
        max,
    ) == identifier(values[i]@, max as int) by {}
}

/// A set of callers or audiences is accepted exactly if it is one.
pub proof fn authority_sets_are_checked(
    values: &[String],
    max: usize,
    r: Result<(), ServiceAccountConfigError>,
)
    requires
        call_ensures(validate_authority_set, (values, max), r),
    ensures
        distinct_identifiers(values@, max as int) ==> r is Ok,
        !distinct_identifiers(values@, max as int) ==> r == Err::<(), _>(
            ServiceAccountConfigError::InvalidAuthoritySet,
        ),
{
    lemma_identifiers(values@, max as nat);
}

/// Three references to secrets, no two alike.
pub open spec fn has_three_references(c: ServiceAccountConfig) -> bool {
    &&& identifier(c.database_url_secret@, 256)
    &&& identifier(c.credential_pepper_secret@, 256)
    &&& identifier(c.receipt_encryption_key_secret@, 256)
    &&& c.database_url_secret@ != c.credential_pepper_secret@
    &&& c.database_url_secret@ != c.receipt_encryption_key_secret@
    &&& c.credential_pepper_secret@ != c.receipt_encryption_key_secret@
}

pub open spec fn has_authorities(c: ServiceAccountConfig) -> bool {
    identifier(c.directory_provider@, 128) && identifier(c.auth_issuer@, 128)
}

pub open spec fn has_a_public_key(c: ServiceAccountConfig) -> bool {
    1 <= encode_utf8(c.auth_public_key@).len() <= 256 && ed25519_public_key(c.auth_public_key@)
}

pub open spec fn has_authority_sets(c: ServiceAccountConfig) -> bool {
    &&& distinct_identifiers(c.management_callers@, 128)
    &&& distinct_identifiers(c.authentication_callers@, 128)
    &&& distinct_identifiers(c.token_audience@, 256)
}

/// Durations, in seconds, and counts are within their bounds: secrets last five
/// minutes to a year, the overlap is at most an hour and shorter than that,
/// tokens last at most a day and no longer than secrets, receipts are kept five
/// minutes to a week.
pub open spec fn has_bounds(c: ServiceAccountConfig) -> bool {
    &&& 300 <= c.credential_ttl_seconds <= 31_536_000
    &&& c.rotation_overlap_seconds <= 3_600
    &&& c.rotation_overlap_seconds < c.credential_ttl_seconds
    &&& 1 <= c.token_ttl_seconds <= 86_400
    &&& c.token_ttl_seconds <= c.credential_ttl_seconds
    &&& 300 <= c.receipt_ttl_seconds <= 604_800
    &&& 1 <= c.exchange_window_seconds <= 3_600
    &&& 1 <= c.max_exchanges_per_window <= 10_000
    &&& 1 <= c.exchange_lockout_seconds <= 86_400
    &&& 1 <= c.max_page_size <= 200
    &&& 1 <= c.max_accounts_per_organization <= 10_000
}

/// A configuration is accepted exactly if all of it is as it must be, and else is
/// refused for the first part that is not.
pub proof fn configurations_are_checked_part_by_part(
    config: &ServiceAccountConfig,
    r: Result<(), ServiceAccountConfigError>,
    validated: Result<(), Failure>,
)
    requires
        call_ensures(ServiceAccountConfig::validate, (config,), r),
        call_ensures(validate_config, (config,), validated),
    ensures
        ({
            let schema = schema_may_be_owned(config.schema@);
            let references = has_three_references(*config);
            let authorities = has_authorities(*config);
            let key = has_a_public_key(*config);
            let sets = has_authority_sets(*config);
            let bounds = has_bounds(*config);
            let expected: Option<(ServiceAccountConfigError, Seq<char>)> = if !schema {
                Some(
                    (
                        ServiceAccountConfigError::InvalidSchema,
                        "invalid owned PostgreSQL schema"@,
                    ),
                )
            } else if !references {
                Some(
                    (
                        ServiceAccountConfigError::InvalidSecretReferences,
                        "database, credential pepper, and receipt encryption need distinct secret references"@,
                    ),
                )
            } else if !authorities {
                Some(
                    (
                        ServiceAccountConfigError::InvalidAuthorities,
                        "invalid Identity Directory provider or Auth issuer"@,
                    ),
                )
            } else if !key {
                Some(
                    (
                        ServiceAccountConfigError::InvalidAuthPublicKey,
                        "invalid Auth actor assertion public key"@,
                    ),
                )
            } else if !sets {
                Some(
                    (
                        ServiceAccountConfigError::InvalidAuthoritySet,
                        "caller or audience sets must contain unique exact Instance keys"@,
                    ),
                )
            } else if !bounds {
                Some(
                    (
                        ServiceAccountConfigError::InvalidLimits,
                        "invalid credential, token, receipt, rate, page, or organization limit"@,
                    ),
                )
            } else {
                None
            };
            match expected {
                None => r is Ok && validated is Ok,
                Some((error, text)) => {
                    &&& r == Err::<(), _>(error)
                    &&& validated matches Err(Failure::InvalidPlan(detail))
                    &&& detail@ == "Service Account configuration is invalid: "@ + text
                },
            }
        }),
{
    lemma_schema(config.schema@);
    lemma_identifiers(config.management_callers@, 128);
    lemma_identifiers(config.authentication_callers@, 128);
    lemma_identifiers(config.token_audience@, 256);
}

/// Assertions are verified for the configured issuer with the configured key.
pub proof fn assertions_are_verified_for_the_configured_issuer(
    config: &ServiceAccountConfig,
    r: Option<lenso_auth_sdk::ActorAssertionVerifier>,
)
    requires
        call_ensures(ServiceAccountConfig::actor_authority, (config,), r),
    ensures
        r is Some == ed25519_public_key(config.auth_public_key@),
        r matches Some(authority) ==> trusted_authority(authority) == (
            config.auth_issuer@,
            config.auth_public_key@,
        ),
{
}

/// An activation asks first for the database URL.
pub proof fn activations_start_with_the_database_url(config: ServiceAccountConfig, r: Activation)
    requires
        call_ensures(Activation::start, (config,), r),
    ensures
        r == (Activation::ResolveDatabaseUrl { config, reference: config.database_url_secret }),
{
}

/// A secret that is not given ends the activation: with a text that names it if
/// it was rejected, with the provider's own failure otherwise.
pub open spec fn ends_for_want_of(next: Activation, reply: SecretReply, text: Seq<char>) -> bool {
    match reply {
        SecretReply::Value(_) => false,
        SecretReply::Rejected => next matches Activation::Failed(failure) && tells(failure, text),
        SecretReply::Failed => next == Activation::Failed(Failure::Relayed),
    }
}

proof fn lemma_rejections()
    ensures
        crate::lifecycle::rejection_text("database URL"@)
            == "Service Account database URL secret was rejected"@,
        crate::lifecycle::rejection_text("credential pepper"@)
            == "Service Account credential pepper secret was rejected"@,
        crate::lifecycle::rejection_text("receipt encryption key"@)
            == "Service Account receipt encryption key secret was rejected"@,
{
    reveal_strlit("Service Account ");
    reveal_strlit(" secret was rejected");
    assert(crate::lifecycle::rejection_text("database URL"@)
        =~= "Service Account database URL secret was rejected"@) by {
        reveal_strlit("database URL");
        reveal_strlit("Service Account database URL secret was rejected");
    }
    assert(crate::lifecycle::rejection_text("credential pepper"@)
        =~= "Service Account credential pepper secret was rejected"@) by {
        reveal_strlit("credential pepper");
        reveal_strlit("Service Account credential pepper secret was rejected");
    }
    assert(crate::lifecycle::rejection_text("receipt encryption key"@)
        =~= "Service Account receipt encryption key secret was rejected"@) by {
        reveal_strlit("receipt encryption key");
        reveal_strlit("Service Account receipt encryption key secret was rejected");
    }
}

/// The database URL is followed by the pepper, and the pepper by the receipt key,
/// each asked for under its own reference.
pub proof fn secrets_are_resolved_one_after_the_other(
    state: Activation,
    reply: SecretReply,
    next: Activation,
)
    requires
        call_ensures(Activation::resume, (state, ActivationEvent::Secret(reply)), next),
    ensures
        state matches Activation::ResolveDatabaseUrl { config, reference } ==> match reply {
            SecretReply::Value(value) => {
                &&& next matches Activation::ResolvePepper {
                    config: own,
                    database_url,
                    reference: asked,
                }
                &&& own == config
                &&& secret_text(database_url) == value@
                &&& asked == config.credential_pepper_secret
            },
            reply => ends_for_want_of(
                next,
                reply,
                "Service Account database URL secret was rejected"@,
            ),
        },
        state matches Activation::ResolvePepper { config, database_url, reference } ==> match reply {
            SecretReply::Value(value) => {
                &&& next matches Activation::ResolveReceiptKey {
                    config: own,
                    database_url: url,
                    pepper,
                    reference: asked,
                }
                &&& own == config
                &&& url == database_url
                &&& secret_bytes(pepper) == encode_utf8(value@)
                &&& asked == config.receipt_encryption_key_secret
            },
            reply => ends_for_want_of(
                next,
                reply,
                "Service Account credential pepper secret was rejected"@,
            ),
        },
{
    lemma_rejections();
}

/// With pepper and receipt key of at least 32 bytes each the database is to be
/// prepared with the plugin's plan; otherwise the activation ends and says why.
pub proof fn weak_secrets_are_refused(
    config: ServiceAccountConfig,
    database_url: SecretText,
    pepper: SecretBytes,
    reference: String,
    reply: SecretReply,
    next: Activation,
)
    requires
        call_ensures(
            Activation::resume,
            (
                Activation::ResolveReceiptKey { config, database_url, pepper, reference },
                ActivationEvent::Secret(reply),
            ),
            next,
        ),
    ensures
        match reply {
            SecretReply::Value(value) => if secret_bytes(pepper).len() < 32 || encode_utf8(
                value@,
            ).len() < 32 {
                &&& next matches Activation::Failed(failure)
                &&& tells(
                    failure,
                    "Service Account pepper and receipt encryption key must each contain at least 32 bytes"@,
                )
            } else if !schema_may_be_owned(config.schema@) {
                next matches Activation::Failed(Failure::InvalidSchema(_))
            } else {
                &&& next matches Activation::PrepareDatabase {
                    config: own,
                    database_url: url,
                    pepper: same,
                    receipt_key,
                    plan,
                }
                &&& own == config
                &&& url == database_url
                &&& same == pepper
                &&& secret_text(receipt_key) == value@
                &&& plan_schema(plan) == config.schema@
                &&& plan_migrations(plan) == seq![
                    (1u64, "create-service-account-state"@, MIGRATION_SQL@),
                ]
            },
            reply => ends_for_want_of(
                next,
                reply,
                "Service Account receipt encryption key secret was rejected"@,
            ),
        },
{
    lemma_rejections();
    lemma_schema(config.schema@);
}

/// Once the database is prepared the plugin is active with what was resolved: its
/// receipts are sealed under the hash of the receipt key, assertions are verified
/// for the configured issuer, and the dummy verifier is one of a fixed text under
/// the pepper. Only an unusable public key, the random source or a pepper beyond
/// all measure stand against it.
pub proof fn prepared_plugins_become_active(
    config: ServiceAccountConfig,
    database_url: SecretText,
    pepper: SecretBytes,
    receipt_key: SecretText,
    plan: lenso_postgres_kit::SchemaPlan,
    next: Activation,
)
    requires
        call_ensures(
            Activation::resume,
            (
                Activation::PrepareDatabase { config, database_url, pepper, receipt_key, plan },
                ActivationEvent::DatabasePrepared,
            ),
            next,
        ),
    ensures
        ({
            let input = encode_utf8("invalid service-account credential"@) + seq![0u8]
                + secret_bytes(pepper);
            if !ed25519_public_key(config.auth_public_key@) {
                &&& next matches Activation::Failed(Failure::InvalidPlan(detail))
                &&& detail@ == "invalid Service Account Auth verification key"@
            } else {
                match next {
                    Activation::Active(active) => {
                        &&& active.config == config
                        &&& active.pepper == pepper
                        &&& active.receipt_cipher.key() == sha256_digest(
                            encode_utf8(secret_text(receipt_key)),
                        )
                        &&& trusted_authority(active.actor_authority) == (
                            config.auth_issuer@,
                            config.auth_public_key@,
                        )
                        &&& argon2_accepts(input, active.dummy_verifier@)
                        &&& exists|salt: Seq<u8>|
                            salt.len() == 16 && active.dummy_verifier@ == #[trigger] argon2id_phc(
                                input,
                                salt,
                            )
                    },
                    Activation::Failed(
                        Failure::Plugin(ServiceAccountPluginError::Crypto(error)),
                    ) => error is Random || input.len() >= 0x1_0000_0000,
                    _ => false,
                }
            }
        }),
{
}

/// An active plugin holds what was resolved for it, and seals its receipts under
/// the hash of the receipt key.
pub proof fn active_plugins_hold_what_was_resolved(
    config: ServiceAccountConfig,
    pepper: SecretBytes,
    receipt_key: &SecretText,
    actor_authority: lenso_auth_sdk::ActorAssertionVerifier,
    dummy_verifier: String,
    r: Activation,
)
    requires
        call_ensures(
            Activation::activated,
            (config, pepper, receipt_key, actor_authority, dummy_verifier),
            r,
        ),
    ensures
        match r {
            Activation::Active(active) => {
                &&& active.config == config
                &&& active.pepper == pepper
                &&& active.receipt_cipher.key() == sha256_digest(
                    encode_utf8(secret_text(*receipt_key)),
                )
                &&& active.actor_authority == actor_authority
                &&& active.dummy_verifier == dummy_verifier
            },
            _ => false,
        },
{
}

/// A reply that was not asked for ends the activation.
pub proof fn stray_replies_end_an_activation(
    state: Activation,
    event: ActivationEvent,
    next: Activation,
)
    requires
        call_ensures(Activation::resume, (state, event), next),
        event is DatabasePrepared ==> !(state is PrepareDatabase),
        event is Secret ==> !(state is ResolveDatabaseUrl || state is ResolvePepper
            || state is ResolveReceiptKey),
    ensures
        next == Activation::Failed(Failure::UnexpectedReply),
{
}

/// A configuration is made of what is given, exactly if all of it is as it must
/// be.
pub proof fn configurations_hold_what_is_given(
    schema: String,
    database_url_secret: String,
    credential_pepper_secret: String,
    receipt_encryption_key_secret: String,
    directory_provider: String,
    auth_issuer: String,
    auth_public_key: String,
    management_callers: Vec<String>,
    authentication_callers: Vec<String>,
    token_audience: Vec<String>,
    credential_ttl_seconds: u64,
    rotation_overlap_seconds: u64,
    token_ttl_seconds: u64,
    receipt_ttl_seconds: u64,
    exchange_window_seconds: u64,
    max_exchanges_per_window: u32,
    exchange_lockout_seconds: u64,
    max_page_size: u32,
    max_accounts_per_organization: u32,
    r: Result<ServiceAccountConfig, ServiceAccountConfigError>,
)
    requires
        call_ensures(
            ServiceAccountConfig::new,
            (
                schema,
                database_url_secret,
                credential_pepper_secret,
                receipt_encryption_key_secret,
                directory_provider,
                auth_issuer,
                auth_public_key,
                management_callers,
                authentication_callers,
                token_audience,
                credential_ttl_seconds,
                rotation_overlap_seconds,
                token_ttl_seconds,
                receipt_ttl_seconds,
                exchange_window_seconds,
                max_exchanges_per_window,
                exchange_lockout_seconds,
                max_page_size,
                max_accounts_per_organization,
            ),
            r,
        ),
    ensures
        ({
            let given = ServiceAccountConfig {
                schema,
                database_url_secret,
                credential_pepper_secret,
                receipt_encryption_key_secret,
                directory_provider,
                auth_issuer,
                auth_public_key,
                management_callers,
                authentication_callers,
                token_audience,
                credential_ttl_seconds,
                rotation_overlap_seconds,
                token_ttl_seconds,
                receipt_ttl_seconds,
                exchange_window_seconds,
                max_exchanges_per_window,
                exchange_lockout_seconds,
                max_page_size,
                max_accounts_per_organization,
            };
            &&& r is Ok <==> {
                &&& schema_may_be_owned(schema@)
                &&& has_three_references(given)
                &&& has_authorities(given)
                &&& has_a_public_key(given)
                &&& has_authority_sets(given)
                &&& has_bounds(given)
            }
            &&& r matches Ok(config) ==> config == given
        }),
{
    lemma_schema(schema@);
    lemma_identifiers(management_callers@, 128);
    lemma_identifiers(authentication_callers@, 128);
    lemma_identifiers(token_audience@, 256);
}

} // verus!
