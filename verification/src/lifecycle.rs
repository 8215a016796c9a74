//! From configuration to an active plugin: secrets are resolved, the schema is
//! checked, and key material is derived.

use vstd::prelude::*;
use vstd::string::*;

use crate::config::{ed25519_public_key, trusted_authority, ServiceAccountConfig};
use crate::crypto::{
    hash_secret, is_salted_verifier, peppered_input, secret_bytes, secret_text, secret_verifies, sha256_digest, ReceiptCipher,
    SecretBytes, SecretText,
};
use crate::debug::{
    debug_open_struct, field_views, open_struct_text, quoted, quoted_text, redacted, redacted_text,
    redaction_is_shown,
};
use crate::error::{Failure, ServiceAccountPluginError};
use crate::schema::{
    owned_schema_name, plan_migrations, plan_schema, schema_plan, MIGRATION_NAME, MIGRATION_SQL,
};
use crate::text::{byte_len, copy_bytes, holds_text, text_len};
use vstd::utf8::encode_utf8;

verus! {

/// What an active plugin works with, apart from its database.
pub struct ActiveServiceAccount {
    pub config: ServiceAccountConfig,
    pub pepper: SecretBytes,
    pub receipt_cipher: ReceiptCipher,
    pub actor_authority: lenso_auth_sdk::ActorAssertionVerifier,
    /// A verifier that no secret in use matches. A secret that names no known
    /// credential is checked against it.
    pub dummy_verifier: String,
}

impl ActiveServiceAccount {
    /// The form in diagnostics; keys, pepper and verifier are left out.
    pub open spec fn debug_view(self) -> Seq<char> {
        open_struct_text(
            "ActiveServiceAccount"@,
            seq![
                ("schema"@, quoted_text(self.config.schema@)),
                ("directory_provider"@, quoted_text(self.config.directory_provider@)),
                ("pepper"@, redacted_text()),
                ("receipt_cipher"@, self.receipt_cipher.debug_view()),
                ("dummy_verifier"@, redacted_text()),
            ],
        )
    }

    pub fn debug_text(&self) -> (r: String)
        ensures
            r@ == self.debug_view(),
    {
        let fields: Vec<(&str, String)> = vec![
            ("schema", quoted(self.config.schema.as_str())),
            ("directory_provider", quoted(self.config.directory_provider.as_str())),
            ("pepper", redacted()),
            ("receipt_cipher", self.receipt_cipher.debug_text()),
            ("dummy_verifier", redacted()),
        ];
        proof {
            assert(field_views(fields@) =~= seq![
                ("schema"@, quoted_text(self.config.schema@)),
                ("directory_provider"@, quoted_text(self.config.directory_provider@)),
                ("pepper"@, redacted_text()),
                ("receipt_cipher"@, self.receipt_cipher.debug_view()),
                ("dummy_verifier"@, redacted_text()),
            ]);
        }
        debug_open_struct("ActiveServiceAccount", &fields)
    }
}

/// Diagnostics of an active plugin do not depend on its key material, and show
/// that something was left out.
pub proof fn active_debug_hides_key_material(a: ActiveServiceAccount, b: ActiveServiceAccount)
    requires
        a.config == b.config,
    ensures
        a.debug_view() == b.debug_view(),
        holds_text(a.debug_view(), "<redacted>"@),
{
    let fields = seq![
        ("schema"@, quoted_text(a.config.schema@)),
        ("directory_provider"@, quoted_text(a.config.directory_provider@)),
        ("pepper"@, redacted_text()),
        ("receipt_cipher"@, a.receipt_cipher.debug_view()),
        ("dummy_verifier"@, redacted_text()),
    ];
    redaction_is_shown("ActiveServiceAccount"@, fields, 2);
}

/// Where an activation stands. All states but the last two ask for outside work.
pub enum Activation {
    /// Resolve the secret that `reference` names.
    ResolveDatabaseUrl { config: ServiceAccountConfig, reference: String },
    ResolvePepper { config: ServiceAccountConfig, database_url: SecretText, reference: String },
    ResolveReceiptKey {
        config: ServiceAccountConfig,
        database_url: SecretText,
        pepper: SecretBytes,
        reference: String,
    },
    /// Connect to the database and verify that it is at the plan.
    PrepareDatabase {
        config: ServiceAccountConfig,
        database_url: SecretText,
        pepper: SecretBytes,
        receipt_key: SecretText,
        plan: lenso_postgres_kit::SchemaPlan,
    },
    Active(ActiveServiceAccount),
    Failed(Failure),
}

/// Outside work that was done.
pub enum ActivationEvent {
    Secret(SecretReply),
    DatabasePrepared,
}

/// What the Secrets provider answered.
pub enum SecretReply {
    Value(String),
    Rejected,
    Failed,
}

/// What a rejected secret is reported as.
pub open spec fn rejection_text(label: Seq<char>) -> Seq<char> {
    "Service Account "@ + label + " secret was rejected"@
}

fn rejection(label: &str) -> (r: Failure)
    ensures
        r.says(rejection_text(label@)),
{
    let mut detail: String = "Service Account ".to_string();
    detail.append(label);
    detail.append(" secret was rejected");
    Failure::Detail(detail)
}

impl Activation {
    pub open spec fn is_start(self, config: ServiceAccountConfig) -> bool {
        self == Activation::ResolveDatabaseUrl { config, reference: config.database_url_secret }
    }

    pub fn start(config: ServiceAccountConfig) -> (r: Activation)
        ensures
            r.is_start(config),
    {
        let reference: String = config.database_url_secret.clone();
        Activation::ResolveDatabaseUrl { config, reference }
    }

    pub open spec fn fails_with(self, text: Seq<char>) -> bool {
        self matches Activation::Failed(failure) && failure.says(text)
    }

    /// The reply does not give a secret, and the activation ends as it must.
    pub open spec fn ends_without_secret(self, reply: SecretReply, label: Seq<char>) -> bool {
        match reply {
            SecretReply::Rejected => self.fails_with(rejection_text(label)),
            SecretReply::Failed => self == Activation::Failed(Failure::Relayed),
            SecretReply::Value(_) => false,
        }
    }

    /// Pepper and receipt key are long enough, and the schema can be owned.
    pub open spec fn ready(config: ServiceAccountConfig, pepper: Seq<u8>, receipt_key: Seq<char>) -> bool {
        &&& pepper.len() >= 32
        &&& byte_len(receipt_key) >= 32
        &&& owned_schema_name(config.schema@)
    }

    /// `next` is where the activation goes on after `event`.
    pub open spec fn steps_to(self, event: ActivationEvent, next: Activation) -> bool {
        match (self, event) {
            (
                Activation::ResolveDatabaseUrl { config, reference },
                ActivationEvent::Secret(reply),
            ) => match reply {
                SecretReply::Value(value) => {
                    &&& next matches Activation::ResolvePepper {
                        config: own,
                        database_url,
                        reference: asked,
                    }
                    &&& own == config
                    &&& secret_text(database_url) == value@
                    &&& asked == config.credential_pepper_secret
                },
                reply => next.ends_without_secret(reply, "database URL"@),
            },
            (
                Activation::ResolvePepper { config, database_url, reference },
                ActivationEvent::Secret(reply),
            ) => match reply {
                SecretReply::Value(value) => {
                    &&& next matches Activation::ResolveReceiptKey {
                        config: own,
                        database_url: url,
                        pepper,
                        reference: asked,
                    }
                    &&& own == config
                    &&& url == database_url
                    &&& secret_bytes(pepper) == encode_utf8(value@)
                    &&& asked == config.receipt_encryption_key_secret
                },
                reply => next.ends_without_secret(reply, "credential pepper"@),
            },
            (
                Activation::ResolveReceiptKey { config, database_url, pepper, reference },
                ActivationEvent::Secret(reply),
            ) => match reply {
                SecretReply::Value(value) => {
                    if Activation::ready(config, secret_bytes(pepper), value@) {
                        &&& next matches Activation::PrepareDatabase {
                            config: own,
                            database_url: url,
                            pepper: same_pepper,
                            receipt_key,
                            plan,
                        }
                        &&& own == config
                        &&& url == database_url
                        &&& same_pepper == pepper
                        &&& secret_text(receipt_key) == value@
                        &&& plan_schema(plan) == config.schema@
                        &&& plan_migrations(plan) == seq![(1u64, MIGRATION_NAME@, MIGRATION_SQL@)]
                    } else if secret_bytes(pepper).len() < 32 || byte_len(value@) < 32 {
                        next.fails_with(
                            "Service Account pepper and receipt encryption key must each contain at least 32 bytes"@,
                        )
                    } else {
                        next matches Activation::Failed(Failure::InvalidSchema(_))
                    }
                },
                reply => next.ends_without_secret(reply, "receipt encryption key"@),
            },
            (
                Activation::PrepareDatabase { config, database_url, pepper, receipt_key, plan },
                ActivationEvent::DatabasePrepared,
            ) => {
                if !ed25519_public_key(config.auth_public_key@) {
                    &&& next matches Activation::Failed(Failure::InvalidPlan(detail))
                    &&& detail@ == "invalid Service Account Auth verification key"@
                } else {
                    match next {
                        Activation::Active(active) => {
                            &&& next.is_active_with(
                                config,
                                pepper,
                                receipt_key,
                                active.actor_authority,
                                active.dummy_verifier,
                            )
                            &&& trusted_authority(active.actor_authority) == (
                                config.auth_issuer@,
                                config.auth_public_key@,
                            )
                            &&& is_salted_verifier(
                                "invalid service-account credential"@,
                                secret_bytes(pepper),
                                active.dummy_verifier@,
                            )
                            &&& secret_verifies(
                                "invalid service-account credential"@,
                                secret_bytes(pepper),
                                active.dummy_verifier@,
                            )
                        },
                        Activation::Failed(
                            Failure::Plugin(ServiceAccountPluginError::Crypto(error)),
                        ) => {
                            ||| error is Random
                            ||| error is PasswordHash && peppered_input(
                                "invalid service-account credential"@,
                                secret_bytes(pepper),
                            ).len() > 0xffff_ffff
                        },
                        _ => false,
                    }
                }
            },
            _ => next == Activation::Failed(Failure::UnexpectedReply),
        }
    }

    /// The plugin is active with what was resolved.
    pub open spec fn is_active_with(
        self,
        config: ServiceAccountConfig,
        pepper: SecretBytes,
        receipt_key: SecretText,
        actor_authority: lenso_auth_sdk::ActorAssertionVerifier,
        dummy_verifier: String,
    ) -> bool {
        &&& self matches Activation::Active(active)
        &&& active.config == config
        &&& active.pepper == pepper
        &&& active.receipt_cipher.key() == sha256_digest(encode_utf8(secret_text(receipt_key)))
        &&& active.actor_authority == actor_authority
        &&& active.dummy_verifier == dummy_verifier
    }

    /// Activates the plugin with what was resolved and the given dummy verifier.
    pub fn activated(
        config: ServiceAccountConfig,
        pepper: SecretBytes,
        receipt_key: &SecretText,
        actor_authority: lenso_auth_sdk::ActorAssertionVerifier,
        dummy_verifier: String,
    ) -> (r: Activation)
        ensures
            r.is_active_with(config, pepper, *receipt_key, actor_authority, dummy_verifier),
    {
        let receipt_cipher: ReceiptCipher = ReceiptCipher::derive(
            receipt_key.as_str().as_bytes(),
        );
        Activation::Active(
            ActiveServiceAccount { config, pepper, receipt_cipher, actor_authority, dummy_verifier },
        )
    }

    /// Goes on after `event`.
    pub fn resume(self, event: ActivationEvent) -> (next: Activation)
        ensures
            self.steps_to(event, next),
    {
        match (self, event) {
            (
                Activation::ResolveDatabaseUrl { config, reference: _ },
                ActivationEvent::Secret(reply),
            ) => match reply {
                SecretReply::Value(value) => {
                    let reference: String = config.credential_pepper_secret.clone();
                    Activation::ResolvePepper {
                        config,
                        database_url: SecretText::new(value),
                        reference,
                    }
                },
                SecretReply::Rejected => Activation::Failed(rejection("database URL")),
                SecretReply::Failed => Activation::Failed(Failure::Relayed),
            },
            (
                Activation::ResolvePepper { config, database_url, reference: _ },
                ActivationEvent::Secret(reply),
            ) => match reply {
                SecretReply::Value(value) => {
                    let reference: String = config.receipt_encryption_key_secret.clone();
                    let guarded: SecretText = SecretText::new(value);
                    Activation::ResolveReceiptKey {
                        config,
                        database_url,
                        pepper: SecretBytes::new(copy_bytes(guarded.as_str().as_bytes())),
                        reference,
                    }
                },
                SecretReply::Rejected => Activation::Failed(rejection("credential pepper")),
                SecretReply::Failed => Activation::Failed(Failure::Relayed),
            },
            (
                Activation::ResolveReceiptKey { config, database_url, pepper, reference: _ },
                ActivationEvent::Secret(reply),
            ) => match reply {
                SecretReply::Value(value) => {
                    let receipt_key: SecretText = SecretText::new(value);
                    if pepper.as_slice().len() < 32 || text_len(receipt_key.as_str()) < 32 {
                        return Activation::Failed(
                            Failure::detail(
                                "Service Account pepper and receipt encryption key must each contain at least 32 bytes",
                            ),
                        );
                    }
                    match schema_plan(config.schema.clone()) {
                        Ok(plan) => Activation::PrepareDatabase {
                            config,
                            database_url,
                            pepper,
                            receipt_key,
                            plan,
                        },
                        Err(error) => Activation::Failed(Failure::InvalidSchema(error)),
                    }
                },
                SecretReply::Rejected => Activation::Failed(rejection("receipt encryption key")),
                SecretReply::Failed => Activation::Failed(Failure::Relayed),
            },
            (
                Activation::PrepareDatabase { config, database_url: _, pepper, receipt_key, plan: _ },
                ActivationEvent::DatabasePrepared,
            ) => match config.actor_authority() {
                None => Activation::Failed(
                    Failure::InvalidPlan(
                        "invalid Service Account Auth verification key".to_string(),
                    ),
                ),
                Some(actor_authority) => match hash_secret(
                    "invalid service-account credential",
                    pepper.as_slice(),
                ) {
                    Ok(dummy_verifier) => Activation::activated(
                        config,
                        pepper,
                        &receipt_key,
                        actor_authority,
                        dummy_verifier,
                    ),
                    Err(error) => Activation::Failed(
                        Failure::Plugin(ServiceAccountPluginError::Crypto(error)),
                    ),
                },
            },
            _ => Activation::Failed(Failure::UnexpectedReply),
        }
    }
}

/// `states` is a run of an activation over `events`.
pub open spec fn is_activation_run(
    states: Seq<Activation>,
    events: Seq<ActivationEvent>,
    config: ServiceAccountConfig,
) -> bool {
    &&& states.len() == events.len() + 1
    &&& states[0].is_start(config)
    &&& forall|i: int|
        0 <= i < events.len() ==> (#[trigger] states[i]).steps_to(events[i], states[i + 1])
}

/// What holds of every state of an activation.
spec fn activation_invariant(state: Activation, config: ServiceAccountConfig) -> bool {
    match state {
        Activation::ResolveDatabaseUrl { config: own, reference } => own == config && reference
            == config.database_url_secret,
        Activation::ResolvePepper { config: own, reference, .. } => own == config && reference
            == config.credential_pepper_secret,
        Activation::ResolveReceiptKey { config: own, reference, .. } => own == config && reference
            == config.receipt_encryption_key_secret,
        Activation::PrepareDatabase { config: own, pepper, receipt_key, plan, .. } => {
            &&& own == config
            &&& Activation::ready(config, secret_bytes(pepper), secret_text(receipt_key))
            &&& plan_schema(plan) == config.schema@
            &&& plan_migrations(plan) == seq![(1u64, MIGRATION_NAME@, MIGRATION_SQL@)]
        },
        Activation::Active(active) => {
            &&& active.config == config
            &&& secret_bytes(active.pepper).len() >= 32
        },
        Activation::Failed(_) => true,
    }
}

proof fn lemma_activation_invariant(
    states: Seq<Activation>,
    events: Seq<ActivationEvent>,
    config: ServiceAccountConfig,
    i: int,
)
    requires
        is_activation_run(states, events, config),
        0 <= i <= events.len(),
    ensures
        activation_invariant(states[i], config),
    decreases i,
{
    if i > 0 {
        lemma_activation_invariant(states, events, config, i - 1);
        assert(states[i - 1].steps_to(events[i - 1], states[i]));
    }
}

/// The plugin becomes active only with the configuration it was started with,
/// with a pepper and a receipt key of at least 32 bytes each, and after its
/// database was verified to be at the plan of the configured schema, with exactly
/// the plugin's migrations.
pub proof fn activation_needs_strong_secrets_and_a_prepared_schema(
    states: Seq<Activation>,
    events: Seq<ActivationEvent>,
    config: ServiceAccountConfig,
)
    requires
        is_activation_run(states, events, config),
        states.last() is Active,
    ensures
        ({
            let active = states.last()->Active_0;
            &&& active.config == config
            &&& secret_bytes(active.pepper).len() >= 32
            &&& events.len() > 0
            &&& events.last() is DatabasePrepared
            &&& states[states.len() - 2] matches Activation::PrepareDatabase {
                receipt_key,
                plan,
                ..
            }
            &&& plan_schema(plan) == config.schema@
            &&& plan_migrations(plan) == seq![(1u64, MIGRATION_NAME@, MIGRATION_SQL@)]
            &&& byte_len(secret_text(receipt_key)) >= 32
            &&& active.receipt_cipher.key() == sha256_digest(
                encode_utf8(secret_text(receipt_key)),
            )
        }),
{
    let n = events.len() as int;
    lemma_activation_invariant(states, events, config, n);
    assert(states[n] == states.last());
    if n > 0 {
        lemma_activation_invariant(states, events, config, n - 1);
        assert(states[n - 1].steps_to(events[n - 1], states[n]));
    }
}

} // verus!
