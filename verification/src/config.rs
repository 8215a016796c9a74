//! Configuration and its rules.

use vstd::prelude::*;
use vstd::string::*;

use crate::error::Failure;
use crate::schema::{owned_schema_name, schema_plan};
use crate::text::{byte_len, is_token, text_len, valid_token};

verus! {

/// Configuration of one plugin instance.
#[derive(Clone, Debug, PartialEq, Eq)]
pub struct ServiceAccountConfig {
    pub schema: String,
    pub database_url_secret: String,
    pub credential_pepper_secret: String,
    pub receipt_encryption_key_secret: String,
    pub directory_provider: String,
    pub auth_issuer: String,
    pub auth_public_key: String,
    pub management_callers: Vec<String>,
    pub authentication_callers: Vec<String>,
    pub token_audience: Vec<String>,
    pub credential_ttl_seconds: u64,
    pub rotation_overlap_seconds: u64,
    pub token_ttl_seconds: u64,
    pub receipt_ttl_seconds: u64,
    pub exchange_window_seconds: u64,
    pub max_exchanges_per_window: u32,
    pub exchange_lockout_seconds: u64,
    pub max_page_size: u32,
    pub max_accounts_per_organization: u32,
}

/// Which rule a configuration breaks.
#[derive(Clone, Copy, Debug, PartialEq, Eq)]
pub enum ServiceAccountConfigError {
    InvalidSchema,
    InvalidSecretReferences,
    InvalidAuthorities,
    InvalidAuthPublicKey,
    InvalidAuthoritySet,
    InvalidLimits,
}

impl ServiceAccountConfigError {
    /// What an operator is told.
    pub open spec fn message_view(self) -> Seq<char> {
        match self {
            ServiceAccountConfigError::InvalidSchema => "invalid owned PostgreSQL schema"@,
            ServiceAccountConfigError::InvalidSecretReferences =>
                "database, credential pepper, and receipt encryption need distinct secret references"@,
            ServiceAccountConfigError::InvalidAuthorities =>
                "invalid Identity Directory provider or Auth issuer"@,
            ServiceAccountConfigError::InvalidAuthPublicKey =>
                "invalid Auth actor assertion public key"@,
            ServiceAccountConfigError::InvalidAuthoritySet =>
                "caller or audience sets must contain unique exact Instance keys"@,
            ServiceAccountConfigError::InvalidLimits =>
                "invalid credential, token, receipt, rate, page, or organization limit"@,
        }
    }

    /// What an operator is told.
    pub fn message(&self) -> (r: String)
        ensures
            r@ == self.message_view(),
    {
        match self {
            ServiceAccountConfigError::InvalidSchema =>
                "invalid owned PostgreSQL schema".to_string(),
            ServiceAccountConfigError::InvalidSecretReferences =>
                "database, credential pepper, and receipt encryption need distinct secret references".to_string(),
            ServiceAccountConfigError::InvalidAuthorities =>
                "invalid Identity Directory provider or Auth issuer".to_string(),
            ServiceAccountConfigError::InvalidAuthPublicKey =>
                "invalid Auth actor assertion public key".to_string(),
            ServiceAccountConfigError::InvalidAuthoritySet =>
                "caller or audience sets must contain unique exact Instance keys".to_string(),
            ServiceAccountConfigError::InvalidLimits =>
                "invalid credential, token, receipt, rate, page, or organization limit".to_string(),
        }
    }
}

/// `lenso_auth_sdk::ActorAssertionVerifier`: verifies assertions of one issuer
/// with one public key.
#[verifier::external_type_specification]
#[verifier::external_body]
pub struct ExActorAssertionVerifier(lenso_auth_sdk::ActorAssertionVerifier);

/// Whether a text is the URL-safe base64 form of an Ed25519 public key.
pub uninterp spec fn ed25519_public_key(text: Seq<char>) -> bool;

/// The issuer and the public key that a verifier goes by.
pub uninterp spec fn trusted_authority(authority: lenso_auth_sdk::ActorAssertionVerifier) -> (
    Seq<char>,
    Seq<char>,
);

/// `lenso_auth_sdk::ActorAssertionVerifier::from_public_key_base64`. Whether it
/// succeeds depends on the key's text alone; the verifier goes by the issuer and
/// the key that were given.
#[verifier::external_body]
fn assertion_authority(issuer: String, public_key: &str) -> (r: Option<
    lenso_auth_sdk::ActorAssertionVerifier,
>)
    ensures
        r is Some == ed25519_public_key(public_key@),
        r matches Some(authority) ==> trusted_authority(authority) == (issuer@, public_key@),
{
    lenso_auth_sdk::ActorAssertionVerifier::from_public_key_base64(issuer, public_key).ok()
}

/// A reference to a secret is an identifier of at most 256 characters.
pub fn valid_secret_reference(value: &str) -> (r: bool)
    ensures
        r == is_token(value@, 256),
{
    valid_authority(value, 256)
}

/// An authority is an identifier of at most `max` characters.
pub fn valid_authority(value: &str, max: usize) -> (r: bool)
    ensures
        r == is_token(value@, max as nat),
{
    valid_token(value, max)
}

/// 1 to 64 different identifiers of at most `max_length` characters.
pub open spec fn is_authority_set(values: Seq<String>, max_length: nat) -> bool {
    &&& 1 <= values.len() <= 64
    &&& forall|i: int| 0 <= i < values.len() ==> is_token((#[trigger] values[i])@, max_length)
    &&& forall|i: int, j: int|
        0 <= i < j < values.len() ==> (#[trigger] values[i])@ != (#[trigger] values[j])@
}

/// Whether `values` are 1 to 64 different identifiers of at most `max_length`
/// characters.
pub fn validate_authority_set(values: &[String], max_length: usize) -> (r: Result<
    (),
    ServiceAccountConfigError,
>)
    ensures
        match r {
            Ok(_) => is_authority_set(values@, max_length as nat),
            Err(error) => {
                &&& error is InvalidAuthoritySet
                &&& !is_authority_set(values@, max_length as nat)
            },
        },
{
    if values.len() == 0 || values.len() > 64 {
        return Err(ServiceAccountConfigError::InvalidAuthoritySet);
    }
    let mut i: usize = 0;
    while i < values.len()
        invariant
            i <= values@.len(),
            forall|k: int| 0 <= k < i ==> is_token((#[trigger] values@[k])@, max_length as nat),
            forall|k: int, l: int|
                0 <= k < l < i ==> (#[trigger] values@[k])@ != (#[trigger] values@[l])@,
        decreases values@.len() - i,
    {
        if !valid_authority(values[i].as_str(), max_length) {
            return Err(ServiceAccountConfigError::InvalidAuthoritySet);
        }
        let mut j: usize = 0;
        while j < i
            invariant
                j <= i < values@.len(),
                forall|k: int| 0 <= k < j ==> (#[trigger] values@[k])@ != values@[i as int]@,
            decreases i - j,
        {
            if values[j] == values[i] {
                assert(values@[j as int]@ == values@[i as int]@);
                return Err(ServiceAccountConfigError::InvalidAuthoritySet);
            }
            j += 1;
        }
        i += 1;
    }
    Ok(())
}

impl ServiceAccountConfig {
    /// The three secret references are identifiers and differ from each other.
    pub open spec fn secret_references_hold(self) -> bool {
        &&& is_token(self.database_url_secret@, 256)
        &&& is_token(self.credential_pepper_secret@, 256)
        &&& is_token(self.receipt_encryption_key_secret@, 256)
        &&& self.database_url_secret@ != self.credential_pepper_secret@
        &&& self.database_url_secret@ != self.receipt_encryption_key_secret@
        &&& self.credential_pepper_secret@ != self.receipt_encryption_key_secret@
    }

    pub open spec fn public_key_holds(self) -> bool {
        &&& 1 <= byte_len(self.auth_public_key@) <= 256
        &&& ed25519_public_key(self.auth_public_key@)
    }

    pub open spec fn authority_sets_hold(self) -> bool {
        &&& is_authority_set(self.management_callers@, 128)
        &&& is_authority_set(self.authentication_callers@, 128)
        &&& is_authority_set(self.token_audience@, 256)
    }

    pub open spec fn limits_hold(self) -> bool {
        &&& 300 <= self.credential_ttl_seconds <= 31_536_000
        &&& self.rotation_overlap_seconds <= 3_600
        &&& self.rotation_overlap_seconds < self.credential_ttl_seconds
        &&& 1 <= self.token_ttl_seconds <= 86_400
        &&& self.token_ttl_seconds <= self.credential_ttl_seconds
        &&& 300 <= self.receipt_ttl_seconds <= 604_800
        &&& 1 <= self.exchange_window_seconds <= 3_600
        &&& 1 <= self.max_exchanges_per_window <= 10_000
        &&& 1 <= self.exchange_lockout_seconds <= 86_400
        &&& 1 <= self.max_page_size <= 200
        &&& 1 <= self.max_accounts_per_organization <= 10_000
    }

    /// The first rule that the configuration breaks, if it breaks one.
    pub open spec fn first_broken_rule(self) -> Option<ServiceAccountConfigError> {
        if !owned_schema_name(self.schema@) {
            Some(ServiceAccountConfigError::InvalidSchema)
        } else if !self.secret_references_hold() {
            Some(ServiceAccountConfigError::InvalidSecretReferences)
        } else if !is_token(self.directory_provider@, 128) || !is_token(self.auth_issuer@, 128) {
            Some(ServiceAccountConfigError::InvalidAuthorities)
        } else if !self.public_key_holds() {
            Some(ServiceAccountConfigError::InvalidAuthPublicKey)
        } else if !self.authority_sets_hold() {
            Some(ServiceAccountConfigError::InvalidAuthoritySet)
        } else if !self.limits_hold() {
            Some(ServiceAccountConfigError::InvalidLimits)
        } else {
            None
        }
    }

    /// A configuration that breaks no rule.
    pub fn new(
        schema: String,
        database_url_secret: String,
        credential_pepper_secret: String,
        receipt_encryption_key_secret: String,
        directory_provider: String,
        auth_issuer: String,
        auth_public_key: String,
        management_callers: Vec<String>,
        authentication_callers: Vec<String>,
        token_audience: Vec<String>,
        credential_ttl_seconds: u64,
        rotation_overlap_seconds: u64,
        token_ttl_seconds: u64,
        receipt_ttl_seconds: u64,
        exchange_window_seconds: u64,
        max_exchanges_per_window: u32,
        exchange_lockout_seconds: u64,
        max_page_size: u32,
        max_accounts_per_organization: u32,
    ) -> (r: Result<ServiceAccountConfig, ServiceAccountConfigError>)
        ensures
            ({
                let value = ServiceAccountConfig {
                    schema,
                    database_url_secret,
                    credential_pepper_secret,
                    receipt_encryption_key_secret,
                    directory_provider,
                    auth_issuer,
                    auth_public_key,
                    management_callers,
                    authentication_callers,
                    token_audience,
                    credential_ttl_seconds,
                    rotation_overlap_seconds,
                    token_ttl_seconds,
                    receipt_ttl_seconds,
                    exchange_window_seconds,
                    max_exchanges_per_window,
                    exchange_lockout_seconds,
                    max_page_size,
                    max_accounts_per_organization,
                };
                match value.first_broken_rule() {
                    None => r == Ok::<_, ServiceAccountConfigError>(value),
                    Some(error) => r == Err::<ServiceAccountConfig, _>(error),
                }
            }),
    {
        let value = ServiceAccountConfig {
            schema,
            database_url_secret,
            credential_pepper_secret,
            receipt_encryption_key_secret,
            directory_provider,
            auth_issuer,
            auth_public_key,
            management_callers,
            authentication_callers,
            token_audience,
            credential_ttl_seconds,
            rotation_overlap_seconds,
            token_ttl_seconds,
            receipt_ttl_seconds,
            exchange_window_seconds,
            max_exchanges_per_window,
            exchange_lockout_seconds,
            max_page_size,
            max_accounts_per_organization,
        };
        match value.validate() {
            Ok(_) => Ok(value),
            Err(error) => Err(error),
        }
    }

    /// What verifies actor assertions under this configuration, if the public
    /// key is one.
    pub fn actor_authority(&self) -> (r: Option<lenso_auth_sdk::ActorAssertionVerifier>)
        ensures
            r is Some == ed25519_public_key(self.auth_public_key@),
            r matches Some(authority) ==> trusted_authority(authority) == (
                self.auth_issuer@,
                self.auth_public_key@,
            ),
    {
        assertion_authority(self.auth_issuer.clone(), self.auth_public_key.as_str())
    }

    /// Checks the rules in order and names the first that is broken.
    pub fn validate(&self) -> (r: Result<(), ServiceAccountConfigError>)
        ensures
            match self.first_broken_rule() {
                None => r is Ok,
                Some(error) => r == Err::<(), _>(error),
            },
    {
        if schema_plan(self.schema.clone()).is_err() {
            return Err(ServiceAccountConfigError::InvalidSchema);
        }
        if !valid_secret_reference(self.database_url_secret.as_str()) || !valid_secret_reference(
            self.credential_pepper_secret.as_str(),
        ) || !valid_secret_reference(self.receipt_encryption_key_secret.as_str())
            || self.database_url_secret == self.credential_pepper_secret || self.database_url_secret
            == self.receipt_encryption_key_secret || self.credential_pepper_secret
            == self.receipt_encryption_key_secret {
            return Err(ServiceAccountConfigError::InvalidSecretReferences);
        }
        if !valid_authority(self.directory_provider.as_str(), 128) || !valid_authority(
            self.auth_issuer.as_str(),
            128,
        ) {
            return Err(ServiceAccountConfigError::InvalidAuthorities);
        }
        let key_len: usize = text_len(self.auth_public_key.as_str());
        if key_len == 0 || key_len > 256 || self.actor_authority().is_none() {
            return Err(ServiceAccountConfigError::InvalidAuthPublicKey);
        }
        validate_authority_set(self.management_callers.as_slice(), 128)?;
        validate_authority_set(self.authentication_callers.as_slice(), 128)?;
        validate_authority_set(self.token_audience.as_slice(), 256)?;
        if self.credential_ttl_seconds < 300 || self.credential_ttl_seconds > 31_536_000
            || self.rotation_overlap_seconds > 3_600 || self.rotation_overlap_seconds
            >= self.credential_ttl_seconds || self.token_ttl_seconds < 1 || self.token_ttl_seconds
            > 86_400 || self.token_ttl_seconds > self.credential_ttl_seconds
            || self.receipt_ttl_seconds < 300 || self.receipt_ttl_seconds > 604_800
            || self.exchange_window_seconds < 1 || self.exchange_window_seconds > 3_600
            || self.max_exchanges_per_window < 1 || self.max_exchanges_per_window > 10_000
            || self.exchange_lockout_seconds < 1 || self.exchange_lockout_seconds > 86_400
            || self.max_page_size < 1 || self.max_page_size > 200
            || self.max_accounts_per_organization < 1 || self.max_accounts_per_organization
            > 10_000 {
            return Err(ServiceAccountConfigError::InvalidLimits);
        }
        Ok(())
    }
}

/// What a configuration that breaks a rule is refused with.
pub open spec fn refusal_text(error: ServiceAccountConfigError) -> Seq<char> {
    "Service Account configuration is invalid: "@ + error.message_view()
}

/// Refuses a configuration that breaks a rule.
pub fn validate_config(config: &ServiceAccountConfig) -> (r: Result<(), Failure>)
    ensures
        match config.first_broken_rule() {
            None => r is Ok,
            Some(error) => {
                &&& r matches Err(Failure::InvalidPlan(detail))
                &&& detail@ == refusal_text(error)
            },
        },
{
    match config.validate() {
        Ok(_) => Ok(()),
        Err(error) => {
            let mut detail: String = "Service Account configuration is invalid: ".to_string();
            detail.append(error.message().as_str());
            Err(Failure::InvalidPlan(detail))
        },
    }
}

/// Whether `values` hold `value`.
pub open spec fn lists(values: Seq<String>, value: Seq<char>) -> bool {
    exists|i: int| 0 <= i < values.len() && (#[trigger] values[i])@ == value
}

/// Whether `values` hold `value`.
pub fn listed(values: &Vec<String>, value: &String) -> (r: bool)
    ensures
        r == lists(values@, value@),
{
    let mut i: usize = 0;
    while i < values.len()
        invariant
            i <= values@.len(),
            forall|k: int| 0 <= k < i ==> (#[trigger] values@[k])@ != value@,
        decreases values@.len() - i,
    {
        if values[i] == *value {
            assert(values@[i as int]@ == value@);
            return true;
        }
        i += 1;
    }
    false
}

} // verus!
