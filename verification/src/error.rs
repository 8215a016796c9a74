//! Failures that are not part of an operation's own answer.

use vstd::prelude::*;
use vstd::string::*;

verus! {

/// `getrandom::Error`: why the system's random source gave no bytes.
#[verifier::external_type_specification]
#[verifier::external_body]
pub struct ExRandomError(getrandom::Error);

/// `argon2::password_hash::Error`: why a password was not hashed.
#[verifier::external_type_specification]
#[verifier::external_body]
pub struct ExPasswordHashError(argon2::password_hash::Error);

/// `time::Error`: why an instant has no textual form.
#[verifier::external_type_specification]
#[verifier::external_body]
pub struct ExTimeError(time::Error);

/// `serde_json::Error`: why a value has no JSON form, or a text no value.
#[verifier::external_type_specification]
#[verifier::external_body]
pub struct ExJsonError(serde_json::Error);

/// `lenso_postgres_kit::PlanError`: why a schema plan is invalid.
#[verifier::external_type_specification]
#[verifier::external_body]
pub struct ExPlanError(lenso_postgres_kit::PlanError);

/// A cryptographic step failed.
pub enum CryptoError {
    /// Secure random material could not be generated.
    Random(getrandom::Error),
    /// The Argon2id verifier could not be created.
    PasswordHash(argon2::password_hash::Error),
    /// The receipt could not be serialized.
    Serialize(serde_json::Error),
    /// The receipt could not be deserialized.
    Deserialize(serde_json::Error),
    /// The command receipt could not be encrypted.
    ReceiptEncryption,
    /// The command receipt could not be decrypted.
    ReceiptDecryption,
}

/// The plugin itself failed.
pub enum ServiceAccountPluginError {
    Crypto(CryptoError),
    /// Secure random material could not be generated.
    Random(getrandom::Error),
    /// The idempotency intent could not be serialized.
    SerializeReceipt(serde_json::Error),
    /// A UTC timestamp could not be formatted.
    FormatTime(time::Error),
    /// The stored state contradicts what the plugin maintains.
    Invariant(&'static str),
}

impl ServiceAccountPluginError {
    /// The stored state contradicts what the plugin maintains in this way.
    pub open spec fn says(self, text: Seq<char>) -> bool {
        self matches ServiceAccountPluginError::Invariant(detail) && detail@ == text
    }
}

/// Why an operation ends without an answer to its caller.
pub enum Failure {
    /// The plugin itself failed.
    Plugin(ServiceAccountPluginError),
    /// A provider or a secret broke its contract; the text says how.
    Detail(String),
    /// The configuration cannot be activated; the text says why.
    InvalidPlan(String),
    /// The configured schema cannot be owned.
    InvalidSchema(lenso_postgres_kit::PlanError),
    /// A row would break the named unique constraint.
    Constraint(String),
    /// A dependency failed at run time; its own failure is passed on.
    Relayed,
    /// The reply does not belong to the work that was asked for.
    UnexpectedReply,
}

impl Failure {
    /// The failure carries exactly this text.
    pub open spec fn says(self, text: Seq<char>) -> bool {
        self matches Failure::Detail(detail) && detail@ == text
    }

    pub fn detail(text: &str) -> (r: Failure)
        ensures
            r.says(text@),
    {
        Failure::Detail(text.to_string())
    }
}

} // verus!
