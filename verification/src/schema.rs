//! The PostgreSQL schema that the plugin owns.

use vstd::prelude::*;
use vstd::string::*;

verus! {

/// Name of the migration that creates the plugin's tables.
pub const MIGRATION_NAME: &'static str = "create-service-account-state";

/// Statements of the migration that creates the plugin's tables.
pub const MIGRATION_SQL: &'static str = "\
CREATE TABLE service_accounts (
    service_account_id TEXT COLLATE \"C\" PRIMARY KEY,
    organization_id TEXT NOT NULL,
    subject TEXT NOT NULL,
    name TEXT NOT NULL,
    name_key TEXT NOT NULL,
    status TEXT NOT NULL CHECK (status IN ('active', 'revoked')),
    revision BIGINT NOT NULL DEFAULT 1 CHECK (revision > 0),
    created_at TIMESTAMPTZ NOT NULL DEFAULT now(),
    updated_at TIMESTAMPTZ NOT NULL DEFAULT now(),
    rotated_at TIMESTAMPTZ,
    revoked_at TIMESTAMPTZ,
    CONSTRAINT service_accounts_organization_name_unique UNIQUE (organization_id, name_key),
    CONSTRAINT service_accounts_subject_unique UNIQUE (subject)
);

CREATE TABLE service_account_credentials (
    credential_id TEXT COLLATE \"C\" PRIMARY KEY,
    service_account_id TEXT COLLATE \"C\" NOT NULL REFERENCES service_accounts (service_account_id),
    verifier TEXT NOT NULL,
    valid_from TIMESTAMPTZ NOT NULL,
    valid_until TIMESTAMPTZ NOT NULL,
    created_at TIMESTAMPTZ NOT NULL DEFAULT now(),
    superseded_at TIMESTAMPTZ,
    revoked_at TIMESTAMPTZ,
    last_used_at TIMESTAMPTZ,
    CHECK (valid_until >= valid_from)
);

CREATE INDEX service_account_credentials_account
    ON service_account_credentials (service_account_id, created_at DESC, credential_id DESC);

CREATE TABLE service_account_commands (
    caller_instance TEXT NOT NULL,
    operation TEXT NOT NULL,
    idempotency_key TEXT NOT NULL,
    intent_hash BYTEA NOT NULL,
    status TEXT NOT NULL CHECK (
        status IN ('reserved', 'verifying', 'issuing', 'completed_success', 'completed_error')
    ),
    response_nonce BYTEA,
    response_ciphertext BYTEA,
    error_code TEXT,
    created_at TIMESTAMPTZ NOT NULL DEFAULT now(),
    updated_at TIMESTAMPTZ NOT NULL DEFAULT now(),
    completed_at TIMESTAMPTZ,
    PRIMARY KEY (caller_instance, operation, idempotency_key)
);

CREATE INDEX service_account_commands_completed
    ON service_account_commands (completed_at)
    WHERE completed_at IS NOT NULL;

CREATE TABLE service_account_exchange_limits (
    caller_instance TEXT PRIMARY KEY,
    window_started_at TIMESTAMPTZ NOT NULL,
    attempts BIGINT NOT NULL CHECK (attempts >= 0),
    locked_until TIMESTAMPTZ
);
";

/// `lenso_postgres_kit::SchemaPlan`: a validated schema name with its
/// migrations.
#[verifier::external_type_specification]
#[verifier::external_body]
pub struct ExSchemaPlan(lenso_postgres_kit::SchemaPlan);

/// The schema that a plan is for.
pub uninterp spec fn plan_schema(plan: lenso_postgres_kit::SchemaPlan) -> Seq<char>;

/// The migrations that a plan holds: version, name and statements.
pub uninterp spec fn plan_migrations(plan: lenso_postgres_kit::SchemaPlan) -> Seq<
    (u64, Seq<char>, Seq<char>),
>;

pub open spec fn schema_name_char(c: char) -> bool {
    'a' <= c <= 'z' || '0' <= c <= '9' || c == '_'
}

/// A schema name that a plugin may own: 1 to 63 lower-case letters, digits and
/// underscores, the first a letter, and none of PostgreSQL's own names.
pub open spec fn owned_schema_name(name: Seq<char>) -> bool {
    &&& 1 <= name.len() <= 63
    &&& 'a' <= name[0] <= 'z'
    &&& forall|i: int| 0 <= i < name.len() ==> schema_name_char(#[trigger] name[i])
    &&& name != "public"@
    &&& name != "information_schema"@
    &&& !"pg_"@.is_prefix_of(name)
}

/// `lenso_postgres_kit::SchemaPlan::new` with one migration of version 1. Its
/// name and statements are valid ones, so it succeeds exactly on a schema name
/// that a plugin may own, and the plan holds what it was made with. The plan
/// borrows its list of migrations for the life of the program, so each call
/// leaves a list of one behind.
#[verifier::external_body]
fn plan_with_one_migration(schema: String, name: &'static str, sql: &'static str) -> (r: Result<
    lenso_postgres_kit::SchemaPlan,
    lenso_postgres_kit::PlanError,
>)
    requires
        name@ == MIGRATION_NAME@,
        sql@ == MIGRATION_SQL@,
    ensures
        r is Ok == owned_schema_name(schema@),
        r matches Ok(plan) ==> plan_schema(plan) == schema@,
        r matches Ok(plan) ==> plan_migrations(plan) == seq![(1u64, name@, sql@)],
{
    let migrations = vec![lenso_postgres_kit::Migration::new(1, name, sql)];
    lenso_postgres_kit::SchemaPlan::new(schema, migrations.leak())
}

/// The plan of the plugin's tables in `schema`, if the plugin may own a schema
/// of that name.
pub fn schema_plan(schema: String) -> (r: Result<
    lenso_postgres_kit::SchemaPlan,
    lenso_postgres_kit::PlanError,
>)
    ensures
        r is Ok == owned_schema_name(schema@),
        r matches Ok(plan) ==> plan_schema(plan) == schema@,
        r matches Ok(plan) ==> plan_migrations(plan) == seq![
            (1u64, MIGRATION_NAME@, MIGRATION_SQL@),
        ],
{
    plan_with_one_migration(schema, MIGRATION_NAME, MIGRATION_SQL)
}

} // verus!
