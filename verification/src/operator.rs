//! What an operator installs before the plugin can be activated.

use vstd::prelude::*;
use vstd::string::*;

use crate::schema::{
    owned_schema_name, plan_migrations, plan_schema, schema_plan, MIGRATION_NAME, MIGRATION_SQL,
};

verus! {

/// Installs and upgrades the plugin's schema, apart from the running plugin.
#[derive(Clone, Copy, Debug)]
pub struct ServiceAccountOperator;

impl Default for ServiceAccountOperator {
    fn default() -> (r: ServiceAccountOperator)
        ensures
            r == ServiceAccountOperator,
    {
        ServiceAccountOperator
    }
}

impl ServiceAccountOperator {
    /// What `setup` and `upgrade` bring a database to.
    pub fn plan(schema: &str) -> (r: Result<
        lenso_postgres_kit::SchemaPlan,
        lenso_postgres_kit::PlanError,
    >)
        ensures
            r is Ok == owned_schema_name(schema@),
            r matches Ok(plan) ==> plan_schema(plan) == schema@,
            r matches Ok(plan) ==> plan_migrations(plan) == seq![
                (1u64, MIGRATION_NAME@, MIGRATION_SQL@),
            ],
    {
        schema_plan(schema.to_string())
    }
}

} // verus!
