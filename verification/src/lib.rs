//! Organization-scoped service accounts: who may manage them, how their secrets
//! are made, rotated and revoked, and how a secret is exchanged for a credential.
//!
//! Outside work (providers, the database, serialization) is asked for by the
//! states of `create`, `rotate`, `revoke`, `inspect`, `authentication` and
//! `lifecycle`, and its outcome is handed back as an event. `storage` holds the
//! transactions on the tables, `history` what holds of them over time, and `laws`
//! what each operation does, said of its arguments and results.

pub mod admission;
pub mod auth_contract;
pub mod authentication;
pub mod authorization;
pub mod config;
pub mod contract;
pub mod create;
pub mod crypto;
pub mod debug;
pub mod entry;
pub mod error;
pub mod history;
pub mod inspect;
pub mod instant;
pub mod laws;
pub mod lifecycle;
pub mod management;
pub mod operator;
pub mod paging;
pub mod revoke;
pub mod rotate;
pub mod rows;
pub mod schema;
pub mod storage;
pub mod table;
pub mod text;
