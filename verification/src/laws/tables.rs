//! What the transactions do to the tables.

use vstd::prelude::*;
use vstd::string::*;

use crate::error::ServiceAccountPluginError;
use crate::instant::stored_instant;
use crate::laws::kept_as;
use crate::rows::{
    AccountRecord, AccountRow, CommandClaim, CommandKey, CommandKeyView, CommandRecord, CommandView,
    CredentialRecord, CredentialRow, CredentialView, LimitRecord,
};
use crate::storage::{
    account_row, is_latest_credential, listable, owned_credential, row_ids, younger, Tables,
    TablesView,
};
use crate::table::{lemma_table_domain, lemma_table_index, Record};
use crate::text::{text_before, text_before_total, text_before_transitive};

verus! {

/// Every stored row is seen under its own key with its own fields.
pub proof fn rows_are_seen_as_they_are_stored(tables: Tables, i: int)
    requires
        tables.well_formed(),
    ensures
        0 <= i < tables.accounts@.len() ==> {
            let stored = tables.accounts@[i];
            let seen = tables@.accounts[stored.service_account_id@];
            &&& tables@.accounts.dom().contains(stored.service_account_id@)
            &&& seen.organization_id == stored.organization_id@
            &&& seen.subject == stored.subject@
            &&& seen.name == stored.name@
            &&& seen.name_key == stored.name_key@
            &&& seen.status == stored.status@
            &&& seen.revision == stored.revision
            &&& seen.created_at == stored.created_at
            &&& seen.updated_at == stored.updated_at
            &&& seen.rotated_at is Some == stored.rotated_at is Some
            &&& stored.rotated_at matches Some(t) ==> seen.rotated_at == Some(t as int)
            &&& seen.revoked_at is Some == stored.revoked_at is Some
            &&& stored.revoked_at matches Some(t) ==> seen.revoked_at == Some(t as int)
        },
        0 <= i < tables.credentials@.len() ==> {
            let stored = tables.credentials@[i];
            let seen = tables@.credentials[stored.credential_id@];
            &&& tables@.credentials.dom().contains(stored.credential_id@)
            &&& seen.service_account_id == stored.service_account_id@
            &&& seen.verifier == stored.verifier@
            &&& seen.valid_from == stored.valid_from
            &&& seen.valid_until == stored.valid_until
            &&& seen.created_at == stored.created_at
            &&& seen.superseded_at is Some == stored.superseded_at is Some
            &&& stored.superseded_at matches Some(t) ==> seen.superseded_at == Some(t as int)
            &&& seen.revoked_at is Some == stored.revoked_at is Some
            &&& stored.revoked_at matches Some(t) ==> seen.revoked_at == Some(t as int)
            &&& seen.last_used_at is Some == stored.last_used_at is Some
            &&& stored.last_used_at matches Some(t) ==> seen.last_used_at == Some(t as int)
        },
        0 <= i < tables.commands@.len() ==> {
            let stored = tables.commands@[i];
            let key = CommandKeyView {
                caller: stored.command.caller@,
                operation: stored.command.operation@,
                idempotency_key: stored.command.idempotency_key@,
            };
            let seen = tables@.commands[key];
            &&& tables@.commands.dom().contains(key)
            &&& seen.intent_hash == stored.intent_hash@
            &&& seen.status == stored.status@
            &&& seen.response_nonce is Some == stored.response_nonce is Some
            &&& stored.response_nonce matches Some(b) ==> seen.response_nonce == Some(b@)
            &&& seen.response_ciphertext is Some == stored.response_ciphertext is Some
            &&& stored.response_ciphertext matches Some(b) ==> seen.response_ciphertext == Some(b@)
            &&& seen.error_code is Some == stored.error_code is Some
            &&& stored.error_code matches Some(text) ==> seen.error_code == Some(text@)
            &&& seen.updated_at == stored.updated_at
            &&& seen.completed_at is Some == stored.completed_at is Some
            &&& stored.completed_at matches Some(t) ==> seen.completed_at == Some(t as int)
        },
        0 <= i < tables.limits@.len() ==> {
            let stored = tables.limits@[i];
            let seen = tables@.limits[stored.caller_instance@];
            &&& tables@.limits.dom().contains(stored.caller_instance@)
            &&& seen.window_started_at == stored.window_started_at
            &&& seen.attempts == stored.attempts
            &&& seen.locked_until is Some == stored.locked_until is Some
            &&& stored.locked_until matches Some(t) ==> seen.locked_until == Some(t as int)
        },
{
    if 0 <= i < tables.accounts@.len() {
        lemma_table_index(tables.accounts@, i);
    }
    if 0 <= i < tables.credentials@.len() {
        lemma_table_index(tables.credentials@, i);
    }
    if 0 <= i < tables.commands@.len() {
        lemma_table_index(tables.commands@, i);
    }
    if 0 <= i < tables.limits@.len() {
        lemma_table_index(tables.limits@, i);
    }
}

/// Pruning drops exactly the commands that were completed more than the given
/// time before now, and changes nothing else.
pub proof fn pruning_drops_what_was_completed_long_ago(
    tables: &mut Tables,
    now: i128,
    seconds: u64,
    key: CommandKeyView,
)
    requires
        call_ensures(Tables::prune, (tables, now, seconds), ()),
    ensures
        final(tables)@.accounts == old(tables)@.accounts,
        final(tables)@.credentials == old(tables)@.credentials,
        final(tables)@.limits == old(tables)@.limits,
        ({
            let before = old(tables)@.commands;
            let after = final(tables)@.commands;
            let expired = before[key].completed_at matches Some(at) && now - at > seconds
                * 1_000_000_000;
            &&& after.dom().contains(key) <==> before.dom().contains(key) && !expired
            &&& after.dom().contains(key) ==> after[key] == before[key]
        }),
{
}

/// A claim stores a new command exactly where there was none under its key, and
/// changes nothing else.
pub proof fn claims_store_new_commands_only(
    tables: &mut Tables,
    key: &CommandKey,
    intent: &[u8],
    at: i128,
    r: Result<CommandClaim, ServiceAccountPluginError>,
)
    requires
        call_ensures(Tables::claim_command, (tables, key, intent, at), r),
    ensures
        old(tables)@.commands.dom().contains(key@) ==> final(tables)@ == old(tables)@,
        !old(tables)@.commands.dom().contains(key@) ==> {
            &&& r == Ok::<_, ServiceAccountPluginError>(CommandClaim::Claimed)
            &&& final(tables)@ == (TablesView {
                commands: old(tables)@.commands.insert(
                    key@,
                    CommandView {
                        intent_hash: intent@,
                        status: "reserved"@,
                        response_nonce: None,
                        response_ciphertext: None,
                        error_code: None,
                        updated_at: at as int,
                        completed_at: None,
                    },
                ),
                ..old(tables)@
            })
        },
{
}

/// A claim of a known command tells what became of it, if the intent is the
/// same, and else that it conflicts.
pub proof fn claims_tell_what_became_of_a_command(
    tables: &mut Tables,
    key: &CommandKey,
    intent: &[u8],
    at: i128,
    r: Result<CommandClaim, ServiceAccountPluginError>,
)
    requires
        call_ensures(Tables::claim_command, (tables, key, intent, at), r),
        old(tables)@.commands.dom().contains(key@),
    ensures
        ({
            let command = old(tables)@.commands[key@];
            &&& command.intent_hash != intent@ ==> r == Ok::<_, ServiceAccountPluginError>(
                CommandClaim::Conflict,
            )
            &&& command.intent_hash == intent@ && command.status == "completed_success"@ ==> match (
                command.response_nonce,
                command.response_ciphertext,
            ) {
                (Some(nonce), Some(ciphertext)) => {
                    &&& r matches Ok(CommandClaim::CompletedSuccess { nonce: n, ciphertext: c })
                    &&& n@ == nonce
                    &&& c@ == ciphertext
                },
                _ => r matches Err(error) && error.says(
                    "completed service-account command has no receipt"@,
                ),
            }
            &&& command.intent_hash == intent@ && command.status == "completed_error"@ ==> match command.error_code {
                Some(code) => r matches Ok(CommandClaim::CompletedError(text)) && text@ == code,
                None => r matches Err(error) && error.says(
                    "failed service-account command has no error code"@,
                ),
            }
            &&& command.intent_hash == intent@ && command.status != "completed_success"@
                && command.status != "completed_error"@ ==> r == Ok::<_, ServiceAccountPluginError>(
                CommandClaim::InProgress,
            )
        }),
{
    reveal_strlit("completed_success");
    reveal_strlit("completed_error");
    assert("completed_error"@.len() != "completed_success"@.len());
}

/// The command is one that runs.
pub open spec fn running(t: TablesView, key: CommandKeyView) -> bool {
    &&& t.commands.dom().contains(key)
    &&& {
        ||| t.commands[key].status == "reserved"@
        ||| t.commands[key].status == "verifying"@
        ||| t.commands[key].status == "issuing"@
    }
}

/// A command that runs is completed with its receipt; any other stays.
pub proof fn only_running_commands_succeed(
    tables: &mut Tables,
    key: &CommandKey,
    nonce: Vec<u8>,
    ciphertext: Vec<u8>,
    at: i128,
    r: Result<(), ServiceAccountPluginError>,
)
    requires
        call_ensures(Tables::complete_success, (tables, key, nonce, ciphertext, at), r),
    ensures
        !running(old(tables)@, key@) ==> {
            &&& r matches Err(error)
            &&& error.says("service-account command was not completable"@)
            &&& final(tables)@ == old(tables)@
        },
        running(old(tables)@, key@) ==> {
            let before = old(tables)@.commands[key@];
            &&& r is Ok
            &&& final(tables)@ == (TablesView {
                commands: old(tables)@.commands.insert(
                    key@,
                    CommandView {
                        intent_hash: before.intent_hash,
                        status: "completed_success"@,
                        response_nonce: Some(nonce@),
                        response_ciphertext: Some(ciphertext@),
                        error_code: before.error_code,
                        updated_at: at as int,
                        completed_at: Some(at as int),
                    },
                ),
                ..old(tables)@
            })
        },
{
}

/// A command that runs is completed with its error code; any other stays.
pub proof fn only_running_commands_fail(
    tables: &mut Tables,
    key: &CommandKey,
    code: &str,
    at: i128,
    r: Result<(), ServiceAccountPluginError>,
)
    requires
        call_ensures(Tables::complete_error, (tables, key, code, at), r),
    ensures
        !running(old(tables)@, key@) ==> {
            &&& r matches Err(error)
            &&& error.says("service-account command error was not completable"@)
            &&& final(tables)@ == old(tables)@
        },
        running(old(tables)@, key@) ==> {
            let before = old(tables)@.commands[key@];
            &&& r is Ok
            &&& final(tables)@ == (TablesView {
                commands: old(tables)@.commands.insert(
                    key@,
                    CommandView {
                        intent_hash: before.intent_hash,
                        status: "completed_error"@,
                        response_nonce: before.response_nonce,
                        response_ciphertext: before.response_ciphertext,
                        error_code: Some(code@),
                        updated_at: at as int,
                        completed_at: Some(at as int),
                    },
                ),
                ..old(tables)@
            })
        },
{
}

/// `row` shows the account as it is stored in `t`, and when the credential that
/// it got last ends.
pub open spec fn shows_account(t: TablesView, id: Seq<char>, row: AccountRow) -> bool {
    let account = t.accounts[id];
    &&& row.service_account_id@ == id
    &&& row.organization_id@ == account.organization_id
    &&& row.subject@ == account.subject
    &&& row.name@ == account.name
    &&& row.status@ == account.status
    &&& row.revision == account.revision
    &&& row.created_at == account.created_at
    &&& row.rotated_at is Some == account.rotated_at is Some
    &&& row.rotated_at matches Some(at) ==> account.rotated_at == Some(at as int)
    &&& row.revoked_at is Some == account.revoked_at is Some
    &&& row.revoked_at matches Some(at) ==> account.revoked_at == Some(at as int)
    &&& match row.credential_expires_at {
        Some(at) => exists|c: Seq<char>| #[trigger] ends_last_credential(t, id, c, at as int),
        None => forall|c: Seq<char>|
            #[trigger] t.credentials.dom().contains(c) ==> t.credentials[c].service_account_id
                != id,
    }
}

/// `c` is the credential that the account got last, and ends at `at`. Of two
/// that it got at once, the greater identifier counts.
pub open spec fn ends_last_credential(t: TablesView, id: Seq<char>, c: Seq<char>, at: int) -> bool {
    &&& t.credentials.dom().contains(c)
    &&& t.credentials[c].service_account_id == id
    &&& t.credentials[c].valid_until == at
    &&& forall|other: Seq<char>|
        #[trigger] t.credentials.dom().contains(other) && t.credentials[other].service_account_id
            == id ==> {
            ||| other == c
            ||| t.credentials[other].created_at < t.credentials[c].created_at
            ||| t.credentials[other].created_at == t.credentials[c].created_at && text_before(
                other,
                c,
            )
        }
}

/// Among finitely many credentials one is the youngest.
proof fn lemma_youngest(t: TablesView, some: Set<Seq<char>>) -> (c: Seq<char>)
    requires
        some.finite(),
        some.len() > 0,
    ensures
        some.contains(c),
        forall|other: Seq<char>| #[trigger]
            some.contains(other) && other != c ==> younger(t, c, other),
    decreases some.len(),
{
    let x = some.choose();
    let rest = some.remove(x);
    if rest.len() == 0 {
        assert forall|other: Seq<char>| #[trigger] some.contains(other) && other != x implies younger(
            t,
            x,
            other,
        ) by {
            assert(rest.contains(other));
        }
        x
    } else {
        let y = lemma_youngest(t, rest);
        text_before_total(x, y);
        let c = if younger(t, x, y) {
            x
        } else {
            y
        };
        assert forall|other: Seq<char>| #[trigger] some.contains(other) && other != c implies younger(
            t,
            c,
            other,
        ) by {
            if other != x && other != y {
                assert(rest.contains(other));
                assert(younger(t, y, other));
                if c == x && t.credentials[x].created_at == t.credentials[y].created_at
                    && t.credentials[y].created_at == t.credentials[other].created_at {
                    text_before_transitive(other, y, x);
                }
            }
        }
        c
    }
}

/// A row that is queried shows what is stored.
pub proof fn lemma_shows_account(t: TablesView, id: Seq<char>, row: AccountRow)
    requires
        t.credentials.dom().finite(),
        row@ == account_row(t, id),
    ensures
        shows_account(t, id, row),
{
    let owned = t.credentials.dom().filter(
        |c: Seq<char>| t.credentials[c].service_account_id == id,
    );
    if exists|c: Seq<char>|
        #[trigger] t.credentials.dom().contains(c) && t.credentials[c].service_account_id == id {
        let some = choose|c: Seq<char>|
            #[trigger] t.credentials.dom().contains(c) && t.credentials[c].service_account_id == id;
        assert(owned.contains(some));
        assert(owned.finite());
        if owned.len() == 0 {
            assert(owned =~= Set::empty());
        }
        let youngest = lemma_youngest(t, owned);
        assert forall|other: Seq<char>| #[trigger]
            owned_credential(t, other, id) && other != youngest implies younger(
            t,
            youngest,
            other,
        ) by {
            assert(owned.contains(other));
        }
        assert(is_latest_credential(t, youngest, id));
        let latest = choose|c: Seq<char>| is_latest_credential(t, c, id);
        assert(is_latest_credential(t, latest, id));
        assert forall|other: Seq<char>|
            #[trigger] t.credentials.dom().contains(other) && t.credentials[other].service_account_id
                == id && other != latest implies younger(t, latest, other) by {
            assert(owned_credential(t, other, id));
        }
        assert(ends_last_credential(t, id, latest, t.credentials[latest].valid_until));
    } else {
        assert(forall|c: Seq<char>| !is_latest_credential(t, c, id));
    }
}

/// An account is found exactly in its own organization, and is shown as it is.
pub proof fn accounts_are_found_in_their_organization(
    tables: &Tables,
    organization_id: &str,
    id: &str,
    r: Option<AccountRow>,
)
    requires
        tables.well_formed(),
        call_ensures(Tables::load_account, (tables, organization_id, id), r),
    ensures
        r is Some <==> tables@.accounts.dom().contains(id@) && tables@.accounts[id@].organization_id
            == organization_id@,
        r matches Some(row) ==> shows_account(tables@, id@, row),
{
    lemma_table_domain(tables.credentials@);
    if r is Some {
        lemma_shows_account(tables@, id@, r.unwrap());
    }
}

/// A query for accounts gives the first ones of the organization after the
/// cursor, in order of their identifiers, each shown as it is: none is left out
/// but where the limit is reached, and then only such as come later.
pub proof fn queries_give_the_first_accounts_in_order(
    tables: &Tables,
    organization_id: &str,
    after: Option<&str>,
    limit: usize,
    rows: Vec<AccountRow>,
)
    requires
        tables.well_formed(),
        call_ensures(Tables::list_accounts, (tables, organization_id, after, limit), rows),
    ensures
        rows@.len() <= limit,
        forall|i: int|
            0 <= i < rows@.len() ==> {
                let id = (#[trigger] rows@[i]).service_account_id@;
                &&& tables@.accounts.dom().contains(id)
                &&& tables@.accounts[id].organization_id == organization_id@
                &&& after matches Some(cursor) ==> text_before(cursor@, id)
                &&& shows_account(tables@, id, rows@[i])
            },
        forall|i: int, j: int|
            0 <= i < j < rows@.len() ==> text_before(
                (#[trigger] rows@[i]).service_account_id@,
                (#[trigger] rows@[j]).service_account_id@,
            ),
        forall|id: Seq<char>|
            #[trigger] tables@.accounts.dom().contains(id) && tables@.accounts[id].organization_id
                == organization_id@ && (after matches Some(cursor) ==> text_before(cursor@, id))
                ==> {
                ||| exists|i: int| 0 <= i < rows@.len() && (#[trigger] rows@[i]).service_account_id@
                    == id
                ||| rows@.len() == limit && forall|i: int|
                    0 <= i < rows@.len() ==> text_before(
                        (#[trigger] rows@[i]).service_account_id@,
                        id,
                    )
            },
{
    lemma_table_domain(tables.credentials@);
    let ids = row_ids(rows@);
    let from = after.deep_view();
    assert forall|i: int| 0 <= i < rows@.len() implies {
        let id = (#[trigger] rows@[i]).service_account_id@;
        &&& tables@.accounts.dom().contains(id)
        &&& tables@.accounts[id].organization_id == organization_id@
        &&& after matches Some(cursor) ==> text_before(cursor@, id)
        &&& shows_account(tables@, id, rows@[i])
    } by {
        assert(listable(tables@, organization_id@, from, ids[i]));
        lemma_shows_account(tables@, rows@[i].service_account_id@, rows@[i]);
    }
    assert forall|i: int, j: int| 0 <= i < j < rows@.len() implies text_before(
        (#[trigger] rows@[i]).service_account_id@,
        (#[trigger] rows@[j]).service_account_id@,
    ) by {
        assert(text_before(ids[i], ids[j]));
    }
    assert forall|id: Seq<char>|
        #[trigger] tables@.accounts.dom().contains(id) && tables@.accounts[id].organization_id
            == organization_id@ && (after matches Some(cursor) ==> text_before(
            cursor@,
            id,
        )) implies {
        ||| exists|i: int| 0 <= i < rows@.len() && (#[trigger] rows@[i]).service_account_id@ == id
        ||| rows@.len() == limit && forall|i: int|
            0 <= i < rows@.len() ==> text_before((#[trigger] rows@[i]).service_account_id@, id)
    } by {
        assert(listable(tables@, organization_id@, from, id));
        if ids.contains(id) {
            assert(rows@[ids.index_of(id)].service_account_id@ == id);
        } else {
            assert forall|i: int| 0 <= i < rows@.len() implies text_before(
                (#[trigger] rows@[i]).service_account_id@,
                id,
            ) by {
                assert(text_before(ids[i], id));
            }
        }
    }
}

/// `row` shows the credential and its account as they are stored.
pub open spec fn shows_credential(t: TablesView, c: Seq<char>, row: CredentialRow) -> bool {
    let credential = t.credentials[c];
    let account = t.accounts[credential.service_account_id];
    &&& row.credential_id@ == c
    &&& row.service_account_id@ == credential.service_account_id
    &&& row.organization_id@ == account.organization_id
    &&& row.subject@ == account.subject
    &&& row.account_status@ == account.status
    &&& row.verifier@ == credential.verifier
    &&& row.valid_from == credential.valid_from
    &&& row.valid_until == credential.valid_until
    &&& row.revoked_at is Some == credential.revoked_at is Some
    &&& row.revoked_at matches Some(at) ==> credential.revoked_at == Some(at as int)
}

/// A credential is found by its identifier, with its account, if both are there.
pub proof fn credentials_are_found_with_their_account(
    tables: &Tables,
    credential_id: &str,
    r: Option<CredentialRow>,
)
    requires
        call_ensures(Tables::load_credential, (tables, credential_id), r),
    ensures
        r is Some <==> tables@.credentials.dom().contains(credential_id@)
            && tables@.accounts.dom().contains(
            tables@.credentials[credential_id@].service_account_id,
        ),
        r matches Some(row) ==> shows_credential(tables@, credential_id@, row),
{
}

/// An exchange is admitted exactly if, to the microsecond, the account is active,
/// the credential is its own, is not revoked, has begun and has not ended, and
/// the command was started and nothing more. It then notes the use and marks the
/// command; else nothing changes.
pub proof fn exchanges_are_admitted_while_account_and_credential_are_good(
    tables: &mut Tables,
    caller: &str,
    idempotency_key: &str,
    credential_id: &str,
    service_account_id: &str,
    now: i128,
    at: int,
    r: Option<CredentialRow>,
)
    requires
        kept_as(now as int, at),
        call_ensures(
            Tables::mark_exchange_issuing,
            (tables, caller, idempotency_key, credential_id, service_account_id, now),
            r,
        ),
    ensures
        ({
            let t = old(tables)@;
            let key = CommandKeyView {
                caller: caller@,
                operation: "exchange_secret"@,
                idempotency_key: idempotency_key@,
            };
            let account = t.accounts[service_account_id@];
            let credential = t.credentials[credential_id@];
            &&& r is Some <==> {
                &&& t.accounts.dom().contains(service_account_id@)
                &&& account.status == "active"@
                &&& t.credentials.dom().contains(credential_id@)
                &&& credential.service_account_id == service_account_id@
                &&& credential.revoked_at is None
                &&& credential.valid_from <= at < credential.valid_until
                &&& t.commands.dom().contains(key)
                &&& t.commands[key].status == "reserved"@
            }
            &&& r is None ==> final(tables)@ == t
            &&& r matches Some(row) ==> {
                &&& shows_credential(t, credential_id@, row)
                &&& final(tables)@.accounts == t.accounts
                &&& final(tables)@.limits == t.limits
                &&& final(tables)@.credentials == t.credentials.insert(
                    credential_id@,
                    CredentialView {
                        service_account_id: credential.service_account_id,
                        verifier: credential.verifier,
                        valid_from: credential.valid_from,
                        valid_until: credential.valid_until,
                        created_at: credential.created_at,
                        superseded_at: credential.superseded_at,
                        revoked_at: credential.revoked_at,
                        last_used_at: Some(at),
                    },
                )
                &&& final(tables)@.commands == t.commands.insert(
                    key,
                    CommandView {
                        intent_hash: t.commands[key].intent_hash,
                        status: "issuing"@,
                        response_nonce: t.commands[key].response_nonce,
                        response_ciphertext: t.commands[key].response_ciphertext,
                        error_code: t.commands[key].error_code,
                        updated_at: at,
                        completed_at: t.commands[key].completed_at,
                    },
                )
            }
        }),
{
}

/// Counting an attempt changes the limit of its own caller and nothing else.
pub proof fn attempts_touch_one_limit(
    tables: &mut Tables,
    caller: &str,
    now: i128,
    window_seconds: u64,
    max_attempts: u32,
    lockout_seconds: u64,
    admitted: bool,
    other: Seq<char>,
)
    requires
        other != caller@,
        call_ensures(
            Tables::reserve_rate_slot,
            (tables, caller, now, window_seconds, max_attempts, lockout_seconds),
            admitted,
        ),
    ensures
        final(tables)@.accounts == old(tables)@.accounts,
        final(tables)@.credentials == old(tables)@.credentials,
        final(tables)@.commands == old(tables)@.commands,
        final(tables)@.limits.dom().contains(caller@),
        final(tables)@.limits.dom().contains(other) == old(tables)@.limits.dom().contains(other),
        final(tables)@.limits[other] == old(tables)@.limits[other],
{
}

/// A caller that is locked out is refused until the lockout ends, and nothing
/// changes meanwhile.
pub proof fn locked_callers_are_refused(
    tables: &mut Tables,
    caller: &str,
    now: i128,
    window_seconds: u64,
    max_attempts: u32,
    lockout_seconds: u64,
    admitted: bool,
)
    requires
        old(tables)@.limits.dom().contains(caller@),
        old(tables)@.limits[caller@].locked_until matches Some(until) && now < until,
        call_ensures(
            Tables::reserve_rate_slot,
            (tables, caller, now, window_seconds, max_attempts, lockout_seconds),
            admitted,
        ),
    ensures
        !admitted,
        final(tables)@.limits[caller@] == old(tables)@.limits[caller@],
{
}

/// A caller that is not locked out starts a new window with its first attempt
/// ever, and with the first one after its window is over: what it tried before
/// does not count.
pub proof fn a_new_window_starts_with_one_attempt(
    tables: &mut Tables,
    caller: &str,
    now: i128,
    window_seconds: u64,
    max_attempts: u32,
    lockout_seconds: u64,
    admitted: bool,
)
    requires
        max_attempts >= 1,
        old(tables)@.limits.dom().contains(caller@) ==> {
            let limit = old(tables)@.limits[caller@];
            &&& limit.locked_until matches Some(until) ==> now >= until
            &&& now >= limit.window_started_at + window_seconds * 1_000_000_000
        },
        call_ensures(
            Tables::reserve_rate_slot,
            (tables, caller, now, window_seconds, max_attempts, lockout_seconds),
            admitted,
        ),
    ensures
        admitted,
        final(tables)@.limits.dom().contains(caller@),
        final(tables)@.limits[caller@].attempts == 1,
        final(tables)@.limits[caller@].locked_until is None,
        kept_as(now as int, final(tables)@.limits[caller@].window_started_at),
{
    if !old(tables)@.limits.dom().contains(caller@) {
        lemma_stored_twice(now as int);
    }
}

proof fn lemma_stored_twice(t: int)
    ensures
        kept_as(t, stored_instant(t)),
        stored_instant(stored_instant(t)) == stored_instant(t),
{
}

/// Inside its window a caller that is not locked out is admitted as long as it
/// has tried less often than it may, and the attempt is counted.
pub proof fn attempts_inside_a_window_are_counted(
    tables: &mut Tables,
    caller: &str,
    now: i128,
    window_seconds: u64,
    max_attempts: u32,
    lockout_seconds: u64,
    admitted: bool,
)
    requires
        old(tables)@.limits.dom().contains(caller@),
        ({
            let limit = old(tables)@.limits[caller@];
            &&& limit.locked_until matches Some(until) ==> now >= until
            &&& now < limit.window_started_at + window_seconds * 1_000_000_000
            &&& limit.attempts < max_attempts
        }),
        call_ensures(
            Tables::reserve_rate_slot,
            (tables, caller, now, window_seconds, max_attempts, lockout_seconds),
            admitted,
        ),
    ensures
        admitted,
        final(tables)@.limits[caller@].attempts == old(tables)@.limits[caller@].attempts + 1,
        final(tables)@.limits[caller@].locked_until is None,
        kept_as(
            old(tables)@.limits[caller@].window_started_at,
            final(tables)@.limits[caller@].window_started_at,
        ),
{
}

/// Where no attempt is allowed, none is admitted, and each locks the caller out
/// anew.
pub proof fn no_attempt_is_admitted_where_none_is_allowed(
    tables: &mut Tables,
    caller: &str,
    now: i128,
    window_seconds: u64,
    lockout_seconds: u64,
    admitted: bool,
)
    requires
        old(tables)@.limits.dom().contains(caller@) ==> {
            let limit = old(tables)@.limits[caller@];
            &&& limit.locked_until matches Some(until) ==> now >= until
            &&& limit.attempts >= 0
        },
        call_ensures(
            Tables::reserve_rate_slot,
            (tables, caller, now, window_seconds, 0u32, lockout_seconds),
            admitted,
        ),
    ensures
        !admitted,
        final(tables)@.limits[caller@].locked_until matches Some(until) && kept_as(
            now + lockout_seconds * 1_000_000_000,
            until,
        ),
{
}

/// One attempt too many inside a window is refused, and locks the caller out for
/// the given time from now. The count stays.
pub proof fn one_attempt_too_many_locks_the_caller_out(
    tables: &mut Tables,
    caller: &str,
    now: i128,
    window_seconds: u64,
    max_attempts: u32,
    lockout_seconds: u64,
    admitted: bool,
)
    requires
        old(tables)@.limits.dom().contains(caller@),
        ({
            let limit = old(tables)@.limits[caller@];
            &&& limit.locked_until matches Some(until) ==> now >= until
            &&& now < limit.window_started_at + window_seconds * 1_000_000_000
            &&& limit.attempts >= max_attempts
        }),
        call_ensures(
            Tables::reserve_rate_slot,
            (tables, caller, now, window_seconds, max_attempts, lockout_seconds),
            admitted,
        ),
    ensures
        !admitted,
        final(tables)@.limits[caller@].attempts == old(tables)@.limits[caller@].attempts,
        final(tables)@.limits[caller@].locked_until matches Some(until) && kept_as(
            now + lockout_seconds * 1_000_000_000,
            until,
        ),
        kept_as(
            old(tables)@.limits[caller@].window_started_at,
            final(tables)@.limits[caller@].window_started_at,
        ),
{
}

/// New tables hold nothing.
pub proof fn new_tables_are_empty(tables: Tables)
    requires
        call_ensures(Tables::new, (), tables),
    ensures
        tables.well_formed(),
        forall|id: Seq<char>| !#[trigger] tables@.accounts.dom().contains(id),
        forall|id: Seq<char>| !#[trigger] tables@.credentials.dom().contains(id),
        forall|key: CommandKeyView| !#[trigger] tables@.commands.dom().contains(key),
        forall|caller: Seq<char>| !#[trigger] tables@.limits.dom().contains(caller),
{
}

/// Rows are loaded as they are, exactly if no two of a table share their key and
/// all windows start at calendar dates.
pub proof fn rows_are_loaded_unless_keys_repeat(
    accounts: Vec<AccountRecord>,
    credentials: Vec<CredentialRecord>,
    commands: Vec<CommandRecord>,
    limits: Vec<LimitRecord>,
    r: Option<Tables>,
)
    requires
        call_ensures(Tables::load, (accounts, credentials, commands, limits), r),
    ensures
        r matches Some(tables) ==> {
            &&& tables.well_formed()
            &&& tables.accounts == accounts
            &&& tables.credentials == credentials
            &&& tables.commands == commands
            &&& tables.limits == limits
        },
        r is Some <==> {
            &&& forall|i: int, j: int|
                0 <= i < j < accounts@.len() ==> (#[trigger] accounts@[i]).service_account_id@ != (
                #[trigger] accounts@[j]).service_account_id@
            &&& forall|i: int, j: int|
                0 <= i < j < credentials@.len() ==> (#[trigger] credentials@[i]).credential_id@ != (
                #[trigger] credentials@[j]).credential_id@
            &&& forall|i: int, j: int|
                0 <= i < j < commands@.len() ==> !({
                    let a = (#[trigger] commands@[i]).command;
                    let b = (#[trigger] commands@[j]).command;
                    &&& a.caller@ == b.caller@
                    &&& a.operation@ == b.operation@
                    &&& a.idempotency_key@ == b.idempotency_key@
                })
            &&& forall|i: int, j: int|
                0 <= i < j < limits@.len() ==> (#[trigger] limits@[i]).caller_instance@ != (
                #[trigger] limits@[j]).caller_instance@
            &&& forall|i: int|
                0 <= i < limits@.len() ==> -40_000_000_000_000_000_000_000 <= (
                #[trigger] limits@[i]).window_started_at <= 40_000_000_000_000_000_000_000
        },
{
    let value = Tables { accounts, credentials, commands, limits };
    assert(r is Some == value.well_formed());
    assert forall|i: int, j: int| 0 <= i < j < commands@.len() implies ((
    #[trigger] commands@[i]).key() == (#[trigger] commands@[j]).key() <==> {
        let a = commands@[i].command;
        let b = commands@[j].command;
        &&& a.caller@ == b.caller@
        &&& a.operation@ == b.operation@
        &&& a.idempotency_key@ == b.idempotency_key@
    }) by {}
}

/// Commands are the same exactly if caller, operation and key are, and a copy is
/// the same.
pub proof fn commands_are_told_apart_by_three_texts(
    a: &CommandKey,
    b: &CommandKey,
    same: bool,
    copied: CommandKey,
)
    requires
        call_ensures(CommandKey::same, (a, b), same),
        call_ensures(CommandKey::copy, (a,), copied),
    ensures
        same <==> a.caller@ == b.caller@ && a.operation@ == b.operation@ && a.idempotency_key@
            == b.idempotency_key@,
        copied == *a,
{
}

} // verus!
