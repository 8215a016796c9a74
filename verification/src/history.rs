//! What holds of the tables after any sequence of transactions.

use vstd::prelude::*;

use crate::admission::{receipt_binding, Admission, AdmissionEvent};
use crate::crypto::{opened_receipt, ReceiptCipher};
use crate::instant::{after_seconds, stored_instant};
use crate::rows::{ClaimView, CommandClaim, CommandKey, CommandKeyView, LimitView};
use crate::storage::{
    account_row, after_admission, after_claim, after_creation, after_error, after_prune,
    after_revocation, after_rotation, after_success, claim_outcome, completable,
    creation_obstacle, exchange_key, expired_command, limit_of, merely_reserved, name_taken,
    organization_account, organization_accounts, owned_credential, rate_decision,
    revocation_obstacle, rotation_obstacle, usable_credential, NewAccount, Obstacle, Revocation,
    Rotation, TablesView, ACCOUNT_ID_UNIQUE, ORGANIZATION_NAME_UNIQUE,
};
use crate::text::lowercase;

verus! {

/// A transaction with all that it depends on. One whose conditions are not met
/// changes nothing.
pub enum Transaction {
    Prune { cutoff: int },
    Claim { key: CommandKeyView, intent: Seq<u8>, at: int },
    Succeed { key: CommandKeyView, nonce: Seq<u8>, ciphertext: Seq<u8>, at: int },
    Fail { key: CommandKeyView, code: Seq<char>, at: int },
    Create {
        key: CommandKeyView,
        account: NewAccount,
        max_accounts: int,
        nonce: Seq<u8>,
        ciphertext: Seq<u8>,
        at: int,
    },
    Rotate { key: CommandKeyView, rotation: Rotation, nonce: Seq<u8>, ciphertext: Seq<u8>, at: int },
    Revoke {
        key: CommandKeyView,
        revocation: Revocation,
        now: int,
        nonce: Seq<u8>,
        ciphertext: Seq<u8>,
        at: int,
    },
    Admit {
        caller: Seq<char>,
        idempotency_key: Seq<char>,
        credential_id: Seq<char>,
        service_account_id: Seq<char>,
        now: int,
    },
    Attempt { caller: Seq<char>, now: int, window_seconds: int, max_attempts: int, lockout_seconds: int },
}

/// The tables after one transaction.
pub open spec fn transact(t: TablesView, transaction: Transaction) -> TablesView {
    match transaction {
        Transaction::Prune { cutoff } => after_prune(t, cutoff),
        Transaction::Claim { key, intent, at } => after_claim(t, key, intent, at),
        Transaction::Succeed { key, nonce, ciphertext, at } => if completable(t, key) {
            after_success(t, key, nonce, ciphertext, at)
        } else {
            t
        },
        Transaction::Fail { key, code, at } => if completable(t, key) {
            after_error(t, key, code, at)
        } else {
            t
        },
        Transaction::Create { key, account, max_accounts, nonce, ciphertext, at } => {
            if creation_obstacle(t, account, max_accounts) is None && completable(t, key) {
                after_success(after_creation(t, account, at), key, nonce, ciphertext, at)
            } else {
                t
            }
        },
        Transaction::Rotate { key, rotation, nonce, ciphertext, at } => {
            if rotation_obstacle(t, rotation) is None && completable(t, key) {
                after_success(after_rotation(t, rotation, at), key, nonce, ciphertext, at)
            } else {
                t
            }
        },
        Transaction::Revoke { key, revocation, now, nonce, ciphertext, at } => {
            if revocation_obstacle(t, revocation) is None && completable(t, key) {
                after_success(after_revocation(t, revocation, now), key, nonce, ciphertext, at)
            } else {
                t
            }
        },
        Transaction::Admit { caller, idempotency_key, credential_id, service_account_id, now } => {
            let at = stored_instant(now);
            let key = exchange_key(caller, idempotency_key);
            if usable_credential(t, credential_id, service_account_id, at) && merely_reserved(
                t,
                key,
            ) {
                after_admission(t, key, credential_id, at)
            } else {
                t
            }
        },
        Transaction::Attempt { caller, now, window_seconds, max_attempts, lockout_seconds } => {
            let decision = rate_decision(
                limit_of(t, caller),
                now,
                window_seconds,
                max_attempts,
                lockout_seconds,
            );
            TablesView { limits: t.limits.insert(caller, decision.1), ..t }
        },
    }
}

/// The tables after a sequence of transactions.
pub open spec fn replay(t: TablesView, history: Seq<Transaction>) -> TablesView
    decreases history.len(),
{
    if history.len() == 0 {
        t
    } else {
        transact(replay(t, history.drop_last()), history.last())
    }
}

pub open spec fn empty_tables() -> TablesView {
    TablesView {
        accounts: Map::empty(),
        credentials: Map::empty(),
        commands: Map::empty(),
        limits: Map::empty(),
    }
}

/// Inside an organization no two accounts have the same name key.
pub open spec fn names_unique(t: TablesView) -> bool {
    forall|a: Seq<char>, b: Seq<char>|
        #![trigger t.accounts.dom().contains(a), t.accounts.dom().contains(b)]
        t.accounts.dom().contains(a) && t.accounts.dom().contains(b)
            && t.accounts[a].organization_id == t.accounts[b].organization_id
            && t.accounts[a].name_key == t.accounts[b].name_key ==> a == b
}

/// No two accounts have the same Directory subject.
pub open spec fn subjects_unique(t: TablesView) -> bool {
    forall|a: Seq<char>, b: Seq<char>|
        #![trigger t.accounts.dom().contains(a), t.accounts.dom().contains(b)]
        t.accounts.dom().contains(a) && t.accounts.dom().contains(b) && t.accounts[a].subject
            == t.accounts[b].subject ==> a == b
}

/// Every credential belongs to an account, and every credential of a revoked
/// account is revoked.
pub open spec fn credentials_follow_accounts(t: TablesView) -> bool {
    forall|c: Seq<char>| #[trigger]
        t.credentials.dom().contains(c) ==> {
            let id = t.credentials[c].service_account_id;
            &&& t.accounts.dom().contains(id)
            &&& t.accounts[id].status == "revoked"@ ==> t.credentials[c].revoked_at is Some
        }
}

/// An account is active or revoked, and has a positive revision.
pub open spec fn accounts_ordinary(t: TablesView) -> bool {
    forall|id: Seq<char>| #[trigger]
        t.accounts.dom().contains(id) ==> {
            &&& t.accounts[id].status == "active"@ || t.accounts[id].status == "revoked"@
            &&& 1 <= t.accounts[id].revision <= i64::MAX
        }
}

/// The name key of an account is its name in lower case.
pub open spec fn names_keyed(t: TablesView) -> bool {
    forall|id: Seq<char>| #[trigger]
        t.accounts.dom().contains(id) ==> t.accounts[id].name_key == lowercase(
            t.accounts[id].name,
        )
}

/// An account to be created is keyed by its name in lower case.
pub open spec fn well_keyed(account: NewAccount) -> bool {
    account.name_key@ == lowercase(account.name@)
}

/// If the transaction creates an account, the account is keyed by its name in
/// lower case, as `insertions_are_well_keyed` shows of every creation.
pub open spec fn proper(transaction: Transaction) -> bool {
    transaction matches Transaction::Create { account, .. } ==> well_keyed(account)
}

/// What every transaction keeps.
pub open spec fn sound(t: TablesView) -> bool {
    &&& names_keyed(t)
    &&& names_unique(t)
    &&& subjects_unique(t)
    &&& credentials_follow_accounts(t)
    &&& accounts_ordinary(t)
}

proof fn lemma_creation_sound(t: TablesView, a: NewAccount, max_accounts: int, at: int)
    requires
        sound(t),
        creation_obstacle(t, a, max_accounts) is None,
        well_keyed(a),
    ensures
        sound(after_creation(t, a, at)),
{
    reveal_strlit("active");
    reveal_strlit("revoked");
    let after = after_creation(t, a, at);
    let id = a.service_account_id@;
    assert(!t.accounts.dom().contains(id));
    assert forall|x: Seq<char>, y: Seq<char>|
        #![trigger after.accounts.dom().contains(x), after.accounts.dom().contains(y)]
        after.accounts.dom().contains(x) && after.accounts.dom().contains(y)
            && after.accounts[x].organization_id == after.accounts[y].organization_id
            && after.accounts[x].name_key == after.accounts[y].name_key implies x == y by {
        if x != y {
            if x == id {
                assert(organization_account(t, a.organization_id@, y));
            } else if y == id {
                assert(organization_account(t, a.organization_id@, x));
            } else {
                assert(t.accounts.dom().contains(x) && t.accounts.dom().contains(y));
            }
        }
    }
    assert forall|x: Seq<char>, y: Seq<char>|
        #![trigger after.accounts.dom().contains(x), after.accounts.dom().contains(y)]
        after.accounts.dom().contains(x) && after.accounts.dom().contains(y)
            && after.accounts[x].subject == after.accounts[y].subject implies x == y by {
        if x != y {
            if x == id {
                assert(t.accounts.dom().contains(y));
            } else if y == id {
                assert(t.accounts.dom().contains(x));
            } else {
                assert(t.accounts.dom().contains(x) && t.accounts.dom().contains(y));
            }
        }
    }
    assert forall|x: Seq<char>| #[trigger]
        after.accounts.dom().contains(x) implies after.accounts[x].name_key == lowercase(
        after.accounts[x].name,
    ) by {
        if x != id {
            assert(t.accounts.dom().contains(x));
        }
    }
    assert forall|c: Seq<char>| #[trigger] after.credentials.dom().contains(c) implies {
        let owner = after.credentials[c].service_account_id;
        &&& after.accounts.dom().contains(owner)
        &&& after.accounts[owner].status == "revoked"@ ==> after.credentials[c].revoked_at is Some
    } by {
        if c != a.credential_id@ {
            assert(t.credentials.dom().contains(c));
        }
        assert("active"@.len() != "revoked"@.len());
    }
    assert forall|x: Seq<char>| #[trigger] after.accounts.dom().contains(x) implies {
        &&& after.accounts[x].status == "active"@ || after.accounts[x].status == "revoked"@
        &&& 1 <= after.accounts[x].revision <= i64::MAX
    } by {
        if x != id {
            assert(t.accounts.dom().contains(x));
        }
    }
}

proof fn lemma_rotation_sound(t: TablesView, r: Rotation, at: int)
    requires
        sound(t),
        rotation_obstacle(t, r) is None,
    ensures
        sound(after_rotation(t, r, at)),
{
    let after = after_rotation(t, r, at);
    let id = r.service_account_id@;
    assert(t.accounts.dom().contains(id));
    assert(after.accounts.dom() =~= t.accounts.dom());
    assert forall|c: Seq<char>| #[trigger] after.credentials.dom().contains(c) implies {
        let owner = after.credentials[c].service_account_id;
        &&& after.accounts.dom().contains(owner)
        &&& after.accounts[owner].status == "revoked"@ ==> after.credentials[c].revoked_at is Some
    } by {
        if c != r.credential_id@ {
            assert(t.credentials.dom().contains(c));
        }
    }
}

proof fn lemma_revocation_sound(t: TablesView, r: Revocation, now: int)
    requires
        sound(t),
        revocation_obstacle(t, r) is None,
    ensures
        sound(after_revocation(t, r, now)),
{
    let after = after_revocation(t, r, now);
    let id = r.service_account_id@;
    assert(t.accounts.dom().contains(id));
    assert(after.accounts.dom() =~= t.accounts.dom());
    assert(after.credentials.dom() =~= t.credentials.dom());
    assert forall|c: Seq<char>| #[trigger] after.credentials.dom().contains(c) implies {
        let owner = after.credentials[c].service_account_id;
        &&& after.accounts.dom().contains(owner)
        &&& after.accounts[owner].status == "revoked"@ ==> after.credentials[c].revoked_at is Some
    } by {
        assert(t.credentials.dom().contains(c));
    }
}

/// Every transaction keeps the tables sound: names stay unique inside their
/// organization, and are keyed by their lower-case form, subjects stay unique, and
/// revoked accounts keep no live credential.
pub proof fn transactions_keep_tables_sound(t: TablesView, transaction: Transaction)
    requires
        sound(t),
        proper(transaction),
    ensures
        sound(transact(t, transaction)),
{
    match transaction {
        Transaction::Create { key, account, max_accounts, nonce, ciphertext, at } => {
            if creation_obstacle(t, account, max_accounts) is None {
                lemma_creation_sound(t, account, max_accounts, at);
            }
        },
        Transaction::Rotate { key, rotation, nonce, ciphertext, at } => {
            if rotation_obstacle(t, rotation) is None {
                lemma_rotation_sound(t, rotation, at);
            }
        },
        Transaction::Revoke { key, revocation, now, nonce, ciphertext, at } => {
            if revocation_obstacle(t, revocation) is None {
                lemma_revocation_sound(t, revocation, now);
            }
        },
        Transaction::Admit { caller, idempotency_key, credential_id, service_account_id, now } => {
            let after = transact(t, transaction);
            assert forall|c: Seq<char>| #[trigger] after.credentials.dom().contains(c) implies {
                let owner = after.credentials[c].service_account_id;
                &&& after.accounts.dom().contains(owner)
                &&& after.accounts[owner].status == "revoked"@
                    ==> after.credentials[c].revoked_at is Some
            } by {
                assert(t.credentials.dom().contains(c));
            }
        },
        _ => {},
    }
}

/// Whatever transactions run on empty tables, names are unique inside each
/// organization and are keyed by their lower-case form, subjects are unique, and
/// revoked accounts keep no live credential.
pub proof fn every_history_is_sound(history: Seq<Transaction>)
    requires
        forall|i: int| 0 <= i < history.len() ==> proper(#[trigger] history[i]),
    ensures
        sound(replay(empty_tables(), history)),
    decreases history.len(),
{
    if history.len() > 0 {
        let earlier = history.drop_last();
        assert forall|i: int| 0 <= i < earlier.len() implies proper(#[trigger] earlier[i]) by {
            assert(earlier[i] == history[i]);
        }
        every_history_is_sound(earlier);
        transactions_keep_tables_sound(
            replay(empty_tables(), history.drop_last()),
            history.last(),
        );
    }
}

/// Whatever transactions run on empty tables, no two accounts of an organization
/// have the same name up to ASCII case.
pub proof fn names_are_unique_up_to_case(history: Seq<Transaction>, a: Seq<char>, b: Seq<char>)
    requires
        forall|i: int| 0 <= i < history.len() ==> proper(#[trigger] history[i]),
        replay(empty_tables(), history).accounts.dom().contains(a),
        replay(empty_tables(), history).accounts.dom().contains(b),
        ({
            let accounts = replay(empty_tables(), history).accounts;
            &&& accounts[a].organization_id == accounts[b].organization_id
            &&& lowercase(accounts[a].name) == lowercase(accounts[b].name)
        }),
    ensures
        a == b,
{
    every_history_is_sound(history);
}

/// An account is never removed. Its organization, name and subject never
/// change, its revision never falls, and once revoked it stays revoked.
pub proof fn accounts_are_stable(t: TablesView, transaction: Transaction, id: Seq<char>)
    requires
        t.accounts.dom().contains(id),
    ensures
        ({
            let after = transact(t, transaction).accounts;
            &&& after.dom().contains(id)
            &&& after[id].organization_id == t.accounts[id].organization_id
            &&& after[id].name == t.accounts[id].name
            &&& after[id].name_key == t.accounts[id].name_key
            &&& after[id].subject == t.accounts[id].subject
            &&& after[id].created_at == t.accounts[id].created_at
            &&& after[id].revision >= t.accounts[id].revision
            &&& t.accounts[id].status == "revoked"@ ==> after[id] == t.accounts[id]
        }),
{
}

/// Once an account is revoked, no exchange is admitted for it, whatever happens
/// afterwards.
pub proof fn revocation_is_final(
    t: TablesView,
    history: Seq<Transaction>,
    id: Seq<char>,
    credential_id: Seq<char>,
    at: int,
)
    requires
        t.accounts.dom().contains(id),
        t.accounts[id].status == "revoked"@,
    ensures
        replay(t, history).accounts.dom().contains(id),
        replay(t, history).accounts[id] == t.accounts[id],
        !usable_credential(replay(t, history), credential_id, id, at),
    decreases history.len(),
{
    reveal_strlit("active");
    reveal_strlit("revoked");
    assert("active"@.len() != "revoked"@.len());
    if history.len() > 0 {
        revocation_is_final(t, history.drop_last(), id, credential_id, at);
        accounts_are_stable(replay(t, history.drop_last()), history.last(), id);
    }
}

/// A revocation that nothing stands against leaves the account revoked, every
/// credential of it revoked, and none of them usable at any time.
pub proof fn revocation_closes_every_credential(t: TablesView, r: Revocation, now: int)
    requires
        sound(t),
        revocation_obstacle(t, r) is None,
    ensures
        ({
            let id = r.service_account_id@;
            let after = after_revocation(t, r, now);
            &&& after.accounts[id].status == "revoked"@
            &&& forall|c: Seq<char>| #[trigger]
                owned_credential(after, c, id) ==> after.credentials[c].revoked_at is Some
            &&& forall|c: Seq<char>, at: int| !#[trigger] usable_credential(after, c, id, at)
        }),
{
    reveal_strlit("active");
    reveal_strlit("revoked");
    assert("active"@.len() != "revoked"@.len());
    lemma_revocation_sound(t, r, now);
    let after = after_revocation(t, r, now);
    assert forall|c: Seq<char>| #[trigger]
        owned_credential(after, c, r.service_account_id@) implies after.credentials[c].revoked_at is Some by {
        assert(after.credentials.dom().contains(c));
    }
}

/// After a rotation every earlier credential of the account ends by the end of
/// the overlap; from then on at most the new one is usable.
pub proof fn rotation_bounds_the_overlap(
    t: TablesView,
    r: Rotation,
    created: int,
    credential_id: Seq<char>,
    at: int,
)
    requires
        rotation_obstacle(t, r) is None,
        credential_id != r.credential_id@,
        stored_instant(r.valid_from as int) <= at,
        stored_instant(r.overlap_until as int) <= at,
    ensures
        !usable_credential(
            after_rotation(t, r, created),
            credential_id,
            r.service_account_id@,
            at,
        ),
{
}

/// A rotation takes no credential away before the overlap ends: one that was
/// usable is so until then, unless it ends earlier by itself.
pub proof fn rotation_keeps_credentials_through_the_overlap(
    t: TablesView,
    r: Rotation,
    created: int,
    credential_id: Seq<char>,
    at: int,
)
    requires
        rotation_obstacle(t, r) is None,
        usable_credential(t, credential_id, r.service_account_id@, at),
        at < stored_instant(r.overlap_until as int),
    ensures
        usable_credential(
            after_rotation(t, r, created),
            credential_id,
            r.service_account_id@,
            at,
        ),
{
}

/// The credential that a rotation adds is usable from `valid_from` until
/// `valid_until`.
pub proof fn a_rotated_credential_is_usable(t: TablesView, r: Rotation, created: int, at: int)
    requires
        sound(t),
        rotation_obstacle(t, r) is None,
    ensures
        usable_credential(
            after_rotation(t, r, created),
            r.credential_id@,
            r.service_account_id@,
            at,
        ) == (stored_instant(r.valid_from as int) <= at < stored_instant(r.valid_until as int)),
{
    assert(t.accounts.dom().contains(r.service_account_id@));
}

/// A rotation raises the revision by one, so a second rotation or revocation
/// that expects the same revision finds a conflict.
pub proof fn one_revision_is_used_once(
    t: TablesView,
    first: Rotation,
    second: Rotation,
    revocation: Revocation,
    key: CommandKeyView,
    nonce: Seq<u8>,
    ciphertext: Seq<u8>,
    at: int,
)
    requires
        rotation_obstacle(t, first) is None,
        second.organization_id@ == first.organization_id@,
        second.service_account_id@ == first.service_account_id@,
        second.expected_revision == first.expected_revision,
        revocation.organization_id@ == first.organization_id@,
        revocation.service_account_id@ == first.service_account_id@,
        revocation.expected_revision == first.expected_revision,
    ensures
        ({
            let after = after_success(after_rotation(t, first, at), key, nonce, ciphertext, at);
            &&& after.accounts[first.service_account_id@].revision == first.expected_revision + 1
            &&& rotation_obstacle(after, second) == Some(Obstacle::RevisionConflict)
            &&& revocation_obstacle(after, revocation) == Some(Obstacle::RevisionConflict)
        }),
{
}

/// A revoked account is not rotated again.
pub proof fn revoked_accounts_are_not_rotated(t: TablesView, r: Revocation, now: int, next: Rotation)
    requires
        revocation_obstacle(t, r) is None,
        next.organization_id@ == r.organization_id@,
        next.service_account_id@ == r.service_account_id@,
    ensures
        rotation_obstacle(after_revocation(t, r, now), next) == Some(Obstacle::Revoked),
{
}

/// A revocation that finds the account revoked changes no row but the command.
pub proof fn revoking_twice_changes_nothing(t: TablesView, r: Revocation, now: int, again: Revocation, later: int)
    requires
        revocation_obstacle(t, r) is None,
        again.organization_id@ == r.organization_id@,
        again.service_account_id@ == r.service_account_id@,
        again.expected_revision == after_revocation(t, r, now).accounts[r.service_account_id@].revision,
    ensures
        revocation_obstacle(after_revocation(t, r, now), again) is None,
        after_revocation(after_revocation(t, r, now), again, later) == after_revocation(t, r, now),
{
}

/// An expired or revoked credential, or one of an account that is not active,
/// is never usable.
pub proof fn stale_credentials_fail_closed(
    t: TablesView,
    credential_id: Seq<char>,
    service_account_id: Seq<char>,
    at: int,
)
    requires
        t.credentials.dom().contains(credential_id),
        t.accounts.dom().contains(service_account_id),
        t.credentials[credential_id].valid_until <= at || t.credentials[credential_id].revoked_at
            is Some || t.accounts[service_account_id].status != "active"@,
    ensures
        !usable_credential(t, credential_id, service_account_id, at),
{
}

/// The command that a transaction may change, if it is one command.
pub open spec fn command_in_hand(transaction: Transaction) -> Option<CommandKeyView> {
    match transaction {
        Transaction::Claim { key, .. } => Some(key),
        Transaction::Succeed { key, .. } => Some(key),
        Transaction::Fail { key, .. } => Some(key),
        Transaction::Create { key, .. } => Some(key),
        Transaction::Rotate { key, .. } => Some(key),
        Transaction::Revoke { key, .. } => Some(key),
        Transaction::Admit { caller, idempotency_key, .. } => Some(
            exchange_key(caller, idempotency_key),
        ),
        _ => None,
    }
}

/// A transaction for one command does not change what is found under another
/// key: keys are scoped by caller and operation. Only pruning looks at all
/// commands.
pub proof fn commands_are_independent(
    t: TablesView,
    transaction: Transaction,
    other: CommandKeyView,
    intent: Seq<u8>,
)
    requires
        !(transaction is Prune),
        command_in_hand(transaction) != Some(other),
    ensures
        claim_outcome(transact(t, transaction), other, intent) == claim_outcome(t, other, intent),
{
}

/// A command that was started and not completed is in progress for the same
/// intent and a conflict for any other.
pub proof fn a_started_command_is_not_started_again(
    t: TablesView,
    key: CommandKeyView,
    intent: Seq<u8>,
    at: int,
    again: Seq<u8>,
)
    requires
        claim_outcome(t, key, intent) == Some(ClaimView::Claimed),
    ensures
        claim_outcome(after_claim(t, key, intent, at), key, again) == Some(
            if again == intent {
                ClaimView::InProgress
            } else {
                ClaimView::Conflict
            },
        ),
{
    reveal_strlit("reserved");
    reveal_strlit("completed_success");
    reveal_strlit("completed_error");
    assert("reserved"@.len() != "completed_success"@.len());
    assert("reserved"@.len() != "completed_error"@.len());
}

/// A command that was completed is answered with its receipt or its code for
/// the same intent, and is a conflict for any other.
pub proof fn a_completed_command_is_replayed(
    t: TablesView,
    key: CommandKeyView,
    nonce: Seq<u8>,
    ciphertext: Seq<u8>,
    code: Seq<char>,
    at: int,
    intent: Seq<u8>,
)
    requires
        completable(t, key),
    ensures
        claim_outcome(after_success(t, key, nonce, ciphertext, at), key, intent) == Some(
            if intent == t.commands[key].intent_hash {
                ClaimView::CompletedSuccess { nonce, ciphertext }
            } else {
                ClaimView::Conflict
            },
        ),
        claim_outcome(after_error(t, key, code, at), key, intent) == Some(
            if intent == t.commands[key].intent_hash {
                ClaimView::CompletedError(code)
            } else {
                ClaimView::Conflict
            },
        ),
{
    reveal_strlit("completed_success");
    reveal_strlit("completed_error");
    assert("completed_error"@.len() != "completed_success"@.len());
}

/// A command that is completed never changes; only pruning after its retention
/// removes it.
pub proof fn completed_commands_are_final(
    t: TablesView,
    transaction: Transaction,
    key: CommandKeyView,
)
    requires
        t.commands.dom().contains(key),
        t.commands[key].status == "completed_success"@ || t.commands[key].status
            == "completed_error"@,
    ensures
        ({
            let after = transact(t, transaction).commands;
            ||| after.dom().contains(key) && after[key] == t.commands[key]
            ||| {
                &&& transaction is Prune
                &&& expired_command(t.commands[key], transaction->cutoff)
                &&& !after.dom().contains(key)
            }
        }),
{
    reveal_strlit("reserved");
    reveal_strlit("verifying");
    reveal_strlit("issuing");
    reveal_strlit("completed_success");
    reveal_strlit("completed_error");
    assert("completed_success"@.len() == 17 && "completed_error"@.len() == 15);
    assert("reserved"@.len() == 8 && "verifying"@.len() == 9 && "issuing"@.len() == 7);
}

/// A command keeps its intent as long as it is there.
pub proof fn a_command_keeps_its_intent(
    t: TablesView,
    transaction: Transaction,
    key: CommandKeyView,
)
    requires
        t.commands.dom().contains(key),
        transact(t, transaction).commands.dom().contains(key),
    ensures
        transact(t, transaction).commands[key].intent_hash == t.commands[key].intent_hash,
{
}

/// Nothing that was completed at `at` or later is pruned.
pub open spec fn spares(history: Seq<Transaction>, at: int) -> bool {
    forall|i: int|
        0 <= i < history.len() ==> (#[trigger] history[i] matches Transaction::Prune { cutoff }
            ==> cutoff <= at)
}

/// A completed command stays as it is, whatever happens afterwards, until it is
/// old enough to be pruned.
pub proof fn completed_commands_last(
    t: TablesView,
    history: Seq<Transaction>,
    key: CommandKeyView,
    at: int,
)
    requires
        t.commands.dom().contains(key),
        t.commands[key].status == "completed_success"@ || t.commands[key].status
            == "completed_error"@,
        t.commands[key].completed_at == Some(at),
        spares(history, at),
    ensures
        replay(t, history).commands.dom().contains(key),
        replay(t, history).commands[key] == t.commands[key],
    decreases history.len(),
{
    if history.len() > 0 {
        let earlier = history.drop_last();
        assert(spares(earlier, at)) by {
            assert forall|i: int| 0 <= i < earlier.len() implies (
            #[trigger] earlier[i] matches Transaction::Prune { cutoff } ==> cutoff <= at) by {
                assert(earlier[i] == history[i]);
            }
        }
        completed_commands_last(t, earlier, key, at);
        assert(history[history.len() - 1] == history.last());
        completed_commands_are_final(replay(t, earlier), history.last(), key);
    }
}

/// A command without a completion time is not pruned, whatever the cutoff.
pub proof fn unfinished_commands_are_not_pruned(t: TablesView, cutoff: int, key: CommandKeyView)
    requires
        t.commands.dom().contains(key),
        t.commands[key].completed_at is None,
    ensures
        after_prune(t, cutoff).commands.dom().contains(key),
        after_prune(t, cutoff).commands[key] == t.commands[key],
{
}

/// An exchange that was admitted stays `issuing` until it is completed: it is
/// answered as in progress, is not admitted again, and is not pruned.
pub proof fn an_issuing_command_is_never_issued_again(
    t: TablesView,
    transaction: Transaction,
    key: CommandKeyView,
)
    requires
        t.commands.dom().contains(key),
        t.commands[key].status == "issuing"@,
        t.commands[key].completed_at is None,
    ensures
        claim_outcome(t, key, t.commands[key].intent_hash) == Some(ClaimView::InProgress),
        !merely_reserved(t, key),
        ({
            let after = transact(t, transaction).commands;
            &&& after.dom().contains(key)
            &&& after[key] == t.commands[key] || after[key].completed_at is Some
        }),
{
    reveal_strlit("reserved");
    reveal_strlit("issuing");
    reveal_strlit("completed_success");
    reveal_strlit("completed_error");
    assert("completed_success"@.len() == 17 && "completed_error"@.len() == 15);
    assert("reserved"@.len() == 8 && "issuing"@.len() == 7);
}

/// The transaction is one that may complete the command.
pub open spec fn completes(transaction: Transaction, command: CommandKeyView) -> bool {
    match transaction {
        Transaction::Succeed { key, .. } => key == command,
        Transaction::Fail { key, .. } => key == command,
        Transaction::Create { key, .. } => key == command,
        Transaction::Rotate { key, .. } => key == command,
        Transaction::Revoke { key, .. } => key == command,
        _ => false,
    }
}

/// No transaction completes the command.
pub open spec fn leaves_open(history: Seq<Transaction>, command: CommandKeyView) -> bool {
    forall|i: int| 0 <= i < history.len() ==> !completes(#[trigger] history[i], command)
}

proof fn lemma_leaves_open_earlier(history: Seq<Transaction>, command: CommandKeyView)
    requires
        history.len() > 0,
        leaves_open(history, command),
    ensures
        leaves_open(history.drop_last(), command),
        !completes(history.last(), command),
{
    let earlier = history.drop_last();
    assert forall|i: int| 0 <= i < earlier.len() implies !completes(
        #[trigger] earlier[i],
        command,
    ) by {
        assert(earlier[i] == history[i]);
    }
    assert(history[history.len() - 1] == history.last());
}

/// A command that was started and not completed is there as long as nothing
/// completes it, whatever else happens and however old it grows, and is answered
/// as in progress.
pub proof fn unfinished_commands_stay_in_progress(
    t: TablesView,
    history: Seq<Transaction>,
    key: CommandKeyView,
)
    requires
        completable(t, key),
        t.commands[key].completed_at is None,
        leaves_open(history, key),
    ensures
        ({
            let later = replay(t, history);
            &&& completable(later, key)
            &&& later.commands[key].completed_at is None
            &&& later.commands[key].intent_hash == t.commands[key].intent_hash
            &&& claim_outcome(later, key, t.commands[key].intent_hash) == Some(
                ClaimView::InProgress,
            )
        }),
    decreases history.len(),
{
    reveal_strlit("reserved");
    reveal_strlit("verifying");
    reveal_strlit("issuing");
    reveal_strlit("completed_success");
    reveal_strlit("completed_error");
    assert("completed_success"@.len() == 17 && "completed_error"@.len() == 15);
    assert("reserved"@.len() == 8 && "verifying"@.len() == 9 && "issuing"@.len() == 7);
    if history.len() > 0 {
        lemma_leaves_open_earlier(history, key);
        unfinished_commands_stay_in_progress(t, history.drop_last(), key);
    }
}

/// An exchange that was admitted stays `issuing` as long as nothing completes it,
/// whatever else happens: its row does not change, it is answered as in progress,
/// and it is not admitted again.
pub proof fn issuing_commands_stay_so(
    t: TablesView,
    history: Seq<Transaction>,
    key: CommandKeyView,
)
    requires
        t.commands.dom().contains(key),
        t.commands[key].status == "issuing"@,
        t.commands[key].completed_at is None,
        leaves_open(history, key),
    ensures
        ({
            let later = replay(t, history);
            &&& later.commands.dom().contains(key)
            &&& later.commands[key] == t.commands[key]
            &&& claim_outcome(later, key, t.commands[key].intent_hash) == Some(
                ClaimView::InProgress,
            )
            &&& !merely_reserved(later, key)
        }),
    decreases history.len(),
{
    unfinished_commands_stay_in_progress(t, history, key);
    reveal_strlit("reserved");
    reveal_strlit("issuing");
    assert("reserved"@.len() == 8 && "issuing"@.len() == 7);
    if history.len() > 0 {
        lemma_leaves_open_earlier(history, key);
        issuing_commands_stay_so(t, history.drop_last(), key);
    }
}

/// A created account is active at revision 1, under its own name, and its first
/// credential is usable from `valid_from` until `valid_until`.
pub proof fn a_new_account_is_usable(t: TablesView, a: NewAccount, max_accounts: int, created: int, at: int)
    requires
        creation_obstacle(t, a, max_accounts) is None,
    ensures
        ({
            let after = after_creation(t, a, created);
            let id = a.service_account_id@;
            &&& organization_account(after, a.organization_id@, id)
            &&& account_row(after, id).status == "active"@
            &&& account_row(after, id).revision == 1
            &&& account_row(after, id).name == a.name@
            &&& usable_credential(after, a.credential_id@, id, at) == (stored_instant(
                a.valid_from as int,
            ) <= at < stored_instant(a.valid_until as int))
        }),
{
}

/// How many of the attempts at `times` are admitted, in order, starting from
/// `limit`.
pub open spec fn admissions(
    limit: LimitView,
    times: Seq<int>,
    window_seconds: int,
    max_attempts: int,
    lockout_seconds: int,
) -> int
    decreases times.len(),
{
    if times.len() == 0 {
        0
    } else {
        let decision = rate_decision(
            Some(limit),
            times[0],
            window_seconds,
            max_attempts,
            lockout_seconds,
        );
        (if decision.0 {
            1int
        } else {
            0int
        }) + admissions(
            decision.1,
            times.drop_first(),
            window_seconds,
            max_attempts,
            lockout_seconds,
        )
    }
}

/// Inside one window no more than `max_attempts` attempts are admitted.
pub proof fn a_window_admits_no_more_than_its_limit(
    limit: LimitView,
    times: Seq<int>,
    window_seconds: int,
    max_attempts: int,
    lockout_seconds: int,
)
    requires
        0 <= limit.attempts,
        0 <= max_attempts,
        stored_instant(limit.window_started_at) == limit.window_started_at,
        forall|i: int|
            0 <= i < times.len() ==> (#[trigger] times[i]) < after_seconds(
                limit.window_started_at,
                window_seconds,
            ),
    ensures
        admissions(limit, times, window_seconds, max_attempts, lockout_seconds) <= if limit.attempts
            <= max_attempts {
            max_attempts - limit.attempts
        } else {
            0
        },
    decreases times.len(),
{
    if times.len() > 0 {
        let decision = rate_decision(
            Some(limit),
            times[0],
            window_seconds,
            max_attempts,
            lockout_seconds,
        );
        let rest = times.drop_first();
        assert forall|i: int| 0 <= i < rest.len() implies (#[trigger] rest[i]) < after_seconds(
            decision.1.window_started_at,
            window_seconds,
        ) by {
            assert(rest[i] == times[i + 1]);
        }
        a_window_admits_no_more_than_its_limit(
            decision.1,
            rest,
            window_seconds,
            max_attempts,
            lockout_seconds,
        );
    }
}

/// A caller that is locked out is refused until the lockout ends, and its limit
/// does not change meanwhile.
pub proof fn a_lockout_lasts(
    limit: LimitView,
    now: int,
    window_seconds: int,
    max_attempts: int,
    lockout_seconds: int,
)
    requires
        limit.locked_until is Some,
        now < limit.locked_until.unwrap(),
    ensures
        rate_decision(Some(limit), now, window_seconds, max_attempts, lockout_seconds) == (
            false,
            limit,
        ),
{
}

/// An attempt past the window's limit starts a lockout of `lockout_seconds`.
pub proof fn too_many_attempts_lock_the_caller_out(
    limit: LimitView,
    now: int,
    window_seconds: int,
    max_attempts: int,
    lockout_seconds: int,
)
    requires
        limit.locked_until matches Some(until) ==> until <= now,
        now < after_seconds(limit.window_started_at, window_seconds),
        limit.attempts >= max_attempts,
    ensures
        ({
            let decision = rate_decision(
                Some(limit),
                now,
                window_seconds,
                max_attempts,
                lockout_seconds,
            );
            &&& !decision.0
            &&& decision.1.locked_until == Some(
                stored_instant(after_seconds(now, lockout_seconds)),
            )
        }),
{
}

/// One caller's attempts do not count against another caller.
pub proof fn rate_limits_are_per_caller(
    t: TablesView,
    caller: Seq<char>,
    other: Seq<char>,
    now: int,
    window_seconds: int,
    max_attempts: int,
    lockout_seconds: int,
)
    requires
        caller != other,
    ensures
        limit_of(
            transact(
                t,
                Transaction::Attempt { caller, now, window_seconds, max_attempts, lockout_seconds },
            ),
            other,
        ) == limit_of(t, other),
{
}

/// The account that a transaction may change, if there is one.
pub open spec fn account_in_hand(transaction: Transaction) -> Option<Seq<char>> {
    match transaction {
        Transaction::Create { account, .. } => Some(account.service_account_id@),
        Transaction::Rotate { rotation, .. } => Some(rotation.service_account_id@),
        Transaction::Revoke { revocation, .. } => Some(revocation.service_account_id@),
        Transaction::Admit { service_account_id, .. } => Some(service_account_id),
        _ => None,
    }
}

/// A transaction on one account changes neither another account nor a
/// credential of another account.
pub proof fn other_accounts_are_untouched(
    t: TablesView,
    transaction: Transaction,
    id: Seq<char>,
    credential_id: Seq<char>,
)
    requires
        account_in_hand(transaction) != Some(id),
    ensures
        ({
            let after = transact(t, transaction);
            &&& after.accounts.dom().contains(id) == t.accounts.dom().contains(id)
            &&& t.accounts.dom().contains(id) ==> after.accounts[id] == t.accounts[id]
            &&& owned_credential(t, credential_id, id) ==> owned_credential(
                after,
                credential_id,
                id,
            ) && after.credentials[credential_id] == t.credentials[credential_id]
        }),
{
}

/// A name that is taken stays taken, whatever happens afterwards, also after its
/// account was revoked.
pub proof fn names_stay_taken(
    t: TablesView,
    history: Seq<Transaction>,
    organization_id: Seq<char>,
    name_key: Seq<char>,
)
    requires
        name_taken(t, organization_id, name_key),
    ensures
        name_taken(replay(t, history), organization_id, name_key),
    decreases history.len(),
{
    if history.len() > 0 {
        names_stay_taken(t, history.drop_last(), organization_id, name_key);
        let before = replay(t, history.drop_last());
        let id = choose|id: Seq<char>| #[trigger]
            organization_account(before, organization_id, id) && before.accounts[id].name_key
                == name_key;
        accounts_are_stable(before, history.last(), id);
        assert(organization_account(replay(t, history), organization_id, id));
    }
}

/// A second account of the same organization with the same name, up to ASCII
/// case, is not created: unless the organization is full or the identifier taken,
/// the name is what stands in the way. In another organization the name is as
/// free as before.
pub proof fn a_name_is_not_given_twice(
    t: TablesView,
    first: NewAccount,
    max_accounts: int,
    at: int,
    history: Seq<Transaction>,
    second: NewAccount,
    later_max: int,
    elsewhere: Seq<char>,
)
    requires
        creation_obstacle(t, first, max_accounts) is None,
        well_keyed(first),
        well_keyed(second),
        second.organization_id@ == first.organization_id@,
        lowercase(second.name@) == lowercase(first.name@),
        elsewhere != first.organization_id@,
    ensures
        ({
            let later = replay(after_creation(t, first, at), history);
            let full = organization_accounts(later, second.organization_id@).len() >= later_max;
            let known = later.accounts.dom().contains(second.service_account_id@);
            creation_obstacle(later, second, later_max) == Some(
                if full {
                    Obstacle::LimitReached
                } else if known {
                    Obstacle::Taken(ACCOUNT_ID_UNIQUE@)
                } else {
                    Obstacle::Taken(ORGANIZATION_NAME_UNIQUE@)
                },
            )
        }),
        name_taken(after_creation(t, first, at), elsewhere, first.name_key@) == name_taken(
            t,
            elsewhere,
            first.name_key@,
        ),
{
    let created = after_creation(t, first, at);
    if name_taken(t, elsewhere, first.name_key@) {
        let id = choose|id: Seq<char>| #[trigger]
            organization_account(t, elsewhere, id) && t.accounts[id].name_key == first.name_key@;
        assert(organization_account(created, elsewhere, id));
    }
    if name_taken(created, elsewhere, first.name_key@) {
        let id = choose|id: Seq<char>| #[trigger]
            organization_account(created, elsewhere, id) && created.accounts[id].name_key
                == first.name_key@;
        assert(organization_account(t, elsewhere, id));
    }
    assert(organization_account(created, first.organization_id@, first.service_account_id@));
    names_stay_taken(created, history, first.organization_id@, first.name_key@);
}

/// What was stored as the receipt of a command is what a later call with the
/// same command and intent is answered from.
pub proof fn a_stored_receipt_answers_later_calls(
    t: TablesView,
    command: CommandKey,
    intent: Vec<u8>,
    cipher: ReceiptCipher,
    nonce: Vec<u8>,
    ciphertext: Vec<u8>,
    receipt: Seq<u8>,
    at: int,
    claim: CommandClaim,
    next: Admission,
)
    requires
        completable(t, command@),
        t.commands[command@].intent_hash == intent@,
        opened_receipt(cipher.key(), nonce@, ciphertext@, receipt_binding(command@)) == Some(
            receipt,
        ),
        claim_outcome(
            after_success(t, command@, nonce@, ciphertext@, at),
            command@,
            intent@,
        ) == Some(claim@),
        (Admission::Claim { command, intent }).steps_to(
            cipher,
            AdmissionEvent::Claimed(claim),
            next,
        ),
    ensures
        next matches Admission::Replayed { receipt: replayed } && replayed@ == receipt,
{
}

} // verus!
