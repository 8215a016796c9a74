//! What creating, rotating and revoking does to the tables.

use vstd::prelude::*;
use vstd::string::*;

use crate::error::ServiceAccountPluginError;
use crate::laws::kept_as;
use crate::laws::tables::{ends_last_credential, lemma_shows_account, running, shows_account};
use crate::rows::{
    AccountRow, AccountView, CommandKey, CommandKeyView, CommandView, CredentialView, Mutation,
};
use crate::storage::{
    after_creation, after_success, after_revocation, after_rotation, organization_account,
    organization_accounts, revocation_obstacle, rotation_obstacle, NewAccount, Obstacle, Revocation,
    Rotation, StoreError, Tables, TablesView,
};
use crate::table::lemma_table_domain;

verus! {

/// Between the two, one running command was completed with a receipt, and no
/// other command nor any limit changed.
pub open spec fn completed_alone(
    before: TablesView,
    after: TablesView,
    key: CommandKeyView,
    nonce: Seq<u8>,
    ciphertext: Seq<u8>,
    at: int,
) -> bool {
    &&& running(before, key)
    &&& after.limits == before.limits
    &&& after.commands == before.commands.insert(
        key,
        CommandView {
            intent_hash: before.commands[key].intent_hash,
            status: "completed_success"@,
            response_nonce: Some(nonce),
            response_ciphertext: Some(ciphertext),
            error_code: before.commands[key].error_code,
            updated_at: at,
            completed_at: Some(at),
        },
    )
}

/// `credential` is a new one of the account, that begins and ends as asked, to
/// the microsecond.
pub open spec fn is_new_credential(
    credential: CredentialView,
    service_account_id: Seq<char>,
    verifier: Seq<char>,
    valid_from: int,
    valid_until: int,
    at: int,
) -> bool {
    &&& credential.service_account_id == service_account_id
    &&& credential.verifier == verifier
    &&& kept_as(valid_from, credential.valid_from)
    &&& kept_as(valid_until, credential.valid_until)
    &&& credential.created_at == at
    &&& credential.superseded_at is None
    &&& credential.revoked_at is None
    &&& credential.last_used_at is None
}

/// Between the two, the account was added, active and at revision 1, with its
/// first credential, and no other account nor credential changed.
pub open spec fn adds_account(
    t: TablesView,
    after: TablesView,
    account: NewAccount,
    at: int,
) -> bool {
    let id = account.service_account_id@;
    &&& after.accounts == t.accounts.insert(
        id,
        AccountView {
            organization_id: account.organization_id@,
            subject: account.subject@,
            name: account.name@,
            name_key: account.name_key@,
            status: "active"@,
            revision: 1,
            created_at: at,
            updated_at: at,
            rotated_at: None,
            revoked_at: None,
        },
    )
    &&& after.credentials == t.credentials.insert(
        account.credential_id@,
        after.credentials[account.credential_id@],
    )
    &&& is_new_credential(
        after.credentials[account.credential_id@],
        id,
        account.verifier@,
        account.valid_from as int,
        account.valid_until as int,
        at,
    )
}

/// The change was refused for the named unique constraint.
pub open spec fn broke<R>(r: Result<R, StoreError>, name: Seq<char>) -> bool {
    r matches Err(StoreError::Unique(constraint)) && constraint@ == name
}

/// The accounts of the organization, of whatever status.
pub open spec fn accounts_of(t: TablesView, organization_id: Seq<char>) -> Set<Seq<char>> {
    Set::new(
        |id: Seq<char>|
            t.accounts.dom().contains(id) && t.accounts[id].organization_id == organization_id,
    )
}

/// What a creation is answered, and that nothing changes where it is refused.
pub open spec fn answers_creation(
    t: TablesView,
    after: TablesView,
    max_accounts: int,
    account: NewAccount,
    r: Result<Option<AccountRow>, StoreError>,
) -> bool {
    let full = accounts_of(t, account.organization_id@).len() >= max_accounts;
    let known = t.accounts.dom().contains(account.service_account_id@);
    let named = exists|id: Seq<char>|
        #[trigger] t.accounts.dom().contains(id) && t.accounts[id].organization_id
            == account.organization_id@ && t.accounts[id].name_key == account.name_key@;
    let claimed = exists|id: Seq<char>|
        #[trigger] t.accounts.dom().contains(id) && t.accounts[id].subject
            == account.subject@;
    let used = t.credentials.dom().contains(account.credential_id@);
    &&& full || known || named || claimed || used ==> after == t
    &&& full ==> r == Ok::<_, StoreError>(None::<AccountRow>)
    &&& !full && known ==> broke(r, "service_accounts_pkey"@)
    &&& !full && !known && named ==> broke(r, "service_accounts_organization_name_unique"@)
    &&& !full && !known && !named && claimed ==> broke(r, "service_accounts_subject_unique"@)
    &&& !full && !known && !named && !claimed && used ==> broke(
        r,
        "service_account_credentials_pkey"@,
    )
    &&& !full && !known && !named && !claimed && !used ==> match r {
        Ok(created) => created is Some,
        Err(error) => error is Plugin,
    }
}

/// An account is refused where the organization is full, and else where its
/// identifier, its name in the organization, its subject or its credential is
/// taken, in this order; nothing changes then. Otherwise nothing stands against
/// it.
pub proof fn creations_are_refused_for_what_is_taken<F>(
    tables: &mut Tables,
    key: &CommandKey,
    max_accounts: u32,
    account: &NewAccount,
    at: i128,
    receipt: F,
    r: Result<Option<AccountRow>, StoreError>,
) where F: FnOnce(&AccountRow) -> Result<(Vec<u8>, Vec<u8>), ServiceAccountPluginError>
    requires
        call_ensures(
            Tables::create_account::<F>,
            (tables, key, max_accounts, account, at, receipt),
            r,
        ),
    ensures
        answers_creation(old(tables)@, final(tables)@, max_accounts as int, *account, r),
{
    lemma_organization(old(tables)@, account.organization_id@);
}

/// The accounts of an organization, in other words.
pub proof fn lemma_organization(t: TablesView, organization_id: Seq<char>)
    ensures
        accounts_of(t, organization_id) == organization_accounts(t, organization_id),
        forall|id: Seq<char>|
            #[trigger] t.accounts.dom().contains(id) && t.accounts[id].organization_id
                == organization_id ==> organization_account(t, organization_id, id),
{
    assert(accounts_of(t, organization_id) =~= organization_accounts(t, organization_id));
}

/// A creation that is carried out adds the account, active and at revision 1,
/// and its first credential, completes the command with the receipt of the
/// account, and changes nothing else. It answers with the account as it now
/// stands.
pub proof fn creations_add_one_account_and_one_credential<F>(
    tables: &mut Tables,
    key: &CommandKey,
    max_accounts: u32,
    account: &NewAccount,
    at: i128,
    receipt: F,
    row: AccountRow,
) where F: FnOnce(&AccountRow) -> Result<(Vec<u8>, Vec<u8>), ServiceAccountPluginError>
    requires
        old(tables).well_formed(),
        call_ensures(
            Tables::create_account::<F>,
            (tables, key, max_accounts, account, at, receipt),
            Ok(Some(row)),
        ),
    ensures
        ({
            let t = old(tables)@;
            let after = final(tables)@;
            let id = account.service_account_id@;
            &&& adds_account(t, after, *account, at as int)
            &&& shows_account(after, id, row)
            &&& exists|nonce: Vec<u8>, ciphertext: Vec<u8>|
                {
                    &&& #[trigger] call_ensures(
                        receipt,
                        (&row,),
                        Ok::<_, ServiceAccountPluginError>((nonce, ciphertext)),
                    )
                    &&& completed_alone(t, after, key@, nonce@, ciphertext@, at as int)
                }
            &&& (forall|c: Seq<char>|
                #[trigger] t.credentials.dom().contains(c) ==> t.credentials[c].service_account_id
                    != id) ==> match row.credential_expires_at {
                Some(end) => kept_as(account.valid_until as int, end as int),
                None => false,
            }
        }),
{
    let t = old(tables)@;
    let after = final(tables)@;
    let id = account.service_account_id@;
    let created = after_creation(t, *account, at as int);
    lemma_table_domain(old(tables).credentials@);
    lemma_shows_account(created, id, row);
    let (nonce, ciphertext) = choose|nonce: Vec<u8>, ciphertext: Vec<u8>|
        {
            &&& #[trigger] call_ensures(
                receipt,
                (&row,),
                Ok::<_, ServiceAccountPluginError>((nonce, ciphertext)),
            )
            &&& after == after_success(
                created,
                key@,
                nonce@,
                ciphertext@,
                at as int,
            )
        };
    assert(completed_alone(t, after, key@, nonce@, ciphertext@, at as int));
    assert(after.credentials =~= t.credentials.insert(
        account.credential_id@,
        after.credentials[account.credential_id@],
    ));
    lemma_same_rows(created, after, id, row);
    if forall|c: Seq<char>|
        #[trigger] t.credentials.dom().contains(c) ==> t.credentials[c].service_account_id != id {
        assert(after.credentials.dom().contains(account.credential_id@));
        let c = choose|c: Seq<char>| #[trigger]
            ends_last_credential(after, id, c, row.credential_expires_at.unwrap() as int);
        assert(c == account.credential_id@);
    }
}

/// What a row shows does not depend on commands and limits.
pub proof fn lemma_same_rows(a: TablesView, b: TablesView, id: Seq<char>, row: AccountRow)
    requires
        a.accounts == b.accounts,
        a.credentials == b.credentials,
        shows_account(a, id, row),
    ensures
        shows_account(b, id, row),
{
    if row.credential_expires_at is Some {
        let at = row.credential_expires_at.unwrap() as int;
        let c = choose|c: Seq<char>| #[trigger] ends_last_credential(a, id, c, at);
        assert(ends_last_credential(b, id, c, at));
    }
}

/// A change that fails is rolled back, and fails only because the command does
/// not run or because the receipt failed.
pub proof fn failed_creations_leave_nothing_behind<F>(
    tables: &mut Tables,
    key: &CommandKey,
    max_accounts: u32,
    account: &NewAccount,
    at: i128,
    receipt: F,
    error: StoreError,
) where F: FnOnce(&AccountRow) -> Result<(Vec<u8>, Vec<u8>), ServiceAccountPluginError>
    requires
        call_ensures(
            Tables::create_account::<F>,
            (tables, key, max_accounts, account, at, receipt),
            Err(error),
        ),
    ensures
        final(tables)@ == old(tables)@,
        error matches StoreError::Plugin(cause) ==> {
            ||| !running(old(tables)@, key@) && cause.says(
                "service-account command was not completable"@,
            )
            ||| exists|row: AccountRow|
                row.service_account_id@ == account.service_account_id@ && #[trigger] call_ensures(
                    receipt,
                    (&row,),
                    Err::<(Vec<u8>, Vec<u8>), _>(cause),
                )
        },
{
}

/// What a rotation is answered, and that nothing changes where it is refused.
pub open spec fn answers_rotation(
    t: TablesView,
    after: TablesView,
    rotation: Rotation,
    r: Result<Mutation<AccountRow>, StoreError>,
) -> bool {
    let account = t.accounts[rotation.service_account_id@];
    let known = t.accounts.dom().contains(rotation.service_account_id@)
        && account.organization_id == rotation.organization_id@;
    let revoked = account.status == "revoked"@;
    let current = account.revision == rotation.expected_revision;
    let used = t.credentials.dom().contains(rotation.credential_id@);
    let last = account.revision == 0x7fff_ffff_ffff_ffff;
    &&& !known || revoked || !current || used || last ==> after == t
    &&& !known ==> r == Ok::<_, StoreError>(Mutation::<AccountRow>::NotFound)
    &&& known && revoked ==> r == Ok::<_, StoreError>(Mutation::<AccountRow>::Revoked)
    &&& known && !revoked && !current ==> r == Ok::<_, StoreError>(
        Mutation::<AccountRow>::RevisionConflict,
    )
    &&& known && !revoked && current && used ==> broke(
        r,
        "service_account_credentials_pkey"@,
    )
    &&& known && !revoked && current && !used && last ==> (r matches Err(StoreError::Plugin(error))
        && error.says("service-account revision is exhausted"@))
    &&& known && !revoked && current && !used && !last ==> match r {
        Ok(outcome) => outcome is Updated,
        Err(error) => error is Plugin,
    }
}

/// A rotation is refused where the organization has no such account, where the
/// account is revoked, where it has moved on from the expected revision, where
/// the credential is taken, and where revisions are used up, in this order;
/// nothing changes then. Otherwise nothing stands against it.
pub proof fn rotations_are_refused_for_what_has_changed<F>(
    tables: &mut Tables,
    key: &CommandKey,
    rotation: &Rotation,
    at: i128,
    receipt: F,
    r: Result<Mutation<AccountRow>, StoreError>,
) where F: FnOnce(&AccountRow) -> Result<(Vec<u8>, Vec<u8>), ServiceAccountPluginError>
    requires
        call_ensures(Tables::rotate_account::<F>, (tables, key, rotation, at, receipt), r),
    ensures
        answers_rotation(old(tables)@, final(tables)@, *rotation, r),
{
}

/// A credential of another account, one that is revoked and one that has ended
/// stay as they are when an account gets a new credential at `from`. Any other
/// ends by `until` at the latest, and keeps the time at which it was first
/// superseded.
pub open spec fn superseded_as(
    before: CredentialView,
    after: CredentialView,
    service_account_id: Seq<char>,
    from: int,
    until: int,
) -> bool {
    if before.service_account_id == service_account_id && before.revoked_at is None
        && before.valid_until > from {
        &&& after.service_account_id == before.service_account_id
        &&& after.verifier == before.verifier
        &&& after.valid_from == before.valid_from
        &&& after.valid_until <= before.valid_until
        &&& after.valid_until <= until
        &&& after.valid_until == before.valid_until || after.valid_until == until
        &&& after.created_at == before.created_at
        &&& before.superseded_at is Some ==> after.superseded_at == before.superseded_at
        &&& before.superseded_at is None ==> after.superseded_at == Some(from)
        &&& after.revoked_at is None
        &&& after.last_used_at == before.last_used_at
    } else {
        after == before
    }
}

/// Between the two, the revision of the account was raised by one, its rotation
/// noted, its credentials bounded and a new one added, and no other account nor
/// credential changed.
pub open spec fn rotates(
    t: TablesView,
    after: TablesView,
    rotation: Rotation,
    from: int,
    until: int,
    at: int,
) -> bool {
    let id = rotation.service_account_id@;
    let account = t.accounts[id];
    &&& after.accounts == t.accounts.insert(
        id,
        AccountView {
            organization_id: account.organization_id,
            subject: account.subject,
            name: account.name,
            name_key: account.name_key,
            status: account.status,
            revision: rotation.expected_revision + 1,
            created_at: account.created_at,
            updated_at: from,
            rotated_at: Some(from),
            revoked_at: account.revoked_at,
        },
    )
    &&& after.credentials.dom() == t.credentials.dom().insert(rotation.credential_id@)
    &&& forall|c: Seq<char>|
        #[trigger] t.credentials.dom().contains(c) ==> superseded_as(
            t.credentials[c],
            after.credentials[c],
            id,
            from,
            until,
        )
    &&& is_new_credential(
        after.credentials[rotation.credential_id@],
        id,
        rotation.verifier@,
        rotation.valid_from as int,
        rotation.valid_until as int,
        at,
    )
}

/// A rotation that is carried out raises the revision by one and notes when it
/// was, whatever was noted before. It bounds the credentials that the account
/// had, adds the new one, completes the command with the receipt of the account,
/// and changes nothing else. It answers with the account as it now stands.
pub proof fn rotations_raise_the_revision_and_bound_the_old_credentials<F>(
    tables: &mut Tables,
    key: &CommandKey,
    rotation: &Rotation,
    at: i128,
    receipt: F,
    row: AccountRow,
    from: int,
    until: int,
) where F: FnOnce(&AccountRow) -> Result<(Vec<u8>, Vec<u8>), ServiceAccountPluginError>
    requires
        old(tables).well_formed(),
        kept_as(rotation.valid_from as int, from),
        kept_as(rotation.overlap_until as int, until),
        call_ensures(
            Tables::rotate_account::<F>,
            (tables, key, rotation, at, receipt),
            Ok(Mutation::Updated(row)),
        ),
    ensures
        ({
            let t = old(tables)@;
            let after = final(tables)@;
            let id = rotation.service_account_id@;
            &&& rotates(t, after, *rotation, from, until, at as int)
            &&& row.revision == rotation.expected_revision + 1
            &&& row.rotated_at == Some(from as i128)
            &&& shows_account(after, id, row)
            &&& exists|nonce: Vec<u8>, ciphertext: Vec<u8>|
                {
                    &&& #[trigger] call_ensures(
                        receipt,
                        (&row,),
                        Ok::<_, ServiceAccountPluginError>((nonce, ciphertext)),
                    )
                    &&& completed_alone(t, after, key@, nonce@, ciphertext@, at as int)
                }
        }),
{
    let t = old(tables)@;
    let after = final(tables)@;
    let id = rotation.service_account_id@;
    let rotated = after_rotation(t, *rotation, at as int);
    lemma_table_domain(old(tables).credentials@);
    assert(rotated.credentials.dom() =~= t.credentials.dom().insert(rotation.credential_id@));
    lemma_shows_account(rotated, id, row);
    let (nonce, ciphertext) = choose|nonce: Vec<u8>, ciphertext: Vec<u8>|
        {
            &&& #[trigger] call_ensures(
                receipt,
                (&row,),
                Ok::<_, ServiceAccountPluginError>((nonce, ciphertext)),
            )
            &&& after == after_success(
                rotated,
                key@,
                nonce@,
                ciphertext@,
                at as int,
            )
        };
    assert(completed_alone(t, after, key@, nonce@, ciphertext@, at as int));
    lemma_same_rows(rotated, after, id, row);
}

/// A rotation that fails is rolled back, and fails only because the command does
/// not run, because the receipt failed, or because revisions are used up.
pub proof fn failed_rotations_leave_nothing_behind<F>(
    tables: &mut Tables,
    key: &CommandKey,
    rotation: &Rotation,
    at: i128,
    receipt: F,
    error: StoreError,
) where F: FnOnce(&AccountRow) -> Result<(Vec<u8>, Vec<u8>), ServiceAccountPluginError>
    requires
        call_ensures(Tables::rotate_account::<F>, (tables, key, rotation, at, receipt), Err(error)),
    ensures
        final(tables)@ == old(tables)@,
        error matches StoreError::Plugin(cause) ==> {
            ||| rotation.expected_revision == 0x7fff_ffff_ffff_ffff && cause.says(
                "service-account revision is exhausted"@,
            )
            ||| !running(old(tables)@, key@) && cause.says(
                "service-account command was not completable"@,
            )
            ||| exists|row: AccountRow|
                row.service_account_id@ == rotation.service_account_id@ && #[trigger] call_ensures(
                    receipt,
                    (&row,),
                    Err::<(Vec<u8>, Vec<u8>), _>(cause),
                )
        },
{
}

/// What a revocation is answered, and that nothing changes where it is refused.
pub open spec fn answers_revocation(
    t: TablesView,
    after: TablesView,
    revocation: Revocation,
    r: Result<Mutation<(AccountRow, bool)>, StoreError>,
) -> bool {
    let account = t.accounts[revocation.service_account_id@];
    let known = t.accounts.dom().contains(revocation.service_account_id@)
        && account.organization_id == revocation.organization_id@;
    let revoked = account.status == "revoked"@;
    let current = account.revision == revocation.expected_revision;
    let last = account.revision == 0x7fff_ffff_ffff_ffff && !revoked;
    &&& !known || !current || last ==> after == t
    &&& !known ==> r == Ok::<_, StoreError>(Mutation::<(AccountRow, bool)>::NotFound)
    &&& known && !current ==> r == Ok::<_, StoreError>(
        Mutation::<(AccountRow, bool)>::RevisionConflict,
    )
    &&& known && current && last ==> (r matches Err(StoreError::Plugin(error))
        && error.says("service-account revision is exhausted"@))
    &&& known && current && !last ==> match r {
        Ok(Mutation::Updated(result)) => result.1 == !revoked,
        Ok(_) => false,
        Err(error) => error is Plugin,
    }
}

/// A revocation is refused where the organization has no such account, where the
/// account has moved on from the expected revision, and where revisions are used
/// up, in this order; nothing changes then. Otherwise nothing stands against it,
/// even if the account is revoked.
pub proof fn revocations_are_refused_for_what_has_changed<F>(
    tables: &mut Tables,
    key: &CommandKey,
    revocation: &Revocation,
    now: i128,
    at: i128,
    receipt: F,
    r: Result<Mutation<(AccountRow, bool)>, StoreError>,
) where F: FnOnce(&(AccountRow, bool)) -> Result<(Vec<u8>, Vec<u8>), ServiceAccountPluginError>
    requires
        call_ensures(Tables::revoke_account::<F>, (tables, key, revocation, now, at, receipt), r),
    ensures
        answers_revocation(old(tables)@, final(tables)@, *revocation, r),
{
}

/// A credential of a revoked account is revoked, at the latest since `at`, ends
/// by then but not before it began, and stays as it is otherwise. A credential
/// of another account stays as it is.
pub open spec fn revoked_as(
    before: CredentialView,
    after: CredentialView,
    service_account_id: Seq<char>,
    at: int,
) -> bool {
    if before.service_account_id == service_account_id {
        &&& after.service_account_id == before.service_account_id
        &&& after.verifier == before.verifier
        &&& after.valid_from == before.valid_from
        &&& before.valid_until <= before.valid_from || at <= before.valid_from
            ==> after.valid_until == before.valid_from
        &&& before.valid_from < before.valid_until <= at ==> after.valid_until
            == before.valid_until
        &&& before.valid_from < at <= before.valid_until ==> after.valid_until == at
        &&& after.created_at == before.created_at
        &&& after.superseded_at == before.superseded_at
        &&& before.revoked_at is Some ==> after.revoked_at == before.revoked_at
        &&& before.revoked_at is None ==> after.revoked_at == Some(at)
        &&& after.last_used_at == before.last_used_at
    } else {
        after == before
    }
}

/// Between the two, the revision of the account was raised by one, it and its
/// credentials were revoked, and no other account nor credential changed.
pub open spec fn revokes(
    t: TablesView,
    after: TablesView,
    revocation: Revocation,
    moment: int,
) -> bool {
    let id = revocation.service_account_id@;
    let account = t.accounts[id];
    &&& after.accounts == t.accounts.insert(
        id,
        AccountView {
            organization_id: account.organization_id,
            subject: account.subject,
            name: account.name,
            name_key: account.name_key,
            status: "revoked"@,
            revision: revocation.expected_revision + 1,
            created_at: account.created_at,
            updated_at: moment,
            rotated_at: account.rotated_at,
            revoked_at: Some(moment),
        },
    )
    &&& after.credentials.dom() == t.credentials.dom()
    &&& forall|c: Seq<char>|
        #[trigger] t.credentials.dom().contains(c) ==> revoked_as(
            t.credentials[c],
            after.credentials[c],
            id,
            moment,
        )
}

/// A revocation of an account that is not revoked yet raises its revision by
/// exactly one, marks it and all its credentials revoked, completes the command
/// with the receipt of the account, and changes nothing else. It answers with the
/// account as it now stands, and that it changed.
pub proof fn revocations_raise_the_revision_and_end_all_credentials<F>(
    tables: &mut Tables,
    key: &CommandKey,
    revocation: &Revocation,
    now: i128,
    at: i128,
    receipt: F,
    result: (AccountRow, bool),
    moment: int,
) where F: FnOnce(&(AccountRow, bool)) -> Result<(Vec<u8>, Vec<u8>), ServiceAccountPluginError>
    requires
        old(tables).well_formed(),
        kept_as(now as int, moment),
        old(tables)@.accounts[revocation.service_account_id@].status != "revoked"@,
        call_ensures(
            Tables::revoke_account::<F>,
            (tables, key, revocation, now, at, receipt),
            Ok(Mutation::Updated(result)),
        ),
    ensures
        ({
            let t = old(tables)@;
            let after = final(tables)@;
            let id = revocation.service_account_id@;
            &&& result.1
            &&& revokes(t, after, *revocation, moment)
            &&& result.0.revision == revocation.expected_revision + 1
            &&& result.0.status@ == "revoked"@
            &&& shows_account(after, id, result.0)
            &&& exists|nonce: Vec<u8>, ciphertext: Vec<u8>|
                {
                    &&& #[trigger] call_ensures(
                        receipt,
                        (&result,),
                        Ok::<_, ServiceAccountPluginError>((nonce, ciphertext)),
                    )
                    &&& completed_alone(t, after, key@, nonce@, ciphertext@, at as int)
                }
        }),
{
    lemma_revoked(tables, key, revocation, now, at, receipt, result);
    let t = old(tables)@;
    let revoked = after_revocation(t, *revocation, now as int);
    assert(revoked.credentials.dom() =~= t.credentials.dom());
}

/// A revocation, in other words.
pub proof fn lemma_revokes(
    t: TablesView,
    after: TablesView,
    revocation: Revocation,
    now: int,
    moment: int,
)
    requires
        kept_as(now, moment),
        t.accounts[revocation.service_account_id@].status != "revoked"@,
        t.accounts[revocation.service_account_id@].revision == revocation.expected_revision,
        after.accounts == after_revocation(t, revocation, now).accounts,
        after.credentials == after_revocation(t, revocation, now).credentials,
    ensures
        revokes(t, after, revocation, moment),
{
    assert(after.credentials.dom() =~= t.credentials.dom());
}

/// A revocation of an account that is revoked already changes nothing but the
/// command, and says so.
pub proof fn revoking_again_completes_the_command_only<F>(
    tables: &mut Tables,
    key: &CommandKey,
    revocation: &Revocation,
    now: i128,
    at: i128,
    receipt: F,
    result: (AccountRow, bool),
) where F: FnOnce(&(AccountRow, bool)) -> Result<(Vec<u8>, Vec<u8>), ServiceAccountPluginError>
    requires
        old(tables).well_formed(),
        old(tables)@.accounts[revocation.service_account_id@].status == "revoked"@,
        call_ensures(
            Tables::revoke_account::<F>,
            (tables, key, revocation, now, at, receipt),
            Ok(Mutation::Updated(result)),
        ),
    ensures
        ({
            let t = old(tables)@;
            let after = final(tables)@;
            &&& !result.1
            &&& after.accounts == t.accounts
            &&& after.credentials == t.credentials
            &&& shows_account(after, revocation.service_account_id@, result.0)
            &&& exists|nonce: Vec<u8>, ciphertext: Vec<u8>|
                {
                    &&& #[trigger] call_ensures(
                        receipt,
                        (&result,),
                        Ok::<_, ServiceAccountPluginError>((nonce, ciphertext)),
                    )
                    &&& completed_alone(t, after, key@, nonce@, ciphertext@, at as int)
                }
        }),
{
    lemma_revoked(tables, key, revocation, now, at, receipt, result);
}

proof fn lemma_revoked<F>(
    tables: &mut Tables,
    key: &CommandKey,
    revocation: &Revocation,
    now: i128,
    at: i128,
    receipt: F,
    result: (AccountRow, bool),
) where F: FnOnce(&(AccountRow, bool)) -> Result<(Vec<u8>, Vec<u8>), ServiceAccountPluginError>
    requires
        old(tables).well_formed(),
        call_ensures(
            Tables::revoke_account::<F>,
            (tables, key, revocation, now, at, receipt),
            Ok(Mutation::Updated(result)),
        ),
    ensures
        ({
            let t = old(tables)@;
            let after = final(tables)@;
            let revoked = after_revocation(t, *revocation, now as int);
            &&& after.accounts == revoked.accounts
            &&& after.credentials == revoked.credentials
            &&& shows_account(after, revocation.service_account_id@, result.0)
            &&& exists|nonce: Vec<u8>, ciphertext: Vec<u8>|
                {
                    &&& #[trigger] call_ensures(
                        receipt,
                        (&result,),
                        Ok::<_, ServiceAccountPluginError>((nonce, ciphertext)),
                    )
                    &&& completed_alone(t, after, key@, nonce@, ciphertext@, at as int)
                }
        }),
{
    let t = old(tables)@;
    let after = final(tables)@;
    let id = revocation.service_account_id@;
    let revoked = after_revocation(t, *revocation, now as int);
    lemma_table_domain(old(tables).credentials@);
    assert(revoked.credentials.dom() =~= t.credentials.dom());
    lemma_shows_account(revoked, id, result.0);
    let (nonce, ciphertext) = choose|nonce: Vec<u8>, ciphertext: Vec<u8>|
        {
            &&& #[trigger] call_ensures(
                receipt,
                (&result,),
                Ok::<_, ServiceAccountPluginError>((nonce, ciphertext)),
            )
            &&& after == after_success(
                revoked,
                key@,
                nonce@,
                ciphertext@,
                at as int,
            )
        };
    assert(completed_alone(t, after, key@, nonce@, ciphertext@, at as int));
    lemma_same_rows(revoked, after, id, result.0);
}

/// A revocation that fails is rolled back, and fails only because the command
/// does not run, because the receipt failed, or because revisions are used up.
pub proof fn failed_revocations_leave_nothing_behind<F>(
    tables: &mut Tables,
    key: &CommandKey,
    revocation: &Revocation,
    now: i128,
    at: i128,
    receipt: F,
    error: StoreError,
) where F: FnOnce(&(AccountRow, bool)) -> Result<(Vec<u8>, Vec<u8>), ServiceAccountPluginError>
    requires
        call_ensures(
            Tables::revoke_account::<F>,
            (tables, key, revocation, now, at, receipt),
            Err(error),
        ),
    ensures
        final(tables)@ == old(tables)@,
        error is Plugin,
        error matches StoreError::Plugin(cause) ==> {
            ||| revocation.expected_revision == 0x7fff_ffff_ffff_ffff && cause.says(
                "service-account revision is exhausted"@,
            )
            ||| !running(old(tables)@, key@) && cause.says(
                "service-account command was not completable"@,
            )
            ||| exists|result: (AccountRow, bool)|
                result.0.service_account_id@ == revocation.service_account_id@
                    && #[trigger] call_ensures(
                    receipt,
                    (&result,),
                    Err::<(Vec<u8>, Vec<u8>), _>(cause),
                )
        },
{
}

/// A revision is used once: after an account was rotated or revoked at one, a
/// rotation or revocation that expects it again is not carried out.
pub proof fn a_revision_is_used_once_by_any_change(
    t: TablesView,
    rotation: Rotation,
    revocation: Revocation,
    again: Rotation,
    revoking_again: Revocation,
    now: int,
)
    requires
        rotation.organization_id@ == revocation.organization_id@,
        rotation.service_account_id@ == revocation.service_account_id@,
        rotation.expected_revision == revocation.expected_revision,
        again.organization_id@ == revocation.organization_id@,
        again.service_account_id@ == revocation.service_account_id@,
        again.expected_revision == revocation.expected_revision,
        revoking_again.organization_id@ == revocation.organization_id@,
        revoking_again.service_account_id@ == revocation.service_account_id@,
        revoking_again.expected_revision == revocation.expected_revision,
        t.accounts[revocation.service_account_id@].status != "revoked"@,
    ensures
        rotation_obstacle(t, rotation) is None ==> {
            let after = after_rotation(t, rotation, now);
            &&& rotation_obstacle(after, again) == Some(Obstacle::RevisionConflict)
            &&& revocation_obstacle(after, revoking_again) == Some(Obstacle::RevisionConflict)
        },
        revocation_obstacle(t, revocation) is None ==> {
            let after = after_revocation(t, revocation, now);
            &&& rotation_obstacle(after, again) == Some(Obstacle::Revoked)
            &&& revocation_obstacle(after, revoking_again) == Some(Obstacle::RevisionConflict)
        },
{
}

} // verus!
