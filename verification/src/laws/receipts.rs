//! What is kept of a change as the receipt of its command.

use vstd::prelude::*;
use vstd::string::*;

use crate::admission::{receipt_binding, seals};
use crate::contract::{
    CreateServiceAccountResponse, RevokeServiceAccountResponse, RotateServiceAccountSecretResponse,
};
use crate::create::{commit_creation, is_creation_receipt, seals_creation};
use crate::crypto::{aes256_gcm_opened, opened_receipt, ReceiptCipher};
use crate::error::{CryptoError, ServiceAccountPluginError};
use crate::laws::access::binding;
use crate::laws::changes::{
    adds_account, answers_creation, answers_revocation, answers_rotation, completed_alone,
    lemma_organization, lemma_revokes, lemma_same_rows, revokes, rotates,
};
use crate::laws::kept_as;
use crate::laws::management::{lemma_summarizes, shows_row};
use crate::laws::tables::{lemma_shows_account, running, shows_account};
use crate::revoke::{commit_revocation, is_revocation_receipt, seals_revocation};
use crate::rotate::{commit_rotation, is_rotation_receipt, seals_rotation};
use crate::rows::{AccountRow, CommandKey, Mutation};
use crate::storage::{
    after_creation, after_revocation, after_rotation, after_success, is_latest_credential,
    NewAccount, Revocation, Rotation, StoreError, Tables, TablesView,
};
use crate::table::lemma_table_domain;

verus! {

/// The instant is of no year from 0 to 9999.
pub open spec fn unwritable(t: int) -> bool {
    t < -62_167_219_200_000_000_000 || t >= 253_402_300_800_000_000_000
}

/// Some credential of the account ends at an instant that cannot be written.
pub open spec fn unwritable_end(t: TablesView, id: Seq<char>) -> bool {
    exists|c: Seq<char>|
        #[trigger] t.credentials.dom().contains(c) && t.credentials[c].service_account_id == id
            && unwritable(t.credentials[c].valid_until)
}

/// Some credential of the account begins at an instant that cannot be written.
pub open spec fn unwritable_start(t: TablesView, id: Seq<char>) -> bool {
    exists|c: Seq<char>|
        #[trigger] t.credentials.dom().contains(c) && t.credentials[c].service_account_id == id
            && unwritable(t.credentials[c].valid_from)
}

/// What is written into the receipt of a creation: the account as it now
/// stands, no secret, and that it was created. The receipt is sealed under the
/// cipher and bound to the command.
pub open spec fn keeps_creation<E>(
    cipher_key: Seq<u8>,
    command: CommandKey,
    row: AccountRow,
    encode: E,
    response: CreateServiceAccountResponse,
    bytes: Vec<u8>,
    nonce: Seq<u8>,
    ciphertext: Seq<u8>,
) -> bool where E: FnOnce(&CreateServiceAccountResponse) -> Result<Vec<u8>, serde_json::Error> {
    &&& shows_row(response.account, row)
    &&& response.created
    &&& response.secret.0 is None
    &&& call_ensures(encode, (&response,), Ok::<_, serde_json::Error>(bytes))
    &&& nonce.len() == 12
    &&& aes256_gcm_opened(cipher_key, nonce, ciphertext, binding(command)) == Some(bytes@)
}

/// A creation through `commit_creation` is answered as one on the tables is, and
/// leaves nothing behind where it fails.
pub proof fn committed_creations_are_answered_as_any<E>(
    tables: &mut Tables,
    cipher: &ReceiptCipher,
    command: &CommandKey,
    account: &NewAccount,
    max_accounts: u32,
    at: i128,
    encode: E,
    r: Result<Option<AccountRow>, StoreError>,
) where E: FnOnce(&CreateServiceAccountResponse) -> Result<Vec<u8>, serde_json::Error>
    requires
        call_ensures(
            commit_creation::<E>,
            (tables, cipher, command, account, max_accounts, at, encode),
            r,
        ),
    ensures
        answers_creation(old(tables)@, final(tables)@, max_accounts as int, *account, r),
        r is Err ==> final(tables)@ == old(tables)@,
{
    lemma_organization(old(tables)@, account.organization_id@);
}

/// What was sealed for a creation is what is to be written.
proof fn lemma_creation_kept<E>(
    cipher_key: Seq<u8>,
    command: CommandKey,
    row: AccountRow,
    encode: E,
    nonce: Vec<u8>,
    ciphertext: Vec<u8>,
) where E: FnOnce(&CreateServiceAccountResponse) -> Result<Vec<u8>, serde_json::Error>
    requires
        seals_creation(
            cipher_key,
            receipt_binding(command@),
            row@,
            encode,
            Ok((nonce, ciphertext)),
        ),
    ensures
        exists|response: CreateServiceAccountResponse, bytes: Vec<u8>| #[trigger]
            keeps_creation(
                cipher_key,
                command,
                row,
                encode,
                response,
                bytes,
                nonce@,
                ciphertext@,
            ),
{
    let response = choose|response: CreateServiceAccountResponse|
        is_creation_receipt(response, row@) && #[trigger] seals(
            cipher_key,
            receipt_binding(command@),
            &response,
            encode,
            Ok((nonce, ciphertext)),
        );
    let bytes = choose|bytes: Vec<u8>|
        {
            &&& #[trigger] call_ensures(encode, (&response,), Ok::<_, serde_json::Error>(bytes))
            &&& opened_receipt(cipher_key, nonce@, ciphertext@, receipt_binding(command@)) == Some(
                bytes@,
            )
        };
    lemma_summarizes(response.account, row);
    assert(keeps_creation(
        cipher_key,
        command,
        row,
        encode,
        response,
        bytes,
        nonce@,
        ciphertext@,
    ));
}

/// A creation through `commit_creation` is carried out as one on the tables is,
/// and completes the command with its receipt.
#[verifier::rlimit(30)]
pub proof fn committed_creations_keep_their_receipt<E>(
    tables: &mut Tables,
    cipher: &ReceiptCipher,
    command: &CommandKey,
    account: &NewAccount,
    max_accounts: u32,
    at: i128,
    encode: E,
    row: AccountRow,
) where E: FnOnce(&CreateServiceAccountResponse) -> Result<Vec<u8>, serde_json::Error>
    requires
        old(tables).well_formed(),
        call_ensures(
            commit_creation::<E>,
            (tables, cipher, command, account, max_accounts, at, encode),
            Ok(Some(row)),
        ),
    ensures
        ({
            let t = old(tables)@;
            let after = final(tables)@;
            &&& adds_account(t, after, *account, at as int)
            &&& shows_account(after, account.service_account_id@, row)
            &&& exists|
                response: CreateServiceAccountResponse,
                bytes: Vec<u8>,
                nonce: Seq<u8>,
                ciphertext: Seq<u8>,
            |
                #[trigger] keeps_creation(
                    cipher.key(),
                    *command,
                    row,
                    encode,
                    response,
                    bytes,
                    nonce,
                    ciphertext,
                ) && completed_alone(t, after, command@, nonce, ciphertext, at as int)
        }),
{
    let t = old(tables)@;
    let after = final(tables)@;
    let id = account.service_account_id@;
    let done = after_creation(t, *account, at as int);
    lemma_table_domain(old(tables).credentials@);
    lemma_shows_account(done, id, row);
    let (nonce, ciphertext) = choose|nonce: Vec<u8>, ciphertext: Vec<u8>|
        {
            &&& #[trigger] seals_creation(
                cipher.key(),
                receipt_binding(command@),
                row@,
                encode,
                Ok((nonce, ciphertext)),
            )
            &&& after == after_success(done, command@, nonce@, ciphertext@, at as int)
        };
    lemma_creation_kept(
        cipher.key(),
        *command,
        row,
        encode,
        nonce,
        ciphertext,
    );
    assert(completed_alone(t, after, command@, nonce@, ciphertext@, at as int));
    lemma_same_rows(done, after, id, row);
}

/// A creation through `commit_creation` that nothing stands against, for a
/// command that runs, fails only if the account cannot be shown or the receipt
/// cannot be sealed.
pub proof fn committed_creations_fail_for_their_receipt_only<E>(
    tables: &mut Tables,
    cipher: &ReceiptCipher,
    command: &CommandKey,
    account: &NewAccount,
    max_accounts: u32,
    at: i128,
    encode: E,
    error: ServiceAccountPluginError,
) where E: FnOnce(&CreateServiceAccountResponse) -> Result<Vec<u8>, serde_json::Error>
    requires
        running(old(tables)@, command@),
        call_ensures(
            commit_creation::<E>,
            (tables, cipher, command, account, max_accounts, at, encode),
            Err(StoreError::Plugin(error)),
        ),
    ensures
        match error {
            ServiceAccountPluginError::Crypto(CryptoError::Random(_)) => true,
            ServiceAccountPluginError::Crypto(CryptoError::Serialize(cause)) => exists|
                response: CreateServiceAccountResponse,
            |
                #[trigger] call_ensures(encode, (&response,), Err::<Vec<u8>, _>(cause)),
            ServiceAccountPluginError::Crypto(CryptoError::ReceiptEncryption) => exists|
                response: CreateServiceAccountResponse,
                bytes: Vec<u8>,
            |
                #[trigger] call_ensures(encode, (&response,), Ok::<_, serde_json::Error>(bytes))
                    && (bytes@.len() > 0x10_0000_0000 || binding(*command).len()
                    > 0x10_0000_0000),
            ServiceAccountPluginError::Invariant(_) => false,
            ServiceAccountPluginError::FormatTime(_) => unwritable(at as int)
                || unwritable_end(old(tables)@, account.service_account_id@) || exists|end: int|
                #[trigger] kept_as(account.valid_until as int, end) && unwritable(end),
            _ => false,
        },
{
    reveal_strlit("active");
    let t = old(tables)@;
    let id = account.service_account_id@;
    let done = after_creation(t, *account, at as int);
    if error is FormatTime {
        let c = choose|c: Seq<char>| is_latest_credential(done, c, id);
        if is_latest_credential(done, c, id) {
            let end = done.credentials[c].valid_until;
            if c == account.credential_id@ {
                assert(kept_as(account.valid_until as int, end));
            } else {
                assert(t.credentials.dom().contains(c));
            }
        }
    }
}

/// What is written into the receipt of a rotation: the account as it now
/// stands, no secret, and that it was rotated. The receipt is sealed under the
/// cipher and bound to the command.
pub open spec fn keeps_rotation<E>(
    cipher_key: Seq<u8>,
    command: CommandKey,
    row: AccountRow,
    encode: E,
    response: RotateServiceAccountSecretResponse,
    bytes: Vec<u8>,
    nonce: Seq<u8>,
    ciphertext: Seq<u8>,
) -> bool where E: FnOnce(&RotateServiceAccountSecretResponse) -> Result<Vec<u8>, serde_json::Error> {
    &&& shows_row(response.account, row)
    &&& response.rotated
    &&& response.secret.0 is None
    &&& call_ensures(encode, (&response,), Ok::<_, serde_json::Error>(bytes))
    &&& nonce.len() == 12
    &&& aes256_gcm_opened(cipher_key, nonce, ciphertext, binding(command)) == Some(bytes@)
}

/// A rotation through `commit_rotation` is answered as one on the tables is, and
/// leaves nothing behind where it fails.
pub proof fn committed_rotations_are_answered_as_any<E>(
    tables: &mut Tables,
    cipher: &ReceiptCipher,
    command: &CommandKey,
    rotation: &Rotation,
    at: i128,
    encode: E,
    r: Result<Mutation<AccountRow>, StoreError>,
) where E: FnOnce(&RotateServiceAccountSecretResponse) -> Result<Vec<u8>, serde_json::Error>
    requires
        call_ensures(commit_rotation::<E>, (tables, cipher, command, rotation, at, encode), r),
    ensures
        answers_rotation(old(tables)@, final(tables)@, *rotation, r),
        r is Err ==> final(tables)@ == old(tables)@,
{
}

/// What was sealed for a rotation is what is to be written.
proof fn lemma_rotation_kept<E>(
    cipher_key: Seq<u8>,
    command: CommandKey,
    row: AccountRow,
    encode: E,
    nonce: Vec<u8>,
    ciphertext: Vec<u8>,
) where E: FnOnce(&RotateServiceAccountSecretResponse) -> Result<Vec<u8>, serde_json::Error>
    requires
        seals_rotation(
            cipher_key,
            receipt_binding(command@),
            row@,
            encode,
            Ok((nonce, ciphertext)),
        ),
    ensures
        exists|response: RotateServiceAccountSecretResponse, bytes: Vec<u8>| #[trigger]
            keeps_rotation(
                cipher_key,
                command,
                row,
                encode,
                response,
                bytes,
                nonce@,
                ciphertext@,
            ),
{
    let response = choose|response: RotateServiceAccountSecretResponse|
        is_rotation_receipt(response, row@) && #[trigger] seals(
            cipher_key,
            receipt_binding(command@),
            &response,
            encode,
            Ok((nonce, ciphertext)),
        );
    let bytes = choose|bytes: Vec<u8>|
        {
            &&& #[trigger] call_ensures(encode, (&response,), Ok::<_, serde_json::Error>(bytes))
            &&& opened_receipt(cipher_key, nonce@, ciphertext@, receipt_binding(command@)) == Some(
                bytes@,
            )
        };
    lemma_summarizes(response.account, row);
    assert(keeps_rotation(
        cipher_key,
        command,
        row,
        encode,
        response,
        bytes,
        nonce@,
        ciphertext@,
    ));
}

/// A rotation through `commit_rotation` is carried out as one on the tables is,
/// and completes the command with its receipt.
#[verifier::rlimit(30)]
pub proof fn committed_rotations_keep_their_receipt<E>(
    tables: &mut Tables,
    cipher: &ReceiptCipher,
    command: &CommandKey,
    rotation: &Rotation,
    at: i128,
    encode: E,
    row: AccountRow,
    from: int,
    until: int,
) where E: FnOnce(&RotateServiceAccountSecretResponse) -> Result<Vec<u8>, serde_json::Error>
    requires
        old(tables).well_formed(),
        kept_as(rotation.valid_from as int, from),
        kept_as(rotation.overlap_until as int, until),
        call_ensures(
            commit_rotation::<E>,
            (tables, cipher, command, rotation, at, encode),
            Ok(Mutation::Updated(row)),
        ),
    ensures
        ({
            let t = old(tables)@;
            let after = final(tables)@;
            &&& rotates(t, after, *rotation, from, until, at as int)
            &&& shows_account(after, rotation.service_account_id@, row)
            &&& exists|
                response: RotateServiceAccountSecretResponse,
                bytes: Vec<u8>,
                nonce: Seq<u8>,
                ciphertext: Seq<u8>,
            |
                #[trigger] keeps_rotation(
                    cipher.key(),
                    *command,
                    row,
                    encode,
                    response,
                    bytes,
                    nonce,
                    ciphertext,
                ) && completed_alone(t, after, command@, nonce, ciphertext, at as int)
        }),
{
    let t = old(tables)@;
    let after = final(tables)@;
    let id = rotation.service_account_id@;
    let done = after_rotation(t, *rotation, at as int);
    lemma_table_domain(old(tables).credentials@);
    assert(done.credentials.dom() =~= t.credentials.dom().insert(rotation.credential_id@));
    lemma_shows_account(done, id, row);
    let (nonce, ciphertext) = choose|nonce: Vec<u8>, ciphertext: Vec<u8>|
        {
            &&& #[trigger] seals_rotation(
                cipher.key(),
                receipt_binding(command@),
                row@,
                encode,
                Ok((nonce, ciphertext)),
            )
            &&& after == after_success(done, command@, nonce@, ciphertext@, at as int)
        };
    lemma_rotation_kept(
        cipher.key(),
        *command,
        row,
        encode,
        nonce,
        ciphertext,
    );
    assert(completed_alone(t, after, command@, nonce@, ciphertext@, at as int));
    lemma_same_rows(done, after, id, row);
}

/// A rotation through `commit_rotation` that nothing stands against, for a
/// command that runs, fails only if the account cannot be shown or the receipt
/// cannot be sealed.
pub proof fn committed_rotations_fail_for_their_receipt_only<E>(
    tables: &mut Tables,
    cipher: &ReceiptCipher,
    command: &CommandKey,
    rotation: &Rotation,
    at: i128,
    encode: E,
    error: ServiceAccountPluginError,
) where E: FnOnce(&RotateServiceAccountSecretResponse) -> Result<Vec<u8>, serde_json::Error>
    requires
        running(old(tables)@, command@),
        call_ensures(
            commit_rotation::<E>,
            (tables, cipher, command, rotation, at, encode),
            Err(StoreError::Plugin(error)),
        ),
        rotation.expected_revision != 0x7fff_ffff_ffff_ffff,
    ensures
        match error {
            ServiceAccountPluginError::Crypto(CryptoError::Random(_)) => true,
            ServiceAccountPluginError::Crypto(CryptoError::Serialize(cause)) => exists|
                response: RotateServiceAccountSecretResponse,
            |
                #[trigger] call_ensures(encode, (&response,), Err::<Vec<u8>, _>(cause)),
            ServiceAccountPluginError::Crypto(CryptoError::ReceiptEncryption) => exists|
                response: RotateServiceAccountSecretResponse,
                bytes: Vec<u8>,
            |
                #[trigger] call_ensures(encode, (&response,), Ok::<_, serde_json::Error>(bytes))
                    && (bytes@.len() > 0x10_0000_0000 || binding(*command).len()
                    > 0x10_0000_0000),
            ServiceAccountPluginError::Invariant(text) => {
                let status = old(tables)@.accounts[rotation.service_account_id@].status;
                &&& status != "active"@ && status != "revoked"@
                &&& text@ == "unknown service-account status"@
            },
            ServiceAccountPluginError::FormatTime(_) => {
                let t = old(tables)@;
                let stored = t.accounts[rotation.service_account_id@];
                ||| unwritable(stored.created_at)
                ||| stored.revoked_at is Some && unwritable(stored.revoked_at.unwrap())
                ||| unwritable_end(t, rotation.service_account_id@)
                ||| exists|kept: int|
                    #[trigger] kept_as(rotation.valid_from as int, kept) && unwritable(kept)
                ||| exists|kept: int|
                    #[trigger] kept_as(rotation.overlap_until as int, kept) && unwritable(kept)
                ||| exists|kept: int|
                    #[trigger] kept_as(rotation.valid_until as int, kept) && unwritable(kept)
            },
            _ => false,
        },
{
    let t = old(tables)@;
    let id = rotation.service_account_id@;
    let done = after_rotation(t, *rotation, at as int);
    if error is FormatTime {
        assert(kept_as(
            rotation.valid_from as int,
            crate::instant::stored_instant(rotation.valid_from as int),
        ));
        assert(kept_as(
            rotation.overlap_until as int,
            crate::instant::stored_instant(rotation.overlap_until as int),
        ));
        let c = choose|c: Seq<char>| is_latest_credential(done, c, id);
        if is_latest_credential(done, c, id) {
            let end = done.credentials[c].valid_until;
            if c == rotation.credential_id@ {
                assert(kept_as(rotation.valid_until as int, end));
            } else {
                assert(t.credentials.dom().contains(c));
            }
        }
    }
}

/// What is written into the receipt of a revocation: the account as it now
/// stands, and whether it was revoked just now. The receipt is sealed under the
/// cipher and bound to the command.
pub open spec fn keeps_revocation<E>(
    cipher_key: Seq<u8>,
    command: CommandKey,
    row: AccountRow,
    changed: bool,
    encode: E,
    response: RevokeServiceAccountResponse,
    bytes: Vec<u8>,
    nonce: Seq<u8>,
    ciphertext: Seq<u8>,
) -> bool where E: FnOnce(&RevokeServiceAccountResponse) -> Result<Vec<u8>, serde_json::Error> {
    &&& shows_row(response.account, row)
    &&& response.revoked == changed
    &&& call_ensures(encode, (&response,), Ok::<_, serde_json::Error>(bytes))
    &&& nonce.len() == 12
    &&& aes256_gcm_opened(cipher_key, nonce, ciphertext, binding(command)) == Some(bytes@)
}

/// A revocation through `commit_revocation` is answered as one on the tables
/// is, and leaves nothing behind where it fails.
pub proof fn committed_revocations_are_answered_as_any<E>(
    tables: &mut Tables,
    cipher: &ReceiptCipher,
    command: &CommandKey,
    revocation: &Revocation,
    now: i128,
    at: i128,
    encode: E,
    r: Result<Mutation<(AccountRow, bool)>, StoreError>,
) where E: FnOnce(&RevokeServiceAccountResponse) -> Result<Vec<u8>, serde_json::Error>
    requires
        call_ensures(
            commit_revocation::<E>,
            (tables, cipher, command, revocation, now, at, encode),
            r,
        ),
    ensures
        answers_revocation(old(tables)@, final(tables)@, *revocation, r),
        r is Err ==> final(tables)@ == old(tables)@,
{
}

/// What was sealed for a revocation is what is to be written.
proof fn lemma_revocation_kept<E>(
    cipher_key: Seq<u8>,
    command: CommandKey,
    row: AccountRow,
    changed: bool,
    encode: E,
    nonce: Vec<u8>,
    ciphertext: Vec<u8>,
) where E: FnOnce(&RevokeServiceAccountResponse) -> Result<Vec<u8>, serde_json::Error>
    requires
        seals_revocation(
            cipher_key,
            receipt_binding(command@),
            row@,
            changed,
            encode,
            Ok((nonce, ciphertext)),
        ),
    ensures
        exists|response: RevokeServiceAccountResponse, bytes: Vec<u8>| #[trigger]
            keeps_revocation(
                cipher_key,
                command,
                row,
                changed,
                encode,
                response,
                bytes,
                nonce@,
                ciphertext@,
            ),
{
    let response = choose|response: RevokeServiceAccountResponse|
        is_revocation_receipt(response, row@, changed) && #[trigger] seals(
            cipher_key,
            receipt_binding(command@),
            &response,
            encode,
            Ok((nonce, ciphertext)),
        );
    let bytes = choose|bytes: Vec<u8>|
        {
            &&& #[trigger] call_ensures(encode, (&response,), Ok::<_, serde_json::Error>(bytes))
            &&& opened_receipt(cipher_key, nonce@, ciphertext@, receipt_binding(command@)) == Some(
                bytes@,
            )
        };
    lemma_summarizes(response.account, row);
    assert(keeps_revocation(
        cipher_key,
        command,
        row,
        changed,
        encode,
        response,
        bytes,
        nonce@,
        ciphertext@,
    ));
}

/// A revocation through `commit_revocation` is carried out as one on the tables
/// is, and completes the command with its receipt.
#[verifier::rlimit(30)]
pub proof fn committed_revocations_keep_their_receipt<E>(
    tables: &mut Tables,
    cipher: &ReceiptCipher,
    command: &CommandKey,
    revocation: &Revocation,
    now: i128,
    at: i128,
    encode: E,
    row: AccountRow,
    changed: bool,
    moment: int,
) where E: FnOnce(&RevokeServiceAccountResponse) -> Result<Vec<u8>, serde_json::Error>
    requires
        old(tables).well_formed(),
        kept_as(now as int, moment),
        call_ensures(
            commit_revocation::<E>,
            (tables, cipher, command, revocation, now, at, encode),
            Ok(Mutation::Updated((row, changed))),
        ),
    ensures
        ({
            let t = old(tables)@;
            let after = final(tables)@;
            &&& if changed {
                revokes(t, after, *revocation, moment)
            } else {
                after.accounts == t.accounts && after.credentials == t.credentials
            }
            &&& shows_account(after, revocation.service_account_id@, row)
            &&& exists|
                response: RevokeServiceAccountResponse,
                bytes: Vec<u8>,
                nonce: Seq<u8>,
                ciphertext: Seq<u8>,
            |
                #[trigger] keeps_revocation(
                    cipher.key(),
                    *command,
                    row,
                    changed,
                    encode,
                    response,
                    bytes,
                    nonce,
                    ciphertext,
                ) && completed_alone(t, after, command@, nonce, ciphertext, at as int)
        }),
{
    let t = old(tables)@;
    let after = final(tables)@;
    let id = revocation.service_account_id@;
    let done = after_revocation(t, *revocation, now as int);
    lemma_table_domain(old(tables).credentials@);
    assert(done.credentials.dom() =~= t.credentials.dom());
    lemma_shows_account(done, id, row);
    let (nonce, ciphertext) = choose|nonce: Vec<u8>, ciphertext: Vec<u8>|
        {
            &&& #[trigger] seals_revocation(
                cipher.key(),
                receipt_binding(command@),
                row@,
                changed,
                encode,
                Ok((nonce, ciphertext)),
            )
            &&& after == after_success(done, command@, nonce@, ciphertext@, at as int)
        };
    lemma_revocation_kept(
        cipher.key(),
        *command,
        row,
        changed,
        encode,
        nonce,
        ciphertext,
    );
    assert(completed_alone(t, after, command@, nonce@, ciphertext@, at as int));
    if changed {
        lemma_revokes(t, after, *revocation, now as int, moment);
    }
    lemma_same_rows(done, after, id, row);
}

/// A revocation through `commit_revocation` that nothing stands against, for a
/// command that runs, fails only if the account cannot be shown or the receipt
/// cannot be sealed.
pub proof fn committed_revocations_fail_for_their_receipt_only<E>(
    tables: &mut Tables,
    cipher: &ReceiptCipher,
    command: &CommandKey,
    revocation: &Revocation,
    now: i128,
    at: i128,
    encode: E,
    error: ServiceAccountPluginError,
) where E: FnOnce(&RevokeServiceAccountResponse) -> Result<Vec<u8>, serde_json::Error>
    requires
        running(old(tables)@, command@),
        call_ensures(
            commit_revocation::<E>,
            (tables, cipher, command, revocation, now, at, encode),
            Err(StoreError::Plugin(error)),
        ),
        revocation.expected_revision != 0x7fff_ffff_ffff_ffff,
    ensures
        match error {
            ServiceAccountPluginError::Crypto(CryptoError::Random(_)) => true,
            ServiceAccountPluginError::Crypto(CryptoError::Serialize(cause)) => exists|
                response: RevokeServiceAccountResponse,
            |
                #[trigger] call_ensures(encode, (&response,), Err::<Vec<u8>, _>(cause)),
            ServiceAccountPluginError::Crypto(CryptoError::ReceiptEncryption) => exists|
                response: RevokeServiceAccountResponse,
                bytes: Vec<u8>,
            |
                #[trigger] call_ensures(encode, (&response,), Ok::<_, serde_json::Error>(bytes))
                    && (bytes@.len() > 0x10_0000_0000 || binding(*command).len()
                    > 0x10_0000_0000),
            ServiceAccountPluginError::Invariant(_) => false,
            ServiceAccountPluginError::FormatTime(_) => {
                let t = old(tables)@;
                let stored = t.accounts[revocation.service_account_id@];
                ||| unwritable(stored.created_at)
                ||| stored.rotated_at is Some && unwritable(stored.rotated_at.unwrap())
                ||| stored.revoked_at is Some && unwritable(stored.revoked_at.unwrap())
                ||| unwritable_end(t, revocation.service_account_id@)
                ||| unwritable_start(t, revocation.service_account_id@)
                ||| exists|kept: int| #[trigger] kept_as(now as int, kept) && unwritable(kept)
            },
            _ => false,
        },
{
    reveal_strlit("active");
    reveal_strlit("revoked");
    assert("active"@.len() != "revoked"@.len());
    let t = old(tables)@;
    let id = revocation.service_account_id@;
    let done = after_revocation(t, *revocation, now as int);
    if error is FormatTime {
        assert(kept_as(now as int, crate::instant::stored_instant(now as int)));
        let c = choose|c: Seq<char>| is_latest_credential(done, c, id);
        if is_latest_credential(done, c, id) {
            assert(t.credentials.dom().contains(c));
        }
    }
}

} // verus!
