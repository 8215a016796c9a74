//! The tables that the plugin owns and the transactions on them.
//!
//! Each operation stands for one transaction: it either takes effect as a whole
//! or leaves the tables as they were.

use vstd::prelude::*;
use vstd::string::*;

use crate::auth_contract::EXCHANGE_SECRET_OPERATION;
use crate::error::ServiceAccountPluginError;
use crate::instant::{
    after_seconds, calendar_instant, earliest, later, stored_instant, to_stored,
};
use crate::rows::{
    AccountRecord, AccountRow, AccountRowView, AccountView, ClaimView, CommandClaim, CommandKey,
    CommandKeyView, CommandRecord, CommandView, CredentialRecord, CredentialRow, CredentialRowView,
    CredentialView, LimitRecord, LimitView, Mutation,
};
use crate::table::{
    continues, distinct, holds, lemma_table_domain, lemma_table_index, lemma_table_pointwise, lemma_table_push,
    lemma_table_remove, lemma_table_update, table, Record,
};
use crate::text::{
    copy_bytes, precedes, same_bytes, same_text, text_before, text_before_irreflexive,
    text_before_total, text_before_transitive,
};

verus! {

/// The tables.
pub struct Tables {
    pub accounts: Vec<AccountRecord>,
    pub credentials: Vec<CredentialRecord>,
    pub commands: Vec<CommandRecord>,
    pub limits: Vec<LimitRecord>,
}

/// The tables as maps: accounts by identifier, credentials by identifier,
/// commands by command key, exchange limits by caller.
pub struct TablesView {
    pub accounts: Map<Seq<char>, AccountView>,
    pub credentials: Map<Seq<char>, CredentialView>,
    pub commands: Map<CommandKeyView, CommandView>,
    pub limits: Map<Seq<char>, LimitView>,
}

impl View for Tables {
    type V = TablesView;

    open spec fn view(&self) -> TablesView {
        TablesView {
            accounts: table(self.accounts@),
            credentials: table(self.credentials@),
            commands: table(self.commands@),
            limits: table(self.limits@),
        }
    }
}

impl Tables {
    /// Keys are unique in each table, and rate windows start at calendar dates.
    pub open spec fn well_formed(self) -> bool {
        &&& distinct(self.accounts@)
        &&& distinct(self.credentials@)
        &&& distinct(self.commands@)
        &&& distinct(self.limits@)
        &&& forall|i: int|
            0 <= i < self.limits@.len() ==> calendar_instant(
                (#[trigger] self.limits@[i]).window_started_at as int,
            )
    }

    /// Empty tables.
    pub fn new() -> (r: Tables)
        ensures
            r.well_formed(),
            r@ == (TablesView {
                accounts: Map::empty(),
                credentials: Map::empty(),
                commands: Map::empty(),
                limits: Map::empty(),
            }),
    {
        Tables {
            accounts: Vec::new(),
            credentials: Vec::new(),
            commands: Vec::new(),
            limits: Vec::new(),
        }
    }

    /// Tables with the given rows, if the rows can stand in them.
    pub fn load(
        accounts: Vec<AccountRecord>,
        credentials: Vec<CredentialRecord>,
        commands: Vec<CommandRecord>,
        limits: Vec<LimitRecord>,
    ) -> (r: Option<Tables>)
        ensures
            ({
                let value = Tables { accounts, credentials, commands, limits };
                match r {
                    Some(tables) => tables == value && value.well_formed(),
                    None => !value.well_formed(),
                }
            }),
    {
        let mut i: usize = 0;
        while i < accounts.len()
            invariant
                i <= accounts@.len(),
                distinct(accounts@.take(i as int)),
            decreases accounts@.len() - i,
        {
            let mut j: usize = 0;
            while j < i
                invariant
                    j <= i < accounts@.len(),
                    forall|k: int| 0 <= k < j ==> accounts@[k].key() != accounts@[i as int].key(),
                decreases i - j,
            {
                if accounts[j].service_account_id == accounts[i].service_account_id {
                    assert(accounts@[j as int].key() == accounts@[i as int].key());
                    return None;
                }
                j += 1;
            }
            proof {
                lemma_distinct_extends(accounts@, i as int);
            }
            i += 1;
        }
        assert(accounts@.take(i as int) =~= accounts@);
        i = 0;
        while i < credentials.len()
            invariant
                i <= credentials@.len(),
                distinct(credentials@.take(i as int)),
            decreases credentials@.len() - i,
        {
            let mut j: usize = 0;
            while j < i
                invariant
                    j <= i < credentials@.len(),
                    forall|k: int|
                        0 <= k < j ==> credentials@[k].key() != credentials@[i as int].key(),
                decreases i - j,
            {
                if credentials[j].credential_id == credentials[i].credential_id {
                    assert(credentials@[j as int].key() == credentials@[i as int].key());
                    return None;
                }
                j += 1;
            }
            proof {
                lemma_distinct_extends(credentials@, i as int);
            }
            i += 1;
        }
        assert(credentials@.take(i as int) =~= credentials@);
        i = 0;
        while i < commands.len()
            invariant
                i <= commands@.len(),
                distinct(commands@.take(i as int)),
            decreases commands@.len() - i,
        {
            let mut j: usize = 0;
            while j < i
                invariant
                    j <= i < commands@.len(),
                    forall|k: int| 0 <= k < j ==> commands@[k].key() != commands@[i as int].key(),
                decreases i - j,
            {
                if commands[j].command.same(&commands[i].command) {
                    assert(commands@[j as int].key() == commands@[i as int].key());
                    return None;
                }
                j += 1;
            }
            proof {
                lemma_distinct_extends(commands@, i as int);
            }
            i += 1;
        }
        assert(commands@.take(i as int) =~= commands@);
        i = 0;
        while i < limits.len()
            invariant
                i <= limits@.len(),
                distinct(limits@.take(i as int)),
                forall|k: int|
                    0 <= k < i ==> calendar_instant(
                        (#[trigger] limits@[k]).window_started_at as int,
                    ),
            decreases limits@.len() - i,
        {
            let mut j: usize = 0;
            while j < i
                invariant
                    j <= i < limits@.len(),
                    forall|k: int| 0 <= k < j ==> limits@[k].key() != limits@[i as int].key(),
                decreases i - j,
            {
                if limits[j].caller_instance == limits[i].caller_instance {
                    assert(limits@[j as int].key() == limits@[i as int].key());
                    return None;
                }
                j += 1;
            }
            if !crate::instant::is_calendar_instant(limits[i].window_started_at) {
                assert(!calendar_instant(limits@[i as int].window_started_at as int));
                return None;
            }
            proof {
                lemma_distinct_extends(limits@, i as int);
            }
            i += 1;
        }
        assert(limits@.take(i as int) =~= limits@);
        Some(Tables { accounts, credentials, commands, limits })
    }
}

proof fn lemma_distinct_extends<R: Record>(rows: Seq<R>, i: int)
    requires
        0 <= i < rows.len(),
        distinct(rows.take(i)),
        forall|k: int| 0 <= k < i ==> (#[trigger] rows[k]).key() != rows[i].key(),
    ensures
        distinct(rows.take(i + 1)),
{
    let before = rows.take(i);
    let after = rows.take(i + 1);
    assert forall|a: int, b: int| 0 <= a < b < after.len() implies (#[trigger] after[a]).key() != (
    #[trigger] after[b]).key() by {
        if b < i {
            assert(before[a].key() != before[b].key());
        } else {
            assert(rows[a].key() != rows[i].key());
        }
    }
}

impl Tables {
    fn find_account(&self, key: &str) -> (r: Option<usize>)
        requires
            distinct(self.accounts@),
        ensures
            match r {
                Some(i) => {
                    &&& i < self.accounts@.len()
                    &&& self.accounts@[i as int].key() == key@
                    &&& self@.accounts.dom().contains(key@)
                    &&& self@.accounts[key@] == self.accounts@[i as int].row()
                },
                None => !self@.accounts.dom().contains(key@),
            },
    {
        let mut i: usize = 0;
        while i < self.accounts.len()
            invariant
                i <= self.accounts@.len(),
                distinct(self.accounts@),
                forall|k: int| 0 <= k < i ==> (#[trigger] self.accounts@[k]).key() != key@,
            decreases self.accounts@.len() - i,
        {
            if same_text(self.accounts[i].service_account_id.as_str(), key) {
                proof {
                    lemma_table_index(self.accounts@, i as int);
                }
                return Some(i);
            }
            i += 1;
        }
        proof {
            lemma_table_domain(self.accounts@);
        }
        None
    }

    fn find_credential(&self, key: &str) -> (r: Option<usize>)
        requires
            distinct(self.credentials@),
        ensures
            match r {
                Some(i) => {
                    &&& i < self.credentials@.len()
                    &&& self.credentials@[i as int].key() == key@
                    &&& self@.credentials.dom().contains(key@)
                    &&& self@.credentials[key@] == self.credentials@[i as int].row()
                },
                None => !self@.credentials.dom().contains(key@),
            },
    {
        let mut i: usize = 0;
        while i < self.credentials.len()
            invariant
                i <= self.credentials@.len(),
                distinct(self.credentials@),
                forall|k: int| 0 <= k < i ==> (#[trigger] self.credentials@[k]).key() != key@,
            decreases self.credentials@.len() - i,
        {
            if same_text(self.credentials[i].credential_id.as_str(), key) {
                proof {
                    lemma_table_index(self.credentials@, i as int);
                }
                return Some(i);
            }
            i += 1;
        }
        proof {
            lemma_table_domain(self.credentials@);
        }
        None
    }

    fn find_command(&self, key: &CommandKey) -> (r: Option<usize>)
        requires
            distinct(self.commands@),
        ensures
            match r {
                Some(i) => {
                    &&& i < self.commands@.len()
                    &&& self.commands@[i as int].key() == key@
                    &&& self@.commands.dom().contains(key@)
                    &&& self@.commands[key@] == self.commands@[i as int].row()
                },
                None => !self@.commands.dom().contains(key@),
            },
    {
        let mut i: usize = 0;
        while i < self.commands.len()
            invariant
                i <= self.commands@.len(),
                distinct(self.commands@),
                forall|k: int| 0 <= k < i ==> (#[trigger] self.commands@[k]).key() != key@,
            decreases self.commands@.len() - i,
        {
            if self.commands[i].command.same(key) {
                proof {
                    lemma_table_index(self.commands@, i as int);
                }
                return Some(i);
            }
            i += 1;
        }
        proof {
            lemma_table_domain(self.commands@);
        }
        None
    }

    fn find_limit(&self, key: &str) -> (r: Option<usize>)
        requires
            distinct(self.limits@),
        ensures
            match r {
                Some(i) => {
                    &&& i < self.limits@.len()
                    &&& self.limits@[i as int].key() == key@
                    &&& self@.limits.dom().contains(key@)
                    &&& self@.limits[key@] == self.limits@[i as int].row()
                },
                None => !self@.limits.dom().contains(key@),
            },
    {
        let mut i: usize = 0;
        while i < self.limits.len()
            invariant
                i <= self.limits@.len(),
                distinct(self.limits@),
                forall|k: int| 0 <= k < i ==> (#[trigger] self.limits@[k]).key() != key@,
            decreases self.limits@.len() - i,
        {
            if same_text(self.limits[i].caller_instance.as_str(), key) {
                proof {
                    lemma_table_index(self.limits@, i as int);
                }
                return Some(i);
            }
            i += 1;
        }
        proof {
            lemma_table_domain(self.limits@);
        }
        None
    }
}

/// What an attempt to start a command finds; nothing where a completed command
/// lacks its outcome.
pub open spec fn claim_outcome(t: TablesView, key: CommandKeyView, intent: Seq<u8>) -> Option<
    ClaimView,
> {
    if !t.commands.dom().contains(key) {
        Some(ClaimView::Claimed)
    } else {
        let command = t.commands[key];
        if command.intent_hash != intent {
            Some(ClaimView::Conflict)
        } else if command.status == "completed_success"@ {
            match (command.response_nonce, command.response_ciphertext) {
                (Some(nonce), Some(ciphertext)) => Some(
                    ClaimView::CompletedSuccess { nonce, ciphertext },
                ),
                _ => None,
            }
        } else if command.status == "completed_error"@ {
            match command.error_code {
                Some(code) => Some(ClaimView::CompletedError(code)),
                None => None,
            }
        } else {
            Some(ClaimView::InProgress)
        }
    }
}

/// What a completed command without its outcome is reported as.
pub open spec fn missing_outcome(command: CommandView) -> Seq<char> {
    if command.status == "completed_success"@ {
        "completed service-account command has no receipt"@
    } else {
        "failed service-account command has no error code"@
    }
}

/// A command that has just been started.
pub open spec fn reserved_command(intent: Seq<u8>, at: int) -> CommandView {
    CommandView {
        intent_hash: intent,
        status: "reserved"@,
        response_nonce: None,
        response_ciphertext: None,
        error_code: None,
        updated_at: at,
        completed_at: None,
    }
}

/// The tables after an attempt to start a command.
pub open spec fn after_claim(
    t: TablesView,
    key: CommandKeyView,
    intent: Seq<u8>,
    at: int,
) -> TablesView {
    if t.commands.dom().contains(key) {
        t
    } else {
        TablesView { commands: t.commands.insert(key, reserved_command(intent, at)), ..t }
    }
}

/// A command that runs and can still be completed.
pub open spec fn completable(t: TablesView, key: CommandKeyView) -> bool {
    &&& t.commands.dom().contains(key)
    &&& {
        ||| t.commands[key].status == "reserved"@
        ||| t.commands[key].status == "verifying"@
        ||| t.commands[key].status == "issuing"@
    }
}

/// The tables after a command was completed with a receipt.
pub open spec fn after_success(
    t: TablesView,
    key: CommandKeyView,
    nonce: Seq<u8>,
    ciphertext: Seq<u8>,
    at: int,
) -> TablesView {
    let command = CommandView {
        status: "completed_success"@,
        response_nonce: Some(nonce),
        response_ciphertext: Some(ciphertext),
        updated_at: at,
        completed_at: Some(at),
        ..t.commands[key]
    };
    TablesView { commands: t.commands.insert(key, command), ..t }
}

/// The tables after a command was completed with an error.
pub open spec fn after_error(t: TablesView, key: CommandKeyView, code: Seq<char>, at: int) -> TablesView {
    let command = CommandView {
        status: "completed_error"@,
        error_code: Some(code),
        updated_at: at,
        completed_at: Some(at),
        ..t.commands[key]
    };
    TablesView { commands: t.commands.insert(key, command), ..t }
}

/// A command that was completed before `cutoff`.
pub open spec fn expired_command(command: CommandView, cutoff: int) -> bool {
    command.completed_at matches Some(at) && at < cutoff
}

pub open spec fn unexpired_commands(
    commands: Map<CommandKeyView, CommandView>,
    cutoff: int,
) -> Map<CommandKeyView, CommandView> {
    Map::new(
        |k: CommandKeyView| commands.dom().contains(k) && !expired_command(commands[k], cutoff),
        |k: CommandKeyView| commands[k],
    )
}

/// The tables without the commands that were completed before `cutoff`.
pub open spec fn after_prune(t: TablesView, cutoff: int) -> TablesView {
    TablesView { commands: unexpired_commands(t.commands, cutoff), ..t }
}

/// The instant before which completed commands are dropped: `seconds` before
/// `now`.
pub open spec fn prune_cutoff(now: int, seconds: int) -> int {
    now - seconds * 1_000_000_000
}

fn is_running(status: &str) -> (r: bool)
    ensures
        r == (status@ == "reserved"@ || status@ == "verifying"@ || status@ == "issuing"@),
{
    same_text(status, "reserved") || same_text(status, "verifying") || same_text(status, "issuing")
}

impl Tables {
    /// Drops the commands that were completed more than `receipt_ttl_seconds`
    /// before `now`.
    pub fn prune(&mut self, now: i128, receipt_ttl_seconds: u64)
        requires
            old(self).well_formed(),
            calendar_instant(now as int),
        ensures
            final(self).well_formed(),
            final(self)@ == after_prune(
                old(self)@,
                prune_cutoff(now as int, receipt_ttl_seconds as int),
            ),
    {
        let cutoff: i128 = now - receipt_ttl_seconds as i128 * 1_000_000_000;
        let ghost before = *self;
        let mut i: usize = 0;
        while i < self.commands.len()
            invariant
                i <= self.commands@.len(),
                distinct(self.commands@),
                self.accounts == before.accounts,
                self.credentials == before.credentials,
                self.limits == before.limits,
                unexpired_commands(table(self.commands@), cutoff as int) == unexpired_commands(
                    table(before.commands@),
                    cutoff as int,
                ),
                forall|k: int|
                    0 <= k < i ==> !expired_command(
                        (#[trigger] self.commands@[k]).row(),
                        cutoff as int,
                    ),
            decreases self.commands@.len() - i,
        {
            let expired = match self.commands[i].completed_at {
                Some(at) => at < cutoff,
                None => false,
            };
            let ghost rows = self.commands@;
            if expired {
                proof {
                    lemma_table_index(rows, i as int);
                    lemma_table_remove(rows, i as int);
                }
                self.commands.remove(i);
                assert(unexpired_commands(table(self.commands@), cutoff as int)
                    =~= unexpired_commands(table(rows), cutoff as int));
            } else {
                i += 1;
            }
        }
        proof {
            let rows = self.commands@;
            lemma_table_domain(rows);
            assert forall|k: CommandKeyView| table(rows).dom().contains(k) implies !expired_command(
                #[trigger] table(rows)[k],
                cutoff as int,
            ) by {
                let j = choose|j: int| 0 <= j < rows.len() && (#[trigger] rows[j]).key() == k;
                lemma_table_index(rows, j);
            }
            assert(unexpired_commands(table(rows), cutoff as int) =~= table(rows));
        }
    }

    /// Starts a command, unless one with the same key is known. A new command
    /// comes after the known ones.
    pub fn claim_command(&mut self, key: &CommandKey, intent_hash: &[u8], at: i128) -> (r: Result<
        CommandClaim,
        ServiceAccountPluginError,
    >)
        requires
            old(self).well_formed(),
        ensures
            final(self).well_formed(),
            final(self)@ == after_claim(old(self)@, key@, intent_hash@, at as int),
            old(self).commands@.is_prefix_of(final(self).commands@),
            match r {
                Ok(claim) => claim_outcome(old(self)@, key@, intent_hash@) == Some(claim@),
                Err(error) => {
                    &&& claim_outcome(old(self)@, key@, intent_hash@) is None
                    &&& error.says(missing_outcome(old(self)@.commands[key@]))
                },
            },
    {
        match self.find_command(key) {
            None => {
                let record = CommandRecord {
                    command: key.copy(),
                    intent_hash: copy_bytes(intent_hash),
                    status: "reserved".to_string(),
                    response_nonce: None,
                    response_ciphertext: None,
                    error_code: None,
                    updated_at: at,
                    completed_at: None,
                };
                proof {
                    lemma_table_push(self.commands@, record);
                }
                self.commands.push(record);
                Ok(CommandClaim::Claimed)
            },
            Some(i) => {
                let command: &CommandRecord = &self.commands[i];
                if !same_bytes(command.intent_hash.as_slice(), intent_hash) {
                    return Ok(CommandClaim::Conflict);
                }
                if same_text(command.status.as_str(), "completed_success") {
                    return match (&command.response_nonce, &command.response_ciphertext) {
                        (Some(nonce), Some(ciphertext)) => Ok(
                            CommandClaim::CompletedSuccess {
                                nonce: copy_bytes(nonce.as_slice()),
                                ciphertext: copy_bytes(ciphertext.as_slice()),
                            },
                        ),
                        _ => Err(
                            ServiceAccountPluginError::Invariant(
                                "completed service-account command has no receipt",
                            ),
                        ),
                    };
                }
                if same_text(command.status.as_str(), "completed_error") {
                    return match &command.error_code {
                        Some(code) => Ok(CommandClaim::CompletedError(code.clone())),
                        None => Err(
                            ServiceAccountPluginError::Invariant(
                                "failed service-account command has no error code",
                            ),
                        ),
                    };
                }
                Ok(CommandClaim::InProgress)
            },
        }
    }

    fn find_running(&self, key: &CommandKey) -> (r: Option<usize>)
        requires
            distinct(self.commands@),
        ensures
            match r {
                Some(i) => {
                    &&& i < self.commands@.len()
                    &&& self.commands@[i as int].key() == key@
                    &&& self@.commands[key@] == self.commands@[i as int].row()
                    &&& completable(self@, key@)
                },
                None => !completable(self@, key@),
            },
    {
        match self.find_command(key) {
            Some(i) => if is_running(self.commands[i].status.as_str()) {
                Some(i)
            } else {
                None
            },
            None => None,
        }
    }

    /// Completes a running command with its encrypted receipt.
    pub fn complete_success(
        &mut self,
        key: &CommandKey,
        nonce: Vec<u8>,
        ciphertext: Vec<u8>,
        at: i128,
    ) -> (r: Result<(), ServiceAccountPluginError>)
        requires
            old(self).well_formed(),
        ensures
            final(self).well_formed(),
            r is Ok == completable(old(self)@, key@),
            r is Ok ==> final(self)@ == after_success(
                old(self)@,
                key@,
                nonce@,
                ciphertext@,
                at as int,
            ),
            final(self).commands@.len() == old(self).commands@.len(),
            continues(final(self).commands@, old(self).commands@),
            final(self).accounts == old(self).accounts,
            final(self).credentials == old(self).credentials,
            final(self).limits == old(self).limits,
            r matches Err(error) ==> error.says("service-account command was not completable"@)
                && *final(self) == *old(self),
    {
        match self.find_running(key) {
            Some(i) => {
                let ghost rows = self.commands@;
                self.commands[i].status = "completed_success".to_string();
                self.commands[i].response_nonce = Some(nonce);
                self.commands[i].response_ciphertext = Some(ciphertext);
                self.commands[i].completed_at = Some(at);
                self.commands[i].updated_at = at;
                proof {
                    lemma_table_update(rows, i as int, self.commands@[i as int]);
                    assert(self.commands@ =~= rows.update(i as int, self.commands@[i as int]));
                }
                Ok(())
            },
            None => Err(
                ServiceAccountPluginError::Invariant("service-account command was not completable"),
            ),
        }
    }

    /// Completes a running command with an error code.
    pub fn complete_error(&mut self, key: &CommandKey, error_code: &str, at: i128) -> (r: Result<
        (),
        ServiceAccountPluginError,
    >)
        requires
            old(self).well_formed(),
        ensures
            final(self).well_formed(),
            r is Ok == completable(old(self)@, key@),
            r is Ok ==> final(self)@ == after_error(old(self)@, key@, error_code@, at as int),
            final(self).commands@.len() == old(self).commands@.len(),
            continues(final(self).commands@, old(self).commands@),
            final(self).accounts == old(self).accounts,
            final(self).credentials == old(self).credentials,
            final(self).limits == old(self).limits,
            r matches Err(error) ==> error.says("service-account command error was not completable"@)
                && *final(self) == *old(self),
    {
        match self.find_running(key) {
            Some(i) => {
                let ghost rows = self.commands@;
                self.commands[i].status = "completed_error".to_string();
                self.commands[i].error_code = Some(error_code.to_string());
                self.commands[i].completed_at = Some(at);
                self.commands[i].updated_at = at;
                proof {
                    lemma_table_update(rows, i as int, self.commands@[i as int]);
                    assert(self.commands@ =~= rows.update(i as int, self.commands@[i as int]));
                }
                Ok(())
            },
            None => Err(
                ServiceAccountPluginError::Invariant(
                    "service-account command error was not completable",
                ),
            ),
        }
    }
}

/// `credential_id` is a credential of `service_account_id`.
pub open spec fn owned_credential(
    t: TablesView,
    credential_id: Seq<char>,
    service_account_id: Seq<char>,
) -> bool {
    &&& t.credentials.dom().contains(credential_id)
    &&& t.credentials[credential_id].service_account_id == service_account_id
}

/// Credential `a` is younger than credential `b`, or as old with the greater
/// identifier.
pub open spec fn younger(t: TablesView, a: Seq<char>, b: Seq<char>) -> bool {
    ||| t.credentials[a].created_at > t.credentials[b].created_at
    ||| t.credentials[a].created_at == t.credentials[b].created_at && text_before(b, a)
}

/// `credential_id` is the latest credential of `service_account_id`.
pub open spec fn is_latest_credential(
    t: TablesView,
    credential_id: Seq<char>,
    service_account_id: Seq<char>,
) -> bool {
    &&& owned_credential(t, credential_id, service_account_id)
    &&& forall|other: Seq<char>| #[trigger]
        owned_credential(t, other, service_account_id) && other != credential_id ==> younger(
            t,
            credential_id,
            other,
        )
}

/// When the latest credential of an account expires.
pub open spec fn latest_expiry(t: TablesView, service_account_id: Seq<char>) -> Option<int> {
    if exists|c: Seq<char>| is_latest_credential(t, c, service_account_id) {
        let latest = choose|c: Seq<char>| is_latest_credential(t, c, service_account_id);
        Some(t.credentials[latest].valid_until)
    } else {
        None
    }
}

/// An account as queried.
pub open spec fn account_row(t: TablesView, service_account_id: Seq<char>) -> AccountRowView {
    let account = t.accounts[service_account_id];
    AccountRowView {
        service_account_id,
        organization_id: account.organization_id,
        subject: account.subject,
        name: account.name,
        status: account.status,
        revision: account.revision,
        created_at: account.created_at,
        rotated_at: account.rotated_at,
        revoked_at: account.revoked_at,
        credential_expires_at: latest_expiry(t, service_account_id),
    }
}

/// `service_account_id` is an account of `organization_id`.
pub open spec fn organization_account(
    t: TablesView,
    organization_id: Seq<char>,
    service_account_id: Seq<char>,
) -> bool {
    &&& t.accounts.dom().contains(service_account_id)
    &&& t.accounts[service_account_id].organization_id == organization_id
}

/// An account of the organization that follows `after`.
pub open spec fn listable(
    t: TablesView,
    organization_id: Seq<char>,
    after: Option<Seq<char>>,
    service_account_id: Seq<char>,
) -> bool {
    &&& organization_account(t, organization_id, service_account_id)
    &&& match after {
        Some(cursor) => text_before(cursor, service_account_id),
        None => true,
    }
}

/// `ids` are the first `limit` accounts of the organization that follow
/// `after`, in order.
pub open spec fn is_page(
    t: TablesView,
    organization_id: Seq<char>,
    after: Option<Seq<char>>,
    limit: nat,
    ids: Seq<Seq<char>>,
) -> bool {
    &&& ids.len() <= limit
    &&& forall|i: int|
        0 <= i < ids.len() ==> listable(t, organization_id, after, #[trigger] ids[i])
    &&& forall|i: int, j: int|
        0 <= i < j < ids.len() ==> text_before(#[trigger] ids[i], #[trigger] ids[j])
    &&& forall|id: Seq<char>| #[trigger]
        listable(t, organization_id, after, id) && !ids.contains(id) ==> {
            &&& ids.len() == limit
            &&& forall|i: int| 0 <= i < ids.len() ==> text_before(#[trigger] ids[i], id)
        }
}

pub open spec fn row_ids(rows: Seq<AccountRow>) -> Seq<Seq<char>> {
    Seq::new(rows.len(), |i: int| rows[i].service_account_id@)
}

/// A credential as queried, if it and its account exist.
pub open spec fn credential_row(t: TablesView, credential_id: Seq<char>) -> Option<
    CredentialRowView,
> {
    if t.credentials.dom().contains(credential_id) && t.accounts.dom().contains(
        t.credentials[credential_id].service_account_id,
    ) {
        let credential = t.credentials[credential_id];
        let account = t.accounts[credential.service_account_id];
        Some(
            CredentialRowView {
                credential_id,
                service_account_id: credential.service_account_id,
                organization_id: account.organization_id,
                subject: account.subject,
                account_status: account.status,
                verifier: credential.verifier,
                valid_from: credential.valid_from,
                valid_until: credential.valid_until,
                revoked_at: credential.revoked_at,
            },
        )
    } else {
        None
    }
}

proof fn lemma_younger_transitive(t: TablesView, a: Seq<char>, b: Seq<char>, c: Seq<char>)
    requires
        younger(t, a, b),
        younger(t, b, c),
    ensures
        younger(t, a, c),
{
    if t.credentials[a].created_at == t.credentials[b].created_at && t.credentials[b].created_at
        == t.credentials[c].created_at {
        text_before_transitive(c, b, a);
    }
}

proof fn lemma_latest_unique(t: TablesView, service_account_id: Seq<char>, latest: Seq<char>)
    requires
        is_latest_credential(t, latest, service_account_id),
    ensures
        latest_expiry(t, service_account_id) == Some(t.credentials[latest].valid_until),
{
    let chosen = choose|c: Seq<char>| is_latest_credential(t, c, service_account_id);
    if chosen != latest {
        assert(younger(t, chosen, latest));
        assert(younger(t, latest, chosen));
        lemma_younger_transitive(t, chosen, latest, chosen);
        text_before_irreflexive(chosen);
    }
}

impl Tables {
    /// When the latest credential of an account expires.
    fn expiry_of(&self, service_account_id: &str) -> (r: Option<i128>)
        requires
            distinct(self.credentials@),
        ensures
            crate::instant::instant_view(r) == latest_expiry(self@, service_account_id@),
    {
        let mut best: Option<usize> = None;
        let mut i: usize = 0;
        let ghost rows = self.credentials@;
        while i < self.credentials.len()
            invariant
                i <= self.credentials@.len(),
                rows == self.credentials@,
                distinct(rows),
                match best {
                    None => forall|k: int|
                        0 <= k < i ==> (#[trigger] rows[k]).service_account_id@
                            != service_account_id@,
                    Some(b) => {
                        &&& b < i
                        &&& rows[b as int].service_account_id@ == service_account_id@
                        &&& forall|k: int|
                            0 <= k < i && k != b && (#[trigger] rows[k]).service_account_id@
                                == service_account_id@ ==> younger(
                                self@,
                                rows[b as int].key(),
                                rows[k].key(),
                            )
                    },
                },
            decreases self.credentials@.len() - i,
        {
            if same_text(self.credentials[i].service_account_id.as_str(), service_account_id) {
                proof {
                    lemma_table_index(rows, i as int);
                }
                match best {
                    None => {
                        best = Some(i);
                    },
                    Some(b) => {
                        let candidate: &CredentialRecord = &self.credentials[i];
                        let current: &CredentialRecord = &self.credentials[b];
                        let newer = candidate.created_at > current.created_at || (
                        candidate.created_at == current.created_at && precedes(
                            current.credential_id.as_str(),
                            candidate.credential_id.as_str(),
                        ));
                        proof {
                            lemma_table_index(rows, b as int);
                            assert(rows[b as int].key() != rows[i as int].key());
                            text_before_total(rows[b as int].key(), rows[i as int].key());
                            if newer {
                                assert(younger(self@, rows[i as int].key(), rows[b as int].key()));
                                assert forall|k: int|
                                    0 <= k < i && k != b && (#[trigger] rows[k]).service_account_id@
                                        == service_account_id@ implies younger(
                                    self@,
                                    rows[i as int].key(),
                                    rows[k].key(),
                                ) by {
                                    lemma_younger_transitive(
                                        self@,
                                        rows[i as int].key(),
                                        rows[b as int].key(),
                                        rows[k].key(),
                                    );
                                }
                            } else {
                                assert(younger(self@, rows[b as int].key(), rows[i as int].key()));
                            }
                        }
                        if newer {
                            best = Some(i);
                        }
                    },
                }
            }
            i += 1;
        }
        proof {
            lemma_table_domain(rows);
        }
        match best {
            None => {
                proof {
                    assert forall|c: Seq<char>| !is_latest_credential(
                        self@,
                        c,
                        service_account_id@,
                    ) by {
                        if owned_credential(self@, c, service_account_id@) {
                            let k = choose|k: int|
                                0 <= k < rows.len() && (#[trigger] rows[k]).key() == c;
                            lemma_table_index(rows, k);
                        }
                    }
                }
                None
            },
            Some(b) => {
                proof {
                    lemma_table_index(rows, b as int);
                    let latest = rows[b as int].key();
                    assert forall|other: Seq<char>| #[trigger]
                        owned_credential(self@, other, service_account_id@) && other
                            != latest implies younger(self@, latest, other) by {
                        let k = choose|k: int|
                            0 <= k < rows.len() && (#[trigger] rows[k]).key() == other;
                        lemma_table_index(rows, k);
                    }
                    lemma_latest_unique(self@, service_account_id@, latest);
                }
                Some(self.credentials[b].valid_until)
            },
        }
    }

    fn row_at(&self, i: usize) -> (r: AccountRow)
        requires
            distinct(self.accounts@),
            distinct(self.credentials@),
            i < self.accounts@.len(),
        ensures
            r@ == account_row(self@, self.accounts@[i as int].key()),
            r.service_account_id@ == self.accounts@[i as int].key(),
    {
        proof {
            lemma_table_index(self.accounts@, i as int);
        }
        let account: &AccountRecord = &self.accounts[i];
        AccountRow {
            service_account_id: account.service_account_id.clone(),
            organization_id: account.organization_id.clone(),
            subject: account.subject.clone(),
            name: account.name.clone(),
            status: account.status.clone(),
            revision: account.revision,
            created_at: account.created_at,
            rotated_at: account.rotated_at,
            revoked_at: account.revoked_at,
            credential_expires_at: self.expiry_of(account.service_account_id.as_str()),
        }
    }

    /// The account, if the organization has it.
    pub fn load_account(&self, organization_id: &str, service_account_id: &str) -> (r: Option<
        AccountRow,
    >)
        requires
            self.well_formed(),
        ensures
            match r {
                Some(row) => {
                    &&& organization_account(self@, organization_id@, service_account_id@)
                    &&& row@ == account_row(self@, service_account_id@)
                },
                None => !organization_account(self@, organization_id@, service_account_id@),
            },
    {
        match self.find_account(service_account_id) {
            Some(i) => if same_text(self.accounts[i].organization_id.as_str(), organization_id) {
                Some(self.row_at(i))
            } else {
                None
            },
            None => None,
        }
    }

    /// The first account of the organization after `cursor`.
    fn next_account(&self, organization_id: &str, cursor: Option<&str>) -> (r: Option<usize>)
        requires
            distinct(self.accounts@),
        ensures
            match r {
                Some(i) => {
                    &&& i < self.accounts@.len()
                    &&& listable(
                        self@,
                        organization_id@,
                        cursor.deep_view(),
                        self.accounts@[i as int].key(),
                    )
                    &&& forall|id: Seq<char>| #[trigger]
                        listable(self@, organization_id@, cursor.deep_view(), id) && id
                            != self.accounts@[i as int].key() ==> text_before(
                            self.accounts@[i as int].key(),
                            id,
                        )
                },
                None => forall|id: Seq<char>|
                    !#[trigger] listable(self@, organization_id@, cursor.deep_view(), id),
            },
    {
        let mut best: Option<usize> = None;
        let mut i: usize = 0;
        let ghost rows = self.accounts@;
        let ghost view = self@;
        let ghost from = cursor.deep_view();
        while i < self.accounts.len()
            invariant
                i <= self.accounts@.len(),
                rows == self.accounts@,
                view == self@,
                from == cursor.deep_view(),
                distinct(rows),
                match best {
                    None => forall|k: int|
                        0 <= k < i ==> !listable(
                            view,
                            organization_id@,
                            from,
                            (#[trigger] rows[k]).key(),
                        ),
                    Some(b) => {
                        &&& b < i
                        &&& listable(view, organization_id@, from, rows[b as int].key())
                        &&& forall|k: int|
                            0 <= k < i && k != b && listable(
                                view,
                                organization_id@,
                                from,
                                (#[trigger] rows[k]).key(),
                            ) ==> text_before(rows[b as int].key(), rows[k].key())
                    },
                },
            decreases self.accounts@.len() - i,
        {
            proof {
                lemma_table_index(rows, i as int);
            }
            let account: &AccountRecord = &self.accounts[i];
            let follows = match cursor {
                Some(cursor) => precedes(cursor, account.service_account_id.as_str()),
                None => true,
            };
            if follows && same_text(account.organization_id.as_str(), organization_id) {
                match best {
                    None => {
                        best = Some(i);
                    },
                    Some(b) => {
                        let smaller = precedes(
                            account.service_account_id.as_str(),
                            self.accounts[b].service_account_id.as_str(),
                        );
                        proof {
                            assert(rows[b as int].key() != rows[i as int].key());
                            text_before_total(rows[b as int].key(), rows[i as int].key());
                            if smaller {
                                assert forall|k: int|
                                    0 <= k < i && k != b && listable(
                                        view,
                                        organization_id@,
                                        from,
                                        (#[trigger] rows[k]).key(),
                                    ) implies text_before(rows[i as int].key(), rows[k].key()) by {
                                    text_before_transitive(
                                        rows[i as int].key(),
                                        rows[b as int].key(),
                                        rows[k].key(),
                                    );
                                }
                            }
                        }
                        if smaller {
                            best = Some(i);
                        }
                    },
                }
            }
            i += 1;
        }
        proof {
            lemma_table_domain(rows);
            assert forall|id: Seq<char>| #[trigger]
                listable(view, organization_id@, from, id) implies holds(rows, id) by {}
        }
        best
    }

    /// The first `limit` accounts of the organization that follow `after`.
    pub fn list_accounts(&self, organization_id: &str, after: Option<&str>, limit: usize) -> (r:
        Vec<AccountRow>)
        requires
            self.well_formed(),
        ensures
            is_page(self@, organization_id@, after.deep_view(), limit as nat, row_ids(r@)),
            forall|i: int|
                0 <= i < r@.len() ==> (#[trigger] r@[i])@ == account_row(
                    self@,
                    r@[i].service_account_id@,
                ),
    {
        let mut rows: Vec<AccountRow> = Vec::new();
        let ghost view = self@;
        let ghost from = after.deep_view();
        while rows.len() < limit
            invariant_except_break
                self.well_formed(),
                view == self@,
                from == after.deep_view(),
                rows@.len() <= limit,
                forall|i: int|
                    0 <= i < rows@.len() ==> (#[trigger] rows@[i])@ == account_row(
                        view,
                        rows@[i].service_account_id@,
                    ),
                is_page(view, organization_id@, from, rows@.len(), row_ids(rows@)),
            ensures
                forall|i: int|
                    0 <= i < rows@.len() ==> (#[trigger] rows@[i])@ == account_row(
                        view,
                        rows@[i].service_account_id@,
                    ),
                is_page(view, organization_id@, from, limit as nat, row_ids(rows@)),
            decreases limit - rows@.len(),
        {
            let ghost ids = row_ids(rows@);
            let cursor: Option<&str> = if rows.len() == 0 {
                after
            } else {
                Some(rows[rows.len() - 1].service_account_id.as_str())
            };
            let ghost at = cursor.deep_view();
            proof {
                // What follows the last row found so far is what is still missing.
                assert forall|id: Seq<char>| #[trigger]
                    listable(view, organization_id@, at, id) <==> listable(
                        view,
                        organization_id@,
                        from,
                        id,
                    ) && !ids.contains(id) by {
                    if ids.len() > 0 {
                        let last = ids[ids.len() - 1];
                        assert(listable(view, organization_id@, from, last));
                        if listable(view, organization_id@, at, id) {
                            if from is Some {
                                text_before_transitive(from.unwrap(), last, id);
                            }
                            if ids.contains(id) {
                                let k = ids.index_of(id);
                                if k < ids.len() - 1 {
                                    assert(text_before(ids[k], last));
                                    text_before_transitive(id, last, id);
                                }
                                text_before_irreflexive(id);
                            }
                        }
                    }
                }
            }
            match self.next_account(organization_id, cursor) {
                None => {
                    proof {
                        assert forall|id: Seq<char>| #[trigger]
                            listable(view, organization_id@, from, id) implies ids.contains(id) by {
                            assert(!listable(view, organization_id@, at, id));
                        }
                    }
                    break;
                },
                Some(i) => {
                    let row: AccountRow = self.row_at(i);
                    rows.push(row);
                    proof {
                        let id = self.accounts@[i as int].key();
                        assert(row_ids(rows@) =~= ids.push(id));
                        assert(listable(view, organization_id@, from, id) && !ids.contains(id));
                        let more = ids.push(id);
                        assert forall|other: Seq<char>| #[trigger]
                            listable(view, organization_id@, from, other) && !more.contains(
                                other,
                            ) implies {
                            forall|k: int| 0 <= k < more.len() ==> text_before(#[trigger] more[k], other)
                        } by {
                            assert(more[ids.len() as int] == id);
                            if ids.contains(other) {
                                let k = ids.index_of(other);
                                assert(more[k] == other);
                            }
                            assert(listable(view, organization_id@, at, other));
                        }
                    }
                },
            }
        }
        rows
    }

    /// The credential with its account, if both exist.
    pub fn load_credential(&self, credential_id: &str) -> (r: Option<CredentialRow>)
        requires
            self.well_formed(),
        ensures
            match r {
                Some(row) => credential_row(self@, credential_id@) == Some(row@),
                None => credential_row(self@, credential_id@) is None,
            },
    {
        match self.find_credential(credential_id) {
            None => None,
            Some(i) => {
                let credential: &CredentialRecord = &self.credentials[i];
                match self.find_account(credential.service_account_id.as_str()) {
                    None => None,
                    Some(j) => {
                        let account: &AccountRecord = &self.accounts[j];
                        Some(
                            CredentialRow {
                                credential_id: credential.credential_id.clone(),
                                service_account_id: credential.service_account_id.clone(),
                                organization_id: account.organization_id.clone(),
                                subject: account.subject.clone(),
                                account_status: account.status.clone(),
                                verifier: credential.verifier.clone(),
                                valid_from: credential.valid_from,
                                valid_until: credential.valid_until,
                                revoked_at: credential.revoked_at,
                            },
                        )
                    },
                }
            },
        }
    }
}

/// The account is active, and the credential is its own, not revoked and valid
/// at `at`.
pub open spec fn usable_credential(
    t: TablesView,
    credential_id: Seq<char>,
    service_account_id: Seq<char>,
    at: int,
) -> bool {
    &&& t.accounts.dom().contains(service_account_id)
    &&& t.accounts[service_account_id].status == "active"@
    &&& owned_credential(t, credential_id, service_account_id)
    &&& t.credentials[credential_id].revoked_at is None
    &&& t.credentials[credential_id].valid_from <= at < t.credentials[credential_id].valid_until
}

/// The key of an exchange command.
pub open spec fn exchange_key(caller: Seq<char>, idempotency_key: Seq<char>) -> CommandKeyView {
    CommandKeyView { caller, operation: EXCHANGE_SECRET_OPERATION@, idempotency_key }
}

/// The command was started and nothing more.
pub open spec fn merely_reserved(t: TablesView, key: CommandKeyView) -> bool {
    t.commands.dom().contains(key) && t.commands[key].status == "reserved"@
}

/// The tables after an exchange was admitted: the use is noted, and the command
/// is `issuing`.
pub open spec fn after_admission(
    t: TablesView,
    key: CommandKeyView,
    credential_id: Seq<char>,
    at: int,
) -> TablesView {
    let credential = CredentialView { last_used_at: Some(at), ..t.credentials[credential_id] };
    let command = CommandView { status: "issuing"@, updated_at: at, ..t.commands[key] };
    TablesView {
        credentials: t.credentials.insert(credential_id, credential),
        commands: t.commands.insert(key, command),
        ..t
    }
}

/// Whether a caller may try an exchange now, and the caller's limit afterwards.
pub open spec fn rate_decision(
    limit: Option<LimitView>,
    now: int,
    window_seconds: int,
    max_attempts: int,
    lockout_seconds: int,
) -> (bool, LimitView) {
    let limit = match limit {
        Some(limit) => limit,
        None => LimitView {
            window_started_at: stored_instant(now),
            attempts: 0,
            locked_until: None,
        },
    };
    let over = now >= after_seconds(limit.window_started_at, window_seconds);
    let started = if over {
        now
    } else {
        limit.window_started_at
    };
    let attempts = if over {
        0
    } else {
        limit.attempts
    };
    if limit.locked_until is Some && now < limit.locked_until.unwrap() {
        (false, limit)
    } else if attempts >= max_attempts {
        (
            false,
            LimitView {
                window_started_at: stored_instant(started),
                locked_until: Some(stored_instant(after_seconds(now, lockout_seconds))),
                ..limit
            },
        )
    } else {
        (
            true,
            LimitView {
                window_started_at: stored_instant(started),
                attempts: attempts + 1,
                locked_until: None,
            },
        )
    }
}

/// The limit that is stored for a caller.
pub open spec fn limit_of(t: TablesView, caller: Seq<char>) -> Option<LimitView> {
    if t.limits.dom().contains(caller) {
        Some(t.limits[caller])
    } else {
        None
    }
}

impl Tables {
    /// Admits an exchange: rechecks account, credential and command, notes the
    /// use and marks the command `issuing`. Nothing happens if a check fails.
    pub fn mark_exchange_issuing(
        &mut self,
        caller: &str,
        idempotency_key: &str,
        credential_id: &str,
        service_account_id: &str,
        now: i128,
    ) -> (r: Option<CredentialRow>)
        requires
            old(self).well_formed(),
        ensures
            final(self).well_formed(),
            ({
                let at = stored_instant(now as int);
                let key = exchange_key(caller@, idempotency_key@);
                let admitted = usable_credential(
                    old(self)@,
                    credential_id@,
                    service_account_id@,
                    at,
                ) && merely_reserved(old(self)@, key);
                match r {
                    Some(row) => {
                        &&& admitted
                        &&& credential_row(old(self)@, credential_id@) == Some(row@)
                        &&& final(self)@ == after_admission(old(self)@, key, credential_id@, at)
                    },
                    None => !admitted && *final(self) == *old(self),
                }
            }),
    {
        let at: i128 = to_stored(now);
        match self.find_account(service_account_id) {
            None => {
                return None;
            },
            Some(i) => {
                if !same_text(self.accounts[i].status.as_str(), "active") {
                    return None;
                }
            },
        }
        let i: usize = match self.find_credential(credential_id) {
            None => {
                return None;
            },
            Some(i) => i,
        };
        if !same_text(self.credentials[i].service_account_id.as_str(), service_account_id)
            || self.credentials[i].revoked_at.is_some() || self.credentials[i].valid_from > at
            || self.credentials[i].valid_until <= at {
            return None;
        }
        let key = CommandKey {
            caller: caller.to_string(),
            operation: EXCHANGE_SECRET_OPERATION.to_string(),
            idempotency_key: idempotency_key.to_string(),
        };
        let j: usize = match self.find_command(&key) {
            None => {
                return None;
            },
            Some(j) => j,
        };
        if !same_text(self.commands[j].status.as_str(), "reserved") {
            return None;
        }
        let row: Option<CredentialRow> = self.load_credential(credential_id);
        let ghost credentials = self.credentials@;
        let ghost commands = self.commands@;
        self.credentials[i].last_used_at = Some(at);
        self.commands[j].status = "issuing".to_string();
        self.commands[j].updated_at = at;
        proof {
            lemma_table_update(credentials, i as int, self.credentials@[i as int]);
            assert(self.credentials@ =~= credentials.update(i as int, self.credentials@[i as int]));
            lemma_table_update(commands, j as int, self.commands@[j as int]);
            assert(self.commands@ =~= commands.update(j as int, self.commands@[j as int]));
        }
        row
    }

    /// Counts an exchange attempt of `caller` against its window; past the
    /// window's limit the caller is locked out.
    pub fn reserve_rate_slot(
        &mut self,
        caller: &str,
        now: i128,
        window_seconds: u64,
        max_attempts: u32,
        lockout_seconds: u64,
    ) -> (admitted: bool)
        requires
            old(self).well_formed(),
            calendar_instant(now as int),
        ensures
            final(self).well_formed(),
            ({
                let decision = rate_decision(
                    limit_of(old(self)@, caller@),
                    now as int,
                    window_seconds as int,
                    max_attempts as int,
                    lockout_seconds as int,
                );
                &&& admitted == decision.0
                &&& final(self)@ == (TablesView {
                    limits: old(self)@.limits.insert(caller@, decision.1),
                    ..old(self)@
                })
            }),
    {
        let i: usize = match self.find_limit(caller) {
            Some(i) => i,
            None => {
                let record = LimitRecord {
                    caller_instance: caller.to_string(),
                    window_started_at: to_stored(now),
                    attempts: 0,
                    locked_until: None,
                };
                let ghost rows = self.limits@;
                proof {
                    lemma_table_push(rows, record);
                }
                self.limits.push(record);
                proof {
                    assert forall|k: int| 0 <= k < self.limits@.len() implies calendar_instant(
                        (#[trigger] self.limits@[k]).window_started_at as int,
                    ) by {
                        if k < rows.len() {
                            assert(self.limits@[k] == rows[k]);
                        }
                    }
                }
                self.limits.len() - 1
            },
        };
        let ghost rows = self.limits@;
        proof {
            lemma_table_index(rows, i as int);
            assert(table(rows) =~= old(self)@.limits.insert(caller@, rows[i as int].row()));
            assert(calendar_instant(rows[i as int].window_started_at as int));
        }
        match self.limits[i].locked_until {
            Some(until) => {
                if now < until {
                    return false;
                }
            },
            None => {},
        }
        let mut started: i128 = self.limits[i].window_started_at;
        let mut attempts: i64 = self.limits[i].attempts;
        if now >= later(started, window_seconds) {
            started = now;
            attempts = 0;
        }
        let admitted: bool = attempts < max_attempts as i64;
        self.limits[i].window_started_at = to_stored(started);
        if admitted {
            self.limits[i].attempts = attempts + 1;
            self.limits[i].locked_until = None;
        } else {
            self.limits[i].locked_until = Some(to_stored(later(now, lockout_seconds)));
        }
        proof {
            lemma_table_update(rows, i as int, self.limits@[i as int]);
            assert(self.limits@ =~= rows.update(i as int, self.limits@[i as int]));
            assert(self@.limits =~= old(self)@.limits.insert(
                caller@,
                self.limits@[i as int].row(),
            ));
            assert forall|k: int| 0 <= k < self.limits@.len() implies calendar_instant(
                (#[trigger] self.limits@[k]).window_started_at as int,
            ) by {
                if k != i {
                    assert(self.limits@[k] == rows[k]);
                }
            }
        }
        admitted
    }
}

/// The constraint that keeps account identifiers unique.
pub const ACCOUNT_ID_UNIQUE: &'static str = "service_accounts_pkey";

/// The constraint that keeps names unique inside an organization.
pub const ORGANIZATION_NAME_UNIQUE: &'static str = "service_accounts_organization_name_unique";

/// The constraint that keeps Directory subjects unique.
pub const SUBJECT_UNIQUE: &'static str = "service_accounts_subject_unique";

/// The constraint that keeps credential identifiers unique.
pub const CREDENTIAL_ID_UNIQUE: &'static str = "service_account_credentials_pkey";

/// Why a transaction was rolled back.
pub enum StoreError {
    /// A row would break the named unique constraint.
    Unique(String),
    Plugin(ServiceAccountPluginError),
}

/// An account to be created, with its first credential.
pub struct NewAccount {
    pub service_account_id: String,
    pub organization_id: String,
    pub subject: String,
    pub name: String,
    pub name_key: String,
    pub credential_id: String,
    pub verifier: String,
    pub valid_from: i128,
    pub valid_until: i128,
}

/// What stands in the way of a change, if anything.
pub enum Obstacle {
    LimitReached,
    NotFound,
    Revoked,
    RevisionConflict,
    /// A unique constraint.
    Taken(Seq<char>),
    /// The revision has reached its greatest value.
    Exhausted,
}

/// The accounts of an organization.
pub open spec fn organization_accounts(t: TablesView, organization_id: Seq<char>) -> Set<
    Seq<char>,
> {
    t.accounts.dom().filter(|id: Seq<char>| t.accounts[id].organization_id == organization_id)
}

/// Some account of the organization has the name key.
pub open spec fn name_taken(t: TablesView, organization_id: Seq<char>, name_key: Seq<char>) -> bool {
    exists|id: Seq<char>| #[trigger]
        organization_account(t, organization_id, id) && t.accounts[id].name_key == name_key
}

/// Some account has the subject.
pub open spec fn subject_taken(t: TablesView, subject: Seq<char>) -> bool {
    exists|id: Seq<char>| #[trigger]
        t.accounts.dom().contains(id) && t.accounts[id].subject == subject
}

/// What stands in the way of a new account.
pub open spec fn creation_obstacle(t: TablesView, a: NewAccount, max_accounts: int) -> Option<
    Obstacle,
> {
    if organization_accounts(t, a.organization_id@).len() >= max_accounts {
        Some(Obstacle::LimitReached)
    } else if t.accounts.dom().contains(a.service_account_id@) {
        Some(Obstacle::Taken(ACCOUNT_ID_UNIQUE@))
    } else if name_taken(t, a.organization_id@, a.name_key@) {
        Some(Obstacle::Taken(ORGANIZATION_NAME_UNIQUE@))
    } else if subject_taken(t, a.subject@) {
        Some(Obstacle::Taken(SUBJECT_UNIQUE@))
    } else if t.credentials.dom().contains(a.credential_id@) {
        Some(Obstacle::Taken(CREDENTIAL_ID_UNIQUE@))
    } else {
        None
    }
}

/// A credential that has just been stored.
pub open spec fn fresh_credential(
    service_account_id: Seq<char>,
    verifier: Seq<char>,
    valid_from: int,
    valid_until: int,
    at: int,
) -> CredentialView {
    CredentialView {
        service_account_id,
        verifier,
        valid_from: stored_instant(valid_from),
        valid_until: stored_instant(valid_until),
        created_at: at,
        superseded_at: None,
        revoked_at: None,
        last_used_at: None,
    }
}

/// The tables with a new account and its first credential.
pub open spec fn after_creation(t: TablesView, a: NewAccount, at: int) -> TablesView {
    let account = AccountView {
        organization_id: a.organization_id@,
        subject: a.subject@,
        name: a.name@,
        name_key: a.name_key@,
        status: "active"@,
        revision: 1,
        created_at: at,
        updated_at: at,
        rotated_at: None,
        revoked_at: None,
    };
    let credential = fresh_credential(
        a.service_account_id@,
        a.verifier@,
        a.valid_from as int,
        a.valid_until as int,
        at,
    );
    TablesView {
        accounts: t.accounts.insert(a.service_account_id@, account),
        credentials: t.credentials.insert(a.credential_id@, credential),
        ..t
    }
}

/// A new secret for an account, if the account is still at the expected
/// revision.
pub struct Rotation {
    pub organization_id: String,
    pub service_account_id: String,
    pub expected_revision: i64,
    pub credential_id: String,
    pub verifier: String,
    pub valid_from: i128,
    pub overlap_until: i128,
    pub valid_until: i128,
}

/// What stands in the way of a rotation.
pub open spec fn rotation_obstacle(t: TablesView, r: Rotation) -> Option<Obstacle> {
    let account = t.accounts[r.service_account_id@];
    if !organization_account(t, r.organization_id@, r.service_account_id@) {
        Some(Obstacle::NotFound)
    } else if account.status == "revoked"@ {
        Some(Obstacle::Revoked)
    } else if account.revision != r.expected_revision {
        Some(Obstacle::RevisionConflict)
    } else if t.credentials.dom().contains(r.credential_id@) {
        Some(Obstacle::Taken(CREDENTIAL_ID_UNIQUE@))
    } else if account.revision == i64::MAX {
        Some(Obstacle::Exhausted)
    } else {
        None
    }
}

/// A credential after its account got a new one at `at`: a live credential of
/// that account ends at `until` at the latest.
pub open spec fn superseded_credential(
    credential: CredentialView,
    service_account_id: Seq<char>,
    at: int,
    until: int,
) -> CredentialView {
    if credential.service_account_id == service_account_id && credential.revoked_at is None
        && credential.valid_until > at {
        CredentialView {
            valid_until: if credential.valid_until <= until {
                credential.valid_until
            } else {
                until
            },
            superseded_at: match credential.superseded_at {
                Some(earlier) => Some(earlier),
                None => Some(at),
            },
            ..credential
        }
    } else {
        credential
    }
}

pub open spec fn superseded_credentials(
    credentials: Map<Seq<char>, CredentialView>,
    service_account_id: Seq<char>,
    at: int,
    until: int,
) -> Map<Seq<char>, CredentialView> {
    Map::new(
        |k: Seq<char>| credentials.dom().contains(k),
        |k: Seq<char>| superseded_credential(credentials[k], service_account_id, at, until),
    )
}

/// The tables after a rotation.
pub open spec fn after_rotation(t: TablesView, r: Rotation, at: int) -> TablesView {
    let id = r.service_account_id@;
    let from = stored_instant(r.valid_from as int);
    let account = AccountView {
        revision: t.accounts[id].revision + 1,
        rotated_at: Some(from),
        updated_at: from,
        ..t.accounts[id]
    };
    TablesView {
        accounts: t.accounts.insert(id, account),
        credentials: superseded_credentials(
            t.credentials,
            id,
            from,
            stored_instant(r.overlap_until as int),
        ).insert(
            r.credential_id@,
            fresh_credential(id, r.verifier@, r.valid_from as int, r.valid_until as int, at),
        ),
        ..t
    }
}

/// A request to revoke an account, if it is still at the expected revision.
pub struct Revocation {
    pub organization_id: String,
    pub service_account_id: String,
    pub expected_revision: i64,
}

/// The account is not revoked yet.
pub open spec fn revocable(t: TablesView, service_account_id: Seq<char>) -> bool {
    t.accounts[service_account_id].status != "revoked"@
}

/// What stands in the way of a revocation. A revoked account is no obstacle.
pub open spec fn revocation_obstacle(t: TablesView, r: Revocation) -> Option<Obstacle> {
    let account = t.accounts[r.service_account_id@];
    if !organization_account(t, r.organization_id@, r.service_account_id@) {
        Some(Obstacle::NotFound)
    } else if account.revision != r.expected_revision {
        Some(Obstacle::RevisionConflict)
    } else if revocable(t, r.service_account_id@) && account.revision == i64::MAX {
        Some(Obstacle::Exhausted)
    } else {
        None
    }
}

/// A credential after its account was revoked at `at`.
pub open spec fn revoked_credential(
    credential: CredentialView,
    service_account_id: Seq<char>,
    at: int,
) -> CredentialView {
    if credential.service_account_id == service_account_id {
        let ended = if credential.valid_until <= at {
            credential.valid_until
        } else {
            at
        };
        CredentialView {
            revoked_at: match credential.revoked_at {
                Some(earlier) => Some(earlier),
                None => Some(at),
            },
            valid_until: if credential.valid_from >= ended {
                credential.valid_from
            } else {
                ended
            },
            ..credential
        }
    } else {
        credential
    }
}

pub open spec fn revoked_credentials(
    credentials: Map<Seq<char>, CredentialView>,
    service_account_id: Seq<char>,
    at: int,
) -> Map<Seq<char>, CredentialView> {
    Map::new(
        |k: Seq<char>| credentials.dom().contains(k),
        |k: Seq<char>| revoked_credential(credentials[k], service_account_id, at),
    )
}

/// The tables after a revocation at `now`. An account that was revoked before
/// stays as it is.
pub open spec fn after_revocation(t: TablesView, r: Revocation, now: int) -> TablesView {
    let id = r.service_account_id@;
    if !revocable(t, id) {
        t
    } else {
        let at = stored_instant(now);
        let account = AccountView {
            status: "revoked"@,
            revision: t.accounts[id].revision + 1,
            revoked_at: Some(at),
            updated_at: at,
            ..t.accounts[id]
        };
        TablesView {
            accounts: t.accounts.insert(id, account),
            credentials: revoked_credentials(t.credentials, id, at),
            ..t
        }
    }
}

/// What a creation answers and leaves behind, and when.
pub open spec fn creates_account<F>(
    before: TablesView,
    after: TablesView,
    key: CommandKeyView,
    max_accounts: int,
    account: NewAccount,
    at: int,
    receipt: F,
    r: Result<Option<AccountRow>, StoreError>,
) -> bool where
    F: FnOnce(&AccountRow) -> Result<(Vec<u8>, Vec<u8>), ServiceAccountPluginError>,
 {
    let created = after_creation(before, account, at);
    let row_view = account_row(created, account.service_account_id@);
    match (creation_obstacle(before, account, max_accounts), r) {
        (Some(Obstacle::LimitReached), r) => {
            &&& r matches Ok(None)
            &&& after == before
        },
        (Some(Obstacle::Taken(name)), r) => {
            &&& r matches Err(StoreError::Unique(constraint)) && constraint@ == name
            &&& after == before
        },
        (None, Ok(Some(row))) => {
            &&& row@ == row_view
            &&& completable(before, key)
            &&& exists|nonce: Vec<u8>, ciphertext: Vec<u8>|
                {
                    &&& #[trigger] call_ensures(
                        receipt,
                        (&row,),
                        Ok::<_, ServiceAccountPluginError>((nonce, ciphertext)),
                    )
                    &&& after == after_success(
                        created,
                        key,
                        nonce@,
                        ciphertext@,
                        at,
                    )
                }
        },
        (None, Err(StoreError::Plugin(error))) => {
            &&& after == before
            &&& {
                ||| exists|row: AccountRow|
                    row@ == row_view && #[trigger] call_ensures(
                        receipt,
                        (&row,),
                        Err::<(Vec<u8>, Vec<u8>), _>(error),
                    )
                ||| error.says("service-account command was not completable"@) && !completable(
                    before,
                    key,
                )
            }
        },
        _ => false,
    }
}

impl Tables {
    /// How many accounts the organization has.
    fn count_accounts(&self, organization_id: &str) -> (count: usize)
        requires
            distinct(self.accounts@),
        ensures
            count == organization_accounts(self@, organization_id@).len(),
    {
        let mut count: usize = 0;
        let mut i: usize = 0;
        let ghost rows = self.accounts@;
        let ghost mut found: Set<Seq<char>> = Set::empty();
        while i < self.accounts.len()
            invariant
                i <= self.accounts@.len(),
                rows == self.accounts@,
                distinct(rows),
                count <= i,
                found.finite(),
                count == found.len(),
                forall|id: Seq<char>|
                    found.contains(id) <==> exists|k: int|
                        0 <= k < i && (#[trigger] rows[k]).key() == id && rows[k].organization_id@
                            == organization_id@,
            decreases self.accounts@.len() - i,
        {
            if same_text(self.accounts[i].organization_id.as_str(), organization_id) {
                proof {
                    let id = rows[i as int].key();
                    if found.contains(id) {
                        let k = choose|k: int|
                            0 <= k < i && (#[trigger] rows[k]).key() == id
                                && rows[k].organization_id@ == organization_id@;
                        assert(rows[k].key() != rows[i as int].key());
                    }
                    let before = found;
                    found = found.insert(id);
                    assert forall|other: Seq<char>|
                        found.contains(other) <==> exists|k: int|
                            0 <= k < i + 1 && (#[trigger] rows[k]).key() == other
                                && rows[k].organization_id@ == organization_id@ by {
                        if before.contains(other) {
                            let k = choose|k: int|
                                0 <= k < i && (#[trigger] rows[k]).key() == other
                                    && rows[k].organization_id@ == organization_id@;
                            assert(rows[k].key() == other);
                        }
                        if other == id {
                            assert(rows[i as int].key() == other);
                        }
                    }
                }
                count += 1;
            }
            i += 1;
        }
        proof {
            lemma_table_domain(rows);
            let expected = organization_accounts(self@, organization_id@);
            assert forall|id: Seq<char>| found.contains(id) == expected.contains(id) by {
                if found.contains(id) {
                    let k = choose|k: int|
                        0 <= k < rows.len() && (#[trigger] rows[k]).key() == id
                            && rows[k].organization_id@ == organization_id@;
                    lemma_table_index(rows, k);
                }
                if expected.contains(id) {
                    let k = choose|k: int| 0 <= k < rows.len() && (#[trigger] rows[k]).key() == id;
                    lemma_table_index(rows, k);
                    assert(rows[k].organization_id@ == organization_id@);
                }
            }
            assert(found =~= expected);
        }
        count
    }

    fn has_name(&self, organization_id: &str, name_key: &str) -> (r: bool)
        requires
            distinct(self.accounts@),
        ensures
            r == name_taken(self@, organization_id@, name_key@),
    {
        let mut i: usize = 0;
        let ghost rows = self.accounts@;
        while i < self.accounts.len()
            invariant
                i <= self.accounts@.len(),
                rows == self.accounts@,
                distinct(rows),
                forall|k: int|
                    0 <= k < i ==> !((#[trigger] rows[k]).organization_id@ == organization_id@
                        && rows[k].name_key@ == name_key@),
            decreases self.accounts@.len() - i,
        {
            if same_text(self.accounts[i].organization_id.as_str(), organization_id) && same_text(
                self.accounts[i].name_key.as_str(),
                name_key,
            ) {
                proof {
                    lemma_table_index(rows, i as int);
                    assert(organization_account(self@, organization_id@, rows[i as int].key()));
                }
                return true;
            }
            i += 1;
        }
        proof {
            lemma_table_domain(rows);
            assert forall|id: Seq<char>| #[trigger]
                organization_account(self@, organization_id@, id) implies self@.accounts[id].name_key
                != name_key@ by {
                let k = choose|k: int| 0 <= k < rows.len() && (#[trigger] rows[k]).key() == id;
                lemma_table_index(rows, k);
            }
        }
        false
    }

    fn has_subject(&self, subject: &str) -> (r: bool)
        requires
            distinct(self.accounts@),
        ensures
            r == subject_taken(self@, subject@),
    {
        let mut i: usize = 0;
        let ghost rows = self.accounts@;
        while i < self.accounts.len()
            invariant
                i <= self.accounts@.len(),
                rows == self.accounts@,
                distinct(rows),
                forall|k: int| 0 <= k < i ==> (#[trigger] rows[k]).subject@ != subject@,
            decreases self.accounts@.len() - i,
        {
            if same_text(self.accounts[i].subject.as_str(), subject) {
                proof {
                    lemma_table_index(rows, i as int);
                    assert(self@.accounts.dom().contains(rows[i as int].key()));
                }
                return true;
            }
            i += 1;
        }
        proof {
            lemma_table_domain(rows);
            assert forall|id: Seq<char>| #[trigger]
                self@.accounts.dom().contains(id) implies self@.accounts[id].subject != subject@ by {
                let k = choose|k: int| 0 <= k < rows.len() && (#[trigger] rows[k]).key() == id;
                lemma_table_index(rows, k);
            }
        }
        false
    }

    /// Creates an account with its first credential and completes the command
    /// with the receipt that `receipt` makes of the account. The new rows come
    /// after those that were there.
    pub fn create_account<F>(
        &mut self,
        key: &CommandKey,
        max_accounts: u32,
        account: &NewAccount,
        at: i128,
        receipt: F,
    ) -> (r: Result<Option<AccountRow>, StoreError>) where
        F: FnOnce(&AccountRow) -> Result<(Vec<u8>, Vec<u8>), ServiceAccountPluginError>,

        requires
            old(self).well_formed(),
            forall|row: &AccountRow| call_requires(receipt, (row,)),
        ensures
            final(self).well_formed(),
            old(self).accounts@.is_prefix_of(final(self).accounts@),
            old(self).credentials@.is_prefix_of(final(self).credentials@),
            continues(final(self).commands@, old(self).commands@),
            final(self).commands@.len() == old(self).commands@.len(),
            final(self).limits == old(self).limits,
            creates_account(
                old(self)@,
                final(self)@,
                key@,
                max_accounts as int,
                *account,
                at as int,
                receipt,
                r,
            ),
    {
        if self.count_accounts(account.organization_id.as_str()) >= max_accounts as usize {
            return Ok(None);
        }
        if self.find_account(account.service_account_id.as_str()).is_some() {
            return Err(StoreError::Unique(ACCOUNT_ID_UNIQUE.to_string()));
        }
        if self.has_name(account.organization_id.as_str(), account.name_key.as_str()) {
            return Err(StoreError::Unique(ORGANIZATION_NAME_UNIQUE.to_string()));
        }
        if self.has_subject(account.subject.as_str()) {
            return Err(StoreError::Unique(SUBJECT_UNIQUE.to_string()));
        }
        if self.find_credential(account.credential_id.as_str()).is_some() {
            return Err(StoreError::Unique(CREDENTIAL_ID_UNIQUE.to_string()));
        }
        let ghost before = *self;
        let record = AccountRecord {
            service_account_id: account.service_account_id.clone(),
            organization_id: account.organization_id.clone(),
            subject: account.subject.clone(),
            name: account.name.clone(),
            name_key: account.name_key.clone(),
            status: "active".to_string(),
            revision: 1,
            created_at: at,
            updated_at: at,
            rotated_at: None,
            revoked_at: None,
        };
        let credential = CredentialRecord {
            credential_id: account.credential_id.clone(),
            service_account_id: account.service_account_id.clone(),
            verifier: account.verifier.clone(),
            valid_from: to_stored(account.valid_from),
            valid_until: to_stored(account.valid_until),
            created_at: at,
            superseded_at: None,
            revoked_at: None,
            last_used_at: None,
        };
        proof {
            lemma_table_push(self.accounts@, record);
            lemma_table_push(self.credentials@, credential);
        }
        self.accounts.push(record);
        self.credentials.push(credential);
        assert(self@ == after_creation(before@, *account, at as int));
        let row: AccountRow = self.row_at(self.accounts.len() - 1);
        let outcome: Result<(Vec<u8>, Vec<u8>), ServiceAccountPluginError> = receipt(&row);
        match outcome {
            Err(error) => {
                self.accounts.pop();
                self.credentials.pop();
                assert(self.accounts@ =~= before.accounts@);
                assert(self.credentials@ =~= before.credentials@);
                assert(call_ensures(receipt, (&row,), Err::<(Vec<u8>, Vec<u8>), _>(error)));
                Err(StoreError::Plugin(error))
            },
            Ok((nonce, ciphertext)) => {
                assert(call_ensures(
                    receipt,
                    (&row,),
                    Ok::<_, ServiceAccountPluginError>((nonce, ciphertext)),
                ));
                match self.complete_success(key, nonce, ciphertext, at) {
                    Err(error) => {
                        self.accounts.pop();
                        self.credentials.pop();
                        assert(self.accounts@ =~= before.accounts@);
                        assert(self.credentials@ =~= before.credentials@);
                        Err(StoreError::Plugin(error))
                    },
                    Ok(_) => Ok(Some(row)),
                }
            },
        }
    }
}

/// What a rotation answers and leaves behind, and when.
pub open spec fn rotates_account<F>(
    before: TablesView,
    after: TablesView,
    key: CommandKeyView,
    rotation: Rotation,
    at: int,
    receipt: F,
    r: Result<Mutation<AccountRow>, StoreError>,
) -> bool where
    F: FnOnce(&AccountRow) -> Result<(Vec<u8>, Vec<u8>), ServiceAccountPluginError>,
 {
    let rotated = after_rotation(before, rotation, at);
    let row_view = account_row(rotated, rotation.service_account_id@);
    match (rotation_obstacle(before, rotation), r) {
        (Some(obstacle), r) => {
            &&& after == before
            &&& match obstacle {
                Obstacle::NotFound => r matches Ok(Mutation::NotFound),
                Obstacle::Revoked => r matches Ok(Mutation::Revoked),
                Obstacle::RevisionConflict => r matches Ok(Mutation::RevisionConflict),
                Obstacle::Taken(name) => {
                    r matches Err(StoreError::Unique(constraint)) && constraint@ == name
                },
                Obstacle::Exhausted => {
                    r matches Err(StoreError::Plugin(error)) && error.says(
                        "service-account revision is exhausted"@,
                    )
                },
                Obstacle::LimitReached => false,
            }
        },
        (None, Ok(Mutation::Updated(row))) => {
            &&& row@ == row_view
            &&& completable(before, key)
            &&& exists|nonce: Vec<u8>, ciphertext: Vec<u8>|
                {
                    &&& #[trigger] call_ensures(
                        receipt,
                        (&row,),
                        Ok::<_, ServiceAccountPluginError>((nonce, ciphertext)),
                    )
                    &&& after == after_success(
                        rotated,
                        key,
                        nonce@,
                        ciphertext@,
                        at,
                    )
                }
        },
        (None, Err(StoreError::Plugin(error))) => {
            &&& after == before
            &&& {
                ||| exists|row: AccountRow|
                    row@ == row_view && #[trigger] call_ensures(
                        receipt,
                        (&row,),
                        Err::<(Vec<u8>, Vec<u8>), _>(error),
                    )
                ||| error.says("service-account command was not completable"@) && !completable(
                    before,
                    key,
                )
            }
        },
        _ => false,
    }
}

/// What a revocation answers and leaves behind, and when.
pub open spec fn revokes_account<F>(
    before: TablesView,
    after: TablesView,
    key: CommandKeyView,
    revocation: Revocation,
    now: int,
    at: int,
    receipt: F,
    r: Result<Mutation<(AccountRow, bool)>, StoreError>,
) -> bool where
    F: FnOnce(&(AccountRow, bool)) -> Result<(Vec<u8>, Vec<u8>), ServiceAccountPluginError>,
 {
    let id = revocation.service_account_id@;
    let revoked = after_revocation(before, revocation, now);
    let row_view = account_row(revoked, id);
    let changed = revocable(before, id);
    match (revocation_obstacle(before, revocation), r) {
        (Some(obstacle), r) => {
            &&& after == before
            &&& match obstacle {
                Obstacle::NotFound => r matches Ok(Mutation::NotFound),
                Obstacle::RevisionConflict => r matches Ok(Mutation::RevisionConflict),
                Obstacle::Exhausted => {
                    r matches Err(StoreError::Plugin(error)) && error.says(
                        "service-account revision is exhausted"@,
                    )
                },
                _ => false,
            }
        },
        (None, Ok(Mutation::Updated(result))) => {
            &&& result.0@ == row_view
            &&& result.1 == changed
            &&& completable(before, key)
            &&& exists|nonce: Vec<u8>, ciphertext: Vec<u8>|
                {
                    &&& #[trigger] call_ensures(
                        receipt,
                        (&result,),
                        Ok::<_, ServiceAccountPluginError>((nonce, ciphertext)),
                    )
                    &&& after == after_success(
                        revoked,
                        key,
                        nonce@,
                        ciphertext@,
                        at,
                    )
                }
        },
        (None, Err(StoreError::Plugin(error))) => {
            &&& after == before
            &&& {
                ||| exists|result: (AccountRow, bool)|
                    result.0@ == row_view && result.1 == changed
                        && #[trigger] call_ensures(
                        receipt,
                        (&result,),
                        Err::<(Vec<u8>, Vec<u8>), _>(error),
                    )
                ||| error.says("service-account command was not completable"@) && !completable(
                    before,
                    key,
                )
            }
        },
        _ => false,
    }
}

impl Tables {
    /// The credentials as a rotation at `at` leaves them.
    fn supersede(&self, service_account_id: &str, at: i128, until: i128) -> (r: Vec<
        CredentialRecord,
    >)
        requires
            distinct(self.credentials@),
        ensures
            distinct(r@),
            r@.len() == self.credentials@.len(),
            continues(r@, self.credentials@),
            table(r@) == superseded_credentials(
                self@.credentials,
                service_account_id@,
                at as int,
                until as int,
            ),
    {
        let mut out: Vec<CredentialRecord> = Vec::new();
        let mut i: usize = 0;
        let ghost rows = self.credentials@;
        let ghost change = |c: CredentialView|
            superseded_credential(c, service_account_id@, at as int, until as int);
        while i < self.credentials.len()
            invariant
                i <= self.credentials@.len(),
                rows == self.credentials@,
                out@.len() == i,
                change == (|c: CredentialView|
                    superseded_credential(c, service_account_id@, at as int, until as int)),
                forall|k: int|
                    0 <= k < i ==> {
                        &&& (#[trigger] out@[k]).key() == rows[k].key()
                        &&& out@[k].row() == change(rows[k].row())
                    },
            decreases self.credentials@.len() - i,
        {
            let credential: &CredentialRecord = &self.credentials[i];
            let live = same_text(credential.service_account_id.as_str(), service_account_id)
                && credential.revoked_at.is_none() && credential.valid_until > at;
            let record = CredentialRecord {
                credential_id: credential.credential_id.clone(),
                service_account_id: credential.service_account_id.clone(),
                verifier: credential.verifier.clone(),
                valid_from: credential.valid_from,
                valid_until: if live {
                    earliest(credential.valid_until, until)
                } else {
                    credential.valid_until
                },
                created_at: credential.created_at,
                superseded_at: match credential.superseded_at {
                    Some(earlier) => Some(earlier),
                    None => if live {
                        Some(at)
                    } else {
                        None
                    },
                },
                revoked_at: credential.revoked_at,
                last_used_at: credential.last_used_at,
            };
            assert(record.row() == change(rows[i as int].row()));
            out.push(record);
            i += 1;
        }
        proof {
            lemma_table_pointwise(rows, out@, change);
            assert(table(out@) =~= superseded_credentials(
                self@.credentials,
                service_account_id@,
                at as int,
                until as int,
            ));
        }
        out
    }

    /// The credentials as a revocation at `at` leaves them.
    fn revoke_credentials(&self, service_account_id: &str, at: i128) -> (r: Vec<CredentialRecord>)
        requires
            distinct(self.credentials@),
        ensures
            distinct(r@),
            r@.len() == self.credentials@.len(),
            continues(r@, self.credentials@),
            table(r@) == revoked_credentials(
                self@.credentials,
                service_account_id@,
                at as int,
            ),
    {
        let mut out: Vec<CredentialRecord> = Vec::new();
        let mut i: usize = 0;
        let ghost rows = self.credentials@;
        let ghost change = |c: CredentialView|
            revoked_credential(c, service_account_id@, at as int);
        while i < self.credentials.len()
            invariant
                i <= self.credentials@.len(),
                rows == self.credentials@,
                out@.len() == i,
                change == (|c: CredentialView|
                    revoked_credential(c, service_account_id@, at as int)),
                forall|k: int|
                    0 <= k < i ==> {
                        &&& (#[trigger] out@[k]).key() == rows[k].key()
                        &&& out@[k].row() == change(rows[k].row())
                    },
            decreases self.credentials@.len() - i,
        {
            let credential: &CredentialRecord = &self.credentials[i];
            let owned = same_text(credential.service_account_id.as_str(), service_account_id);
            let ended: i128 = earliest(credential.valid_until, at);
            let record = CredentialRecord {
                credential_id: credential.credential_id.clone(),
                service_account_id: credential.service_account_id.clone(),
                verifier: credential.verifier.clone(),
                valid_from: credential.valid_from,
                valid_until: if !owned {
                    credential.valid_until
                } else if credential.valid_from >= ended {
                    credential.valid_from
                } else {
                    ended
                },
                created_at: credential.created_at,
                superseded_at: credential.superseded_at,
                revoked_at: match credential.revoked_at {
                    Some(earlier) => Some(earlier),
                    None => if owned {
                        Some(at)
                    } else {
                        None
                    },
                },
                last_used_at: credential.last_used_at,
            };
            assert(record.row() == change(rows[i as int].row()));
            out.push(record);
            i += 1;
        }
        proof {
            lemma_table_pointwise(rows, out@, change);
            assert(table(out@) =~= revoked_credentials(
                self@.credentials,
                service_account_id@,
                at as int,
            ));
        }
        out
    }

    /// Gives an account a new credential, bounds the credentials it had, and
    /// completes the command with the receipt that `receipt` makes of the
    /// account. Rows keep their places, and the new credential comes last.
    pub fn rotate_account<F>(
        &mut self,
        key: &CommandKey,
        rotation: &Rotation,
        at: i128,
        receipt: F,
    ) -> (r: Result<Mutation<AccountRow>, StoreError>) where
        F: FnOnce(&AccountRow) -> Result<(Vec<u8>, Vec<u8>), ServiceAccountPluginError>,

        requires
            old(self).well_formed(),
            forall|row: &AccountRow| call_requires(receipt, (row,)),
        ensures
            final(self).well_formed(),
            continues(final(self).accounts@, old(self).accounts@),
            final(self).accounts@.len() == old(self).accounts@.len(),
            continues(final(self).credentials@, old(self).credentials@),
            continues(final(self).commands@, old(self).commands@),
            final(self).commands@.len() == old(self).commands@.len(),
            final(self).limits == old(self).limits,
            rotates_account(
                old(self)@,
                final(self)@,
                key@,
                *rotation,
                at as int,
                receipt,
                r,
            ),
    {
        let i: usize = match self.find_account(rotation.service_account_id.as_str()) {
            None => {
                return Ok(Mutation::NotFound);
            },
            Some(i) => i,
        };
        if !same_text(
            self.accounts[i].organization_id.as_str(),
            rotation.organization_id.as_str(),
        ) {
            return Ok(Mutation::NotFound);
        }
        if same_text(self.accounts[i].status.as_str(), "revoked") {
            return Ok(Mutation::Revoked);
        }
        if self.accounts[i].revision != rotation.expected_revision {
            return Ok(Mutation::RevisionConflict);
        }
        if self.find_credential(rotation.credential_id.as_str()).is_some() {
            return Err(StoreError::Unique(CREDENTIAL_ID_UNIQUE.to_string()));
        }
        let revision: i64 = self.accounts[i].revision;
        if revision == i64::MAX {
            return Err(
                StoreError::Plugin(
                    ServiceAccountPluginError::Invariant("service-account revision is exhausted"),
                ),
            );
        }
        let ghost before = *self;
        let from: i128 = to_stored(rotation.valid_from);
        let until: i128 = to_stored(rotation.overlap_until);
        let credential = CredentialRecord {
            credential_id: rotation.credential_id.clone(),
            service_account_id: rotation.service_account_id.clone(),
            verifier: rotation.verifier.clone(),
            valid_from: from,
            valid_until: to_stored(rotation.valid_until),
            created_at: at,
            superseded_at: None,
            revoked_at: None,
            last_used_at: None,
        };
        let mut credentials: Vec<CredentialRecord> = self.supersede(
            rotation.service_account_id.as_str(),
            from,
            until,
        );
        proof {
            lemma_table_push(credentials@, credential);
        }
        credentials.push(credential);
        std::mem::swap(&mut self.credentials, &mut credentials);
        let rotated_at: Option<i128> = self.accounts[i].rotated_at;
        let updated_at: i128 = self.accounts[i].updated_at;
        self.accounts[i].revision = revision + 1;
        self.accounts[i].rotated_at = Some(from);
        self.accounts[i].updated_at = from;
        proof {
            lemma_table_update(before.accounts@, i as int, self.accounts@[i as int]);
            assert(self.accounts@ =~= before.accounts@.update(i as int, self.accounts@[i as int]));
        }
        assert(self@ == after_rotation(before@, *rotation, at as int));
        let row: AccountRow = self.row_at(i);
        let outcome: Result<(Vec<u8>, Vec<u8>), ServiceAccountPluginError> = receipt(&row);
        let failure: ServiceAccountPluginError = match outcome {
            Err(error) => {
                assert(call_ensures(receipt, (&row,), Err::<(Vec<u8>, Vec<u8>), _>(error)));
                error
            },
            Ok((nonce, ciphertext)) => {
                assert(call_ensures(
                    receipt,
                    (&row,),
                    Ok::<_, ServiceAccountPluginError>((nonce, ciphertext)),
                ));
                match self.complete_success(key, nonce, ciphertext, at) {
                    Ok(_) => {
                        return Ok(Mutation::Updated(row));
                    },
                    Err(error) => error,
                }
            },
        };
        self.credentials = credentials;
        self.accounts[i].revision = revision;
        self.accounts[i].rotated_at = rotated_at;
        self.accounts[i].updated_at = updated_at;
        assert(self.accounts@ =~= before.accounts@);
        Err(StoreError::Plugin(failure))
    }

    /// Revokes an account with all its credentials, unless it is revoked
    /// already, and completes the command with the receipt that `receipt` makes
    /// of the account and of whether it changed. Rows keep their places.
    pub fn revoke_account<F>(
        &mut self,
        key: &CommandKey,
        revocation: &Revocation,
        now: i128,
        at: i128,
        receipt: F,
    ) -> (r: Result<Mutation<(AccountRow, bool)>, StoreError>) where
        F: FnOnce(&(AccountRow, bool)) -> Result<(Vec<u8>, Vec<u8>), ServiceAccountPluginError>,

        requires
            old(self).well_formed(),
            forall|result: &(AccountRow, bool)| call_requires(receipt, (result,)),
        ensures
            final(self).well_formed(),
            continues(final(self).accounts@, old(self).accounts@),
            final(self).accounts@.len() == old(self).accounts@.len(),
            continues(final(self).credentials@, old(self).credentials@),
            final(self).credentials@.len() == old(self).credentials@.len(),
            continues(final(self).commands@, old(self).commands@),
            final(self).commands@.len() == old(self).commands@.len(),
            final(self).limits == old(self).limits,
            revokes_account(
                old(self)@,
                final(self)@,
                key@,
                *revocation,
                now as int,
                at as int,
                receipt,
                r,
            ),
    {
        let i: usize = match self.find_account(revocation.service_account_id.as_str()) {
            None => {
                return Ok(Mutation::NotFound);
            },
            Some(i) => i,
        };
        if !same_text(
            self.accounts[i].organization_id.as_str(),
            revocation.organization_id.as_str(),
        ) {
            return Ok(Mutation::NotFound);
        }
        if self.accounts[i].revision != revocation.expected_revision {
            return Ok(Mutation::RevisionConflict);
        }
        let changed: bool = !same_text(self.accounts[i].status.as_str(), "revoked");
        let revision: i64 = self.accounts[i].revision;
        if changed && revision == i64::MAX {
            return Err(
                StoreError::Plugin(
                    ServiceAccountPluginError::Invariant("service-account revision is exhausted"),
                ),
            );
        }
        let ghost before = *self;
        let moment: i128 = to_stored(now);
        let mut status: String = "revoked".to_string();
        let revoked_at: Option<i128> = self.accounts[i].revoked_at;
        let updated_at: i128 = self.accounts[i].updated_at;
        let mut credentials: Vec<CredentialRecord> = self.revoke_credentials(
            revocation.service_account_id.as_str(),
            moment,
        );
        if changed {
            std::mem::swap(&mut self.credentials, &mut credentials);
            std::mem::swap(&mut self.accounts[i].status, &mut status);
            self.accounts[i].revision = revision + 1;
            self.accounts[i].revoked_at = Some(moment);
            self.accounts[i].updated_at = moment;
            proof {
                lemma_table_update(before.accounts@, i as int, self.accounts@[i as int]);
                assert(self.accounts@ =~= before.accounts@.update(
                    i as int,
                    self.accounts@[i as int],
                ));
            }
        }
        assert(self@ == after_revocation(before@, *revocation, now as int));
        let result: (AccountRow, bool) = (self.row_at(i), changed);
        let outcome: Result<(Vec<u8>, Vec<u8>), ServiceAccountPluginError> = receipt(&result);
        let failure: ServiceAccountPluginError = match outcome {
            Err(error) => {
                assert(call_ensures(receipt, (&result,), Err::<(Vec<u8>, Vec<u8>), _>(error)));
                error
            },
            Ok((nonce, ciphertext)) => {
                assert(call_ensures(
                    receipt,
                    (&result,),
                    Ok::<_, ServiceAccountPluginError>((nonce, ciphertext)),
                ));
                match self.complete_success(key, nonce, ciphertext, at) {
                    Ok(_) => {
                        return Ok(Mutation::Updated(result));
                    },
                    Err(error) => error,
                }
            },
        };
        if changed {
            self.credentials = credentials;
            self.accounts[i].status = status;
            self.accounts[i].revision = revision;
            self.accounts[i].revoked_at = revoked_at;
            self.accounts[i].updated_at = updated_at;
            assert(self.accounts@ =~= before.accounts@);
        }
        Err(StoreError::Plugin(failure))
    }
}

} // verus!
