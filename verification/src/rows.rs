//! The rows that the plugin owns, and what a query gives back of them.

use vstd::prelude::*;
use vstd::string::*;

use crate::debug::{
    debug_struct, field_views, fields_text, quoted, quoted_text, redacted, redacted_text,
    redacted_text_is_quoted, redaction_is_shown, struct_text,
};
use crate::instant::{
    debug_instant, debug_optional_instant, instant_text, instant_view, optional_instant_text,
};
use crate::table::Record;
use crate::text::holds_text;

verus! {

/// A service account as stored.
pub struct AccountRecord {
    pub service_account_id: String,
    pub organization_id: String,
    pub subject: String,
    pub name: String,
    pub name_key: String,
    pub status: String,
    pub revision: i64,
    pub created_at: i128,
    pub updated_at: i128,
    pub rotated_at: Option<i128>,
    pub revoked_at: Option<i128>,
}

pub struct AccountView {
    pub organization_id: Seq<char>,
    pub subject: Seq<char>,
    pub name: Seq<char>,
    pub name_key: Seq<char>,
    pub status: Seq<char>,
    pub revision: int,
    pub created_at: int,
    pub updated_at: int,
    pub rotated_at: Option<int>,
    pub revoked_at: Option<int>,
}

impl Record for AccountRecord {
    type Key = Seq<char>;

    type Row = AccountView;

    open spec fn key(self) -> Seq<char> {
        self.service_account_id@
    }

    open spec fn row(self) -> AccountView {
        AccountView {
            organization_id: self.organization_id@,
            subject: self.subject@,
            name: self.name@,
            name_key: self.name_key@,
            status: self.status@,
            revision: self.revision as int,
            created_at: self.created_at as int,
            updated_at: self.updated_at as int,
            rotated_at: instant_view(self.rotated_at),
            revoked_at: instant_view(self.revoked_at),
        }
    }
}

/// A credential of a service account as stored. The secret itself is not.
pub struct CredentialRecord {
    pub credential_id: String,
    pub service_account_id: String,
    pub verifier: String,
    pub valid_from: i128,
    pub valid_until: i128,
    pub created_at: i128,
    pub superseded_at: Option<i128>,
    pub revoked_at: Option<i128>,
    pub last_used_at: Option<i128>,
}

pub struct CredentialView {
    pub service_account_id: Seq<char>,
    pub verifier: Seq<char>,
    pub valid_from: int,
    pub valid_until: int,
    pub created_at: int,
    pub superseded_at: Option<int>,
    pub revoked_at: Option<int>,
    pub last_used_at: Option<int>,
}

impl Record for CredentialRecord {
    type Key = Seq<char>;

    type Row = CredentialView;

    open spec fn key(self) -> Seq<char> {
        self.credential_id@
    }

    open spec fn row(self) -> CredentialView {
        CredentialView {
            service_account_id: self.service_account_id@,
            verifier: self.verifier@,
            valid_from: self.valid_from as int,
            valid_until: self.valid_until as int,
            created_at: self.created_at as int,
            superseded_at: instant_view(self.superseded_at),
            revoked_at: instant_view(self.revoked_at),
            last_used_at: instant_view(self.last_used_at),
        }
    }
}

/// What makes a command one and the same: who calls, for which operation, under
/// which idempotency key.
pub struct CommandKey {
    pub caller: String,
    pub operation: String,
    pub idempotency_key: String,
}

pub struct CommandKeyView {
    pub caller: Seq<char>,
    pub operation: Seq<char>,
    pub idempotency_key: Seq<char>,
}

impl View for CommandKey {
    type V = CommandKeyView;

    open spec fn view(&self) -> CommandKeyView {
        CommandKeyView {
            caller: self.caller@,
            operation: self.operation@,
            idempotency_key: self.idempotency_key@,
        }
    }
}

impl CommandKey {
    pub fn same(&self, other: &CommandKey) -> (r: bool)
        ensures
            r == (self@ == other@),
    {
        self.caller == other.caller && self.operation == other.operation && self.idempotency_key
            == other.idempotency_key
    }

    pub fn copy(&self) -> (r: CommandKey)
        ensures
            r == *self,
    {
        CommandKey {
            caller: self.caller.clone(),
            operation: self.operation.clone(),
            idempotency_key: self.idempotency_key.clone(),
        }
    }
}

/// A command as stored: `reserved`, `verifying` or `issuing` while it runs, then
/// `completed_success` with an encrypted receipt or `completed_error` with a
/// code.
pub struct CommandRecord {
    pub command: CommandKey,
    pub intent_hash: Vec<u8>,
    pub status: String,
    pub response_nonce: Option<Vec<u8>>,
    pub response_ciphertext: Option<Vec<u8>>,
    pub error_code: Option<String>,
    pub updated_at: i128,
    pub completed_at: Option<i128>,
}

pub struct CommandView {
    pub intent_hash: Seq<u8>,
    pub status: Seq<char>,
    pub response_nonce: Option<Seq<u8>>,
    pub response_ciphertext: Option<Seq<u8>>,
    pub error_code: Option<Seq<char>>,
    pub updated_at: int,
    pub completed_at: Option<int>,
}

pub open spec fn bytes_view(bytes: Option<Vec<u8>>) -> Option<Seq<u8>> {
    match bytes {
        Some(bytes) => Some(bytes@),
        None => None,
    }
}

pub open spec fn text_view(text: Option<String>) -> Option<Seq<char>> {
    match text {
        Some(text) => Some(text@),
        None => None,
    }
}

impl Record for CommandRecord {
    type Key = CommandKeyView;

    type Row = CommandView;

    open spec fn key(self) -> CommandKeyView {
        self.command@
    }

    open spec fn row(self) -> CommandView {
        CommandView {
            intent_hash: self.intent_hash@,
            status: self.status@,
            response_nonce: bytes_view(self.response_nonce),
            response_ciphertext: bytes_view(self.response_ciphertext),
            error_code: text_view(self.error_code),
            updated_at: self.updated_at as int,
            completed_at: instant_view(self.completed_at),
        }
    }
}

/// How often a caller has asked for an exchange, as stored.
pub struct LimitRecord {
    pub caller_instance: String,
    pub window_started_at: i128,
    pub attempts: i64,
    pub locked_until: Option<i128>,
}

pub struct LimitView {
    pub window_started_at: int,
    pub attempts: int,
    pub locked_until: Option<int>,
}

impl Record for LimitRecord {
    type Key = Seq<char>;

    type Row = LimitView;

    open spec fn key(self) -> Seq<char> {
        self.caller_instance@
    }

    open spec fn row(self) -> LimitView {
        LimitView {
            window_started_at: self.window_started_at as int,
            attempts: self.attempts as int,
            locked_until: instant_view(self.locked_until),
        }
    }
}

/// A service account as queried, with the expiry of its latest credential.
pub struct AccountRow {
    pub service_account_id: String,
    pub organization_id: String,
    pub subject: String,
    pub name: String,
    pub status: String,
    pub revision: i64,
    pub created_at: i128,
    pub rotated_at: Option<i128>,
    pub revoked_at: Option<i128>,
    pub credential_expires_at: Option<i128>,
}

pub struct AccountRowView {
    pub service_account_id: Seq<char>,
    pub organization_id: Seq<char>,
    pub subject: Seq<char>,
    pub name: Seq<char>,
    pub status: Seq<char>,
    pub revision: int,
    pub created_at: int,
    pub rotated_at: Option<int>,
    pub revoked_at: Option<int>,
    pub credential_expires_at: Option<int>,
}

impl View for AccountRow {
    type V = AccountRowView;

    open spec fn view(&self) -> AccountRowView {
        AccountRowView {
            service_account_id: self.service_account_id@,
            organization_id: self.organization_id@,
            subject: self.subject@,
            name: self.name@,
            status: self.status@,
            revision: self.revision as int,
            created_at: self.created_at as int,
            rotated_at: instant_view(self.rotated_at),
            revoked_at: instant_view(self.revoked_at),
            credential_expires_at: instant_view(self.credential_expires_at),
        }
    }
}

/// A credential as queried, joined with its account.
pub struct CredentialRow {
    pub credential_id: String,
    pub service_account_id: String,
    pub organization_id: String,
    pub subject: String,
    pub account_status: String,
    pub verifier: String,
    pub valid_from: i128,
    pub valid_until: i128,
    pub revoked_at: Option<i128>,
}

pub struct CredentialRowView {
    pub credential_id: Seq<char>,
    pub service_account_id: Seq<char>,
    pub organization_id: Seq<char>,
    pub subject: Seq<char>,
    pub account_status: Seq<char>,
    pub verifier: Seq<char>,
    pub valid_from: int,
    pub valid_until: int,
    pub revoked_at: Option<int>,
}

impl View for CredentialRow {
    type V = CredentialRowView;

    open spec fn view(&self) -> CredentialRowView {
        CredentialRowView {
            credential_id: self.credential_id@,
            service_account_id: self.service_account_id@,
            organization_id: self.organization_id@,
            subject: self.subject@,
            account_status: self.account_status@,
            verifier: self.verifier@,
            valid_from: self.valid_from as int,
            valid_until: self.valid_until as int,
            revoked_at: instant_view(self.revoked_at),
        }
    }
}

impl CredentialRow {
    /// The form of a credential in diagnostics; the verifier is left out.
    pub open spec fn debug_view(self) -> Seq<char> {
        struct_text(
            "CredentialRow"@,
            seq![
                ("credential_id"@, quoted_text(self.credential_id@)),
                ("service_account_id"@, quoted_text(self.service_account_id@)),
                ("organization_id"@, quoted_text(self.organization_id@)),
                ("subject"@, quoted_text(self.subject@)),
                ("account_status"@, quoted_text(self.account_status@)),
                ("verifier"@, redacted_text()),
                ("valid_from"@, instant_text(self.valid_from as int)),
                ("valid_until"@, instant_text(self.valid_until as int)),
                ("revoked_at"@, optional_instant_text(instant_view(self.revoked_at))),
            ],
        )
    }

    pub fn debug_text(&self) -> (r: String)
        ensures
            r@ == self.debug_view(),
    {
        let fields: Vec<(&str, String)> = vec![
            ("credential_id", quoted(self.credential_id.as_str())),
            ("service_account_id", quoted(self.service_account_id.as_str())),
            ("organization_id", quoted(self.organization_id.as_str())),
            ("subject", quoted(self.subject.as_str())),
            ("account_status", quoted(self.account_status.as_str())),
            ("verifier", redacted()),
            ("valid_from", debug_instant(self.valid_from)),
            ("valid_until", debug_instant(self.valid_until)),
            ("revoked_at", debug_optional_instant(self.revoked_at)),
        ];
        proof {
            assert(field_views(fields@) =~= seq![
                ("credential_id"@, quoted_text(self.credential_id@)),
                ("service_account_id"@, quoted_text(self.service_account_id@)),
                ("organization_id"@, quoted_text(self.organization_id@)),
                ("subject"@, quoted_text(self.subject@)),
                ("account_status"@, quoted_text(self.account_status@)),
                ("verifier"@, redacted_text()),
                ("valid_from"@, instant_text(self.valid_from as int)),
                ("valid_until"@, instant_text(self.valid_until as int)),
                ("revoked_at"@, optional_instant_text(instant_view(self.revoked_at))),
            ]);
        }
        debug_struct("CredentialRow", &fields)
    }
}

/// What became of an attempt to start a command.
pub enum CommandClaim {
    Claimed,
    CompletedSuccess { nonce: Vec<u8>, ciphertext: Vec<u8> },
    CompletedError(String),
    Conflict,
    InProgress,
}

pub enum ClaimView {
    Claimed,
    CompletedSuccess { nonce: Seq<u8>, ciphertext: Seq<u8> },
    CompletedError(Seq<char>),
    Conflict,
    InProgress,
}

impl View for CommandClaim {
    type V = ClaimView;

    open spec fn view(&self) -> ClaimView {
        match self {
            CommandClaim::Claimed => ClaimView::Claimed,
            CommandClaim::CompletedSuccess { nonce, ciphertext } => ClaimView::CompletedSuccess {
                nonce: nonce@,
                ciphertext: ciphertext@,
            },
            CommandClaim::CompletedError(code) => ClaimView::CompletedError(code@),
            CommandClaim::Conflict => ClaimView::Conflict,
            CommandClaim::InProgress => ClaimView::InProgress,
        }
    }
}

impl CommandClaim {
    /// The form of a claim in diagnostics; the receipt is left out.
    pub open spec fn debug_view(self) -> Seq<char> {
        match self {
            CommandClaim::Claimed => "Claimed"@,
            CommandClaim::CompletedSuccess { .. } => struct_text(
                "CompletedSuccess"@,
                seq![("receipt"@, redacted_text())],
            ),
            CommandClaim::CompletedError(code) => "CompletedError("@ + quoted_text(code@) + ")"@,
            CommandClaim::Conflict => "Conflict"@,
            CommandClaim::InProgress => "InProgress"@,
        }
    }

    pub fn debug_text(&self) -> (r: String)
        ensures
            r@ == self.debug_view(),
    {
        match self {
            CommandClaim::Claimed => "Claimed".to_string(),
            CommandClaim::CompletedSuccess { .. } => {
                let fields: Vec<(&str, String)> = vec![("receipt", redacted())];
                assert(field_views(fields@) =~= seq![("receipt"@, redacted_text())]);
                debug_struct("CompletedSuccess", &fields)
            },
            CommandClaim::CompletedError(code) => {
                let mut out: String = "CompletedError(".to_string();
                out.append(quoted(code.as_str()).as_str());
                out.append(")");
                out
            },
            CommandClaim::Conflict => "Conflict".to_string(),
            CommandClaim::InProgress => "InProgress".to_string(),
        }
    }
}

/// What became of an attempt to change an account.
pub enum Mutation<T> {
    Updated(T),
    NotFound,
    Revoked,
    RevisionConflict,
}

/// Diagnostics of two credentials that differ in their verifiers alone read
/// alike, and show that something was left out.
pub proof fn credential_row_debug_hides_the_verifier(row: CredentialRow, verifier: String)
    ensures
        row.debug_view() == (CredentialRow { verifier, ..row }).debug_view(),
        holds_text(row.debug_view(), "<redacted>"@),
{
    let fields = seq![
        ("credential_id"@, quoted_text(row.credential_id@)),
        ("service_account_id"@, quoted_text(row.service_account_id@)),
        ("organization_id"@, quoted_text(row.organization_id@)),
        ("subject"@, quoted_text(row.subject@)),
        ("account_status"@, quoted_text(row.account_status@)),
        ("verifier"@, redacted_text()),
        ("valid_from"@, instant_text(row.valid_from as int)),
        ("valid_until"@, instant_text(row.valid_until as int)),
        ("revoked_at"@, optional_instant_text(instant_view(row.revoked_at))),
    ];
    redaction_is_shown("CredentialRow"@, fields, 5);
}

/// Diagnostics of all receipts read alike, whatever they hold.
pub proof fn command_claim_debug_hides_the_receipt(nonce: Vec<u8>, ciphertext: Vec<u8>)
    ensures
        (CommandClaim::CompletedSuccess { nonce, ciphertext }).debug_view()
            == "CompletedSuccess { receipt: \"<redacted>\" }"@,
        holds_text(
            (CommandClaim::CompletedSuccess { nonce, ciphertext }).debug_view(),
            "<redacted>"@,
        ),
{
    let fields = seq![("receipt"@, redacted_text())];
    redaction_is_shown("CompletedSuccess"@, fields, 0);
    assert(fields.drop_last() =~= Seq::empty());
    assert(fields_text(fields) =~= "receipt"@ + ": "@ + redacted_text()) by {
        assert(fields_text(fields.drop_last()) =~= Seq::empty());
    }
    assert("receipt"@ + ": "@ + redacted_text() =~= "receipt: \"<redacted>\""@) by {
        redacted_text_is_quoted();
        reveal_strlit("receipt: \"<redacted>\"");
        reveal_strlit("receipt");
        reveal_strlit("<redacted>");
        reveal_strlit(": ");
    }
    assert("CompletedSuccess"@ + " { "@ =~= "CompletedSuccess { "@) by {
        reveal_strlit("CompletedSuccess { ");
        reveal_strlit("CompletedSuccess");
        reveal_strlit(" { ");
    }
    assert("CompletedSuccess { "@ + "receipt: \"<redacted>\""@ + " }"@
        =~= "CompletedSuccess { receipt: \"<redacted>\" }"@) by {
        reveal_strlit("CompletedSuccess { receipt: \"<redacted>\" }");
        reveal_strlit("CompletedSuccess { ");
        reveal_strlit("receipt: \"<redacted>\"");
        reveal_strlit(" }");
    }
}

} // verus!
