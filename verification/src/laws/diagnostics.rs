//! What is written of values for diagnostics, and what is kept out of it.

use vstd::prelude::*;
use vstd::string::*;

use crate::auth_contract::{
    ExchangeServiceAccountSecretRequest, ExchangeServiceAccountSecretResponse,
};
use crate::contract::{
    CreateServiceAccountResponse, RotateServiceAccountSecretResponse, ServiceAccountStatus,
    ServiceAccountSummary,
};
use crate::crypto::{CredentialSecret, ReceiptCipher};
use crate::debug::{
    debug_bool, debug_open_struct, debug_struct, escaped_text, field_views, fields_text, plain,
    quoted, quoted_option, redacted,
};
use crate::instant::{date_time_text, debug_instant, debug_optional_instant};
use crate::lifecycle::ActiveServiceAccount;
use crate::rows::{CommandClaim, CredentialRow};

verus! {

/// A text in double quotes. Where it holds a quote, a backslash or anything
/// beyond printable ASCII, it is escaped.
pub open spec fn in_quotes(text: Seq<char>) -> Seq<char> {
    if forall|i: int|
        0 <= i < text.len() ==> 0x20 <= #[trigger] text[i] as int && text[i] as int <= 0x7e
            && text[i] as int != 0x22 && text[i] as int != 0x27 && text[i] as int != 0x5c {
        seq!['"'] + text + seq!['"']
    } else {
        escaped_text(text)
    }
}

/// What stands for a value that is kept out.
pub open spec fn left_out() -> Seq<char> {
    seq!['"'] + "<redacted>"@ + seq!['"']
}

/// Whether there is a text, and the text in quotes.
pub open spec fn in_quotes_if_any(text: Option<String>) -> Seq<char> {
    if text is Some {
        "Some("@ + in_quotes(text.unwrap()@) + ")"@
    } else {
        "None"@
    }
}

/// An instant as a date and a time, where there are such.
pub open spec fn as_date_time(t: int) -> Seq<char> {
    if date_time_text(t) is Some {
        date_time_text(t).unwrap()
    } else {
        "<out of range>"@
    }
}

pub open spec fn as_date_time_if_any(t: Option<i128>) -> Seq<char> {
    if t is Some {
        "Some("@ + as_date_time(t.unwrap() as int) + ")"@
    } else {
        "None"@
    }
}

pub open spec fn truth(b: bool) -> Seq<char> {
    if b {
        "true"@
    } else {
        "false"@
    }
}

/// Names and values, in order, with a comma between two of them.
pub open spec fn listed(fields: Seq<(Seq<char>, Seq<char>)>) -> Seq<char>
    decreases fields.len(),
{
    if fields.len() == 0 {
        Seq::empty()
    } else if fields.len() == 1 {
        fields[0].0 + ": "@ + fields[0].1
    } else {
        fields[0].0 + ": "@ + fields[0].1 + ", "@ + listed(fields.skip(1))
    }
}

/// A value with all of its fields.
pub open spec fn written(name: Seq<char>, fields: Seq<(Seq<char>, Seq<char>)>) -> Seq<char> {
    name + " { "@ + listed(fields) + " }"@
}

proof fn lemma_listed(fields: Seq<(Seq<char>, Seq<char>)>)
    ensures
        fields_text(fields) == listed(fields),
    decreases fields.len(),
{
    if fields.len() == 1 {
        assert(fields_text(fields.drop_last()) =~= Seq::empty());
        assert(fields_text(fields) =~= listed(fields));
    } else if fields.len() > 1 {
        let front = fields.drop_last();
        let tail = fields.skip(1);
        lemma_listed(front);
        lemma_listed(tail);
        lemma_listed(tail.drop_last());
        assert(front.skip(1) =~= tail.drop_last());
        assert(tail.last() == fields.last());
        let last = fields.last().0 + ": "@ + fields.last().1;
        if fields.len() == 2 {
            assert(listed(tail.drop_last()) =~= Seq::empty());
            assert(fields_text(tail) =~= last);
            assert(listed(front) =~= fields[0].0 + ": "@ + fields[0].1);
        } else {
            assert(fields_text(tail) =~= listed(tail.drop_last()) + ", "@ + last);
            assert(listed(front) =~= fields[0].0 + ": "@ + fields[0].1 + ", "@ + listed(
                tail.drop_last(),
            ));
        }
        assert(fields_text(fields) =~= listed(front) + ", "@ + last);
        assert(fields_text(fields) =~= listed(fields));
    }
}

proof fn lemma_in_quotes(text: Seq<char>)
    ensures
        crate::debug::quoted_text(text) == in_quotes(text),
        crate::debug::redacted_text() == left_out(),
{
    crate::debug::redacted_text_is_quoted();
    if plain(text) {
        assert forall|i: int| 0 <= i < text.len() implies 0x20 <= #[trigger] text[i] as int
            && text[i] as int <= 0x7e && text[i] as int != 0x22 && text[i] as int != 0x27
            && text[i] as int != 0x5c by {
            assert(' ' <= text[i] <= '~');
        }
    }
}

/// Texts are put in quotes, and what is kept out leaves a mark in its place.
pub proof fn texts_are_put_in_quotes(
    text: &str,
    in_full: String,
    option: &Option<String>,
    if_any: String,
    kept_out: String,
    b: bool,
    of_bool: String,
)
    requires
        call_ensures(quoted, (text,), in_full),
        call_ensures(quoted_option, (option,), if_any),
        call_ensures(redacted, (), kept_out),
        call_ensures(debug_bool, (b,), of_bool),
    ensures
        in_full@ == in_quotes(text@),
        if_any@ == in_quotes_if_any(*option),
        kept_out@ == left_out(),
        of_bool@ == truth(b),
{
    lemma_in_quotes(text@);
    if let Some(inner) = option {
        lemma_in_quotes(inner@);
    }
}

/// Instants are written as dates and times.
pub proof fn instants_are_written_as_dates(
    t: i128,
    of_instant: String,
    option: Option<i128>,
    if_any: String,
)
    requires
        call_ensures(debug_instant, (t,), of_instant),
        call_ensures(debug_optional_instant, (option,), if_any),
    ensures
        of_instant@ == as_date_time(t as int),
        if_any@ == as_date_time_if_any(option),
{
}

/// Fields are written in order between braces. Where some are not shown, two dots
/// say so.
pub proof fn fields_are_written_in_order(
    name: &str,
    fields: &Vec<(&str, String)>,
    whole: String,
    in_part: String,
)
    requires
        call_ensures(debug_struct, (name, fields), whole),
        call_ensures(debug_open_struct, (name, fields), in_part),
    ensures
        ({
            let shown = Seq::new(fields@.len(), |i: int| (fields@[i].0@, fields@[i].1@));
            &&& whole@ == written(name@, shown)
            &&& in_part@ == name@ + " { "@ + listed(shown) + ", .. }"@
        }),
{
    let shown = Seq::new(fields@.len(), |i: int| (fields@[i].0@, fields@[i].1@));
    assert(field_views(fields@) =~= shown);
    lemma_listed(shown);
}

/// A request for an exchange is written with its key, and without its secret.
pub proof fn exchange_requests_are_written_without_their_secret(
    request: &ExchangeServiceAccountSecretRequest,
    r: String,
)
    requires
        call_ensures(ExchangeServiceAccountSecretRequest::debug_text, (request,), r),
    ensures
        r@ == written(
            "ExchangeServiceAccountSecretRequest"@,
            seq![
                ("idempotency_key"@, in_quotes(request.idempotency_key@)),
                ("secret"@, left_out()),
            ],
        ),
{
    lemma_in_quotes(request.idempotency_key@);
    lemma_listed(
        seq![
            ("idempotency_key"@, in_quotes(request.idempotency_key@)),
            ("secret"@, left_out()),
        ],
    );
}

/// The answer to an exchange is written without the credential.
pub proof fn exchange_answers_are_written_without_their_credential(
    response: &ExchangeServiceAccountSecretResponse,
    r: String,
)
    requires
        call_ensures(ExchangeServiceAccountSecretResponse::debug_text, (response,), r),
    ensures
        r@ == written(
            "ExchangeServiceAccountSecretResponse"@,
            seq![
                ("credential"@, left_out()),
                ("expires_at"@, in_quotes(response.expires_at@)),
                ("organization_id"@, in_quotes(response.organization_id@)),
                ("service_account_id"@, in_quotes(response.service_account_id@)),
                ("session_id"@, in_quotes(response.session_id@)),
                ("subject"@, in_quotes(response.subject@)),
            ],
        ),
{
    lemma_in_quotes(response.expires_at@);
    lemma_in_quotes(response.organization_id@);
    lemma_in_quotes(response.service_account_id@);
    lemma_in_quotes(response.session_id@);
    lemma_in_quotes(response.subject@);
    lemma_listed(
        seq![
            ("credential"@, left_out()),
            ("expires_at"@, in_quotes(response.expires_at@)),
            ("organization_id"@, in_quotes(response.organization_id@)),
            ("service_account_id"@, in_quotes(response.service_account_id@)),
            ("session_id"@, in_quotes(response.session_id@)),
            ("subject"@, in_quotes(response.subject@)),
        ],
    );
}

pub open spec fn status_name(status: ServiceAccountStatus) -> Seq<char> {
    if status is Active {
        "Active"@
    } else {
        "Revoked"@
    }
}

/// The fields of a summary, each with its own value.
pub open spec fn summary_fields(s: ServiceAccountSummary) -> Seq<(Seq<char>, Seq<char>)> {
    seq![
        ("created_at"@, in_quotes(s.created_at@)),
        ("credential_expires_at"@, in_quotes_if_any(s.credential_expires_at.0)),
        ("name"@, in_quotes(s.name@)),
        ("organization_id"@, in_quotes(s.organization_id@)),
        ("revision"@, in_quotes(s.revision@)),
        ("revoked_at"@, in_quotes_if_any(s.revoked_at.0)),
        ("rotated_at"@, in_quotes_if_any(s.rotated_at.0)),
        ("service_account_id"@, in_quotes(s.service_account_id@)),
        ("status"@, status_name(s.status)),
        ("subject"@, in_quotes(s.subject@)),
    ]
}

proof fn lemma_in_quotes_if_any(text: Option<String>)
    ensures
        crate::debug::optional_text(text.deep_view()) == in_quotes_if_any(text),
{
    if let Some(inner) = text {
        lemma_in_quotes(inner@);
    }
}

proof fn lemma_summary(s: ServiceAccountSummary)
    ensures
        s.debug_view() == written("ServiceAccountSummary"@, summary_fields(s)),
{
    lemma_in_quotes(s.created_at@);
    lemma_in_quotes_if_any(s.credential_expires_at.0);
    lemma_in_quotes(s.name@);
    lemma_in_quotes(s.organization_id@);
    lemma_in_quotes(s.revision@);
    lemma_in_quotes_if_any(s.revoked_at.0);
    lemma_in_quotes_if_any(s.rotated_at.0);
    lemma_in_quotes(s.service_account_id@);
    lemma_in_quotes(s.subject@);
    lemma_listed(summary_fields(s));
}

/// Summaries are written in full.
pub proof fn summaries_are_written_in_full(
    summary: &ServiceAccountSummary,
    r: String,
    status: &ServiceAccountStatus,
    name: String,
)
    requires
        call_ensures(ServiceAccountSummary::debug_text, (summary,), r),
        call_ensures(ServiceAccountStatus::debug_text, (status,), name),
    ensures
        r@ == written("ServiceAccountSummary"@, summary_fields(*summary)),
        name@ == status_name(*status),
{
    lemma_summary(*summary);
}

/// Answers with a new secret are written without it.
pub proof fn management_answers_are_written_without_their_secret(
    created: &CreateServiceAccountResponse,
    of_created: String,
    rotated: &RotateServiceAccountSecretResponse,
    of_rotated: String,
)
    requires
        call_ensures(CreateServiceAccountResponse::debug_text, (created,), of_created),
        call_ensures(RotateServiceAccountSecretResponse::debug_text, (rotated,), of_rotated),
    ensures
        of_created@ == written(
            "CreateServiceAccountResponse"@,
            seq![
                (
                    "account"@,
                    written("ServiceAccountSummary"@, summary_fields(created.account)),
                ),
                ("created"@, truth(created.created)),
                ("secret"@, left_out()),
            ],
        ),
        of_rotated@ == written(
            "RotateServiceAccountSecretResponse"@,
            seq![
                (
                    "account"@,
                    written("ServiceAccountSummary"@, summary_fields(rotated.account)),
                ),
                ("rotated"@, truth(rotated.rotated)),
                ("secret"@, left_out()),
            ],
        ),
{
    lemma_summary(created.account);
    lemma_summary(rotated.account);
    lemma_in_quotes(Seq::empty());
    lemma_listed(
        seq![
            ("account"@, created.account.debug_view()),
            ("created"@, truth(created.created)),
            ("secret"@, left_out()),
        ],
    );
    lemma_listed(
        seq![
            ("account"@, rotated.account.debug_view()),
            ("rotated"@, truth(rotated.rotated)),
            ("secret"@, left_out()),
        ],
    );
}

/// Secrets and keys are written without what makes them secret.
pub proof fn secrets_and_keys_are_left_out(
    secret: &CredentialSecret,
    of_secret: String,
    cipher: &ReceiptCipher,
    of_cipher: String,
    active: &ActiveServiceAccount,
    of_active: String,
)
    requires
        call_ensures(CredentialSecret::debug_text, (secret,), of_secret),
        call_ensures(ReceiptCipher::debug_text, (cipher,), of_cipher),
        call_ensures(ActiveServiceAccount::debug_text, (active,), of_active),
    ensures
        of_secret@ == written(
            "CredentialSecret"@,
            seq![("credential_id"@, in_quotes(secret.credential_id@)), ("wire"@, left_out())],
        ),
        of_cipher@ == "ReceiptCipher(<redacted>)"@,
        of_active@ == "ActiveServiceAccount"@ + " { "@ + listed(
            seq![
                ("schema"@, in_quotes(active.config.schema@)),
                ("directory_provider"@, in_quotes(active.config.directory_provider@)),
                ("pepper"@, left_out()),
                ("receipt_cipher"@, of_cipher@),
                ("dummy_verifier"@, left_out()),
            ],
        ) + ", .. }"@,
{
    lemma_in_quotes(secret.credential_id@);
    lemma_in_quotes(active.config.schema@);
    lemma_in_quotes(active.config.directory_provider@);
    lemma_listed(
        seq![("credential_id"@, in_quotes(secret.credential_id@)), ("wire"@, left_out())],
    );
    lemma_listed(
        seq![
            ("schema"@, in_quotes(active.config.schema@)),
            ("directory_provider"@, in_quotes(active.config.directory_provider@)),
            ("pepper"@, left_out()),
            ("receipt_cipher"@, of_cipher@),
            ("dummy_verifier"@, left_out()),
        ],
    );
}

/// A credential is written without its verifier.
pub proof fn credentials_are_written_without_their_verifier(row: &CredentialRow, r: String)
    requires
        call_ensures(CredentialRow::debug_text, (row,), r),
    ensures
        r@ == written(
            "CredentialRow"@,
            seq![
                ("credential_id"@, in_quotes(row.credential_id@)),
                ("service_account_id"@, in_quotes(row.service_account_id@)),
                ("organization_id"@, in_quotes(row.organization_id@)),
                ("subject"@, in_quotes(row.subject@)),
                ("account_status"@, in_quotes(row.account_status@)),
                ("verifier"@, left_out()),
                ("valid_from"@, as_date_time(row.valid_from as int)),
                ("valid_until"@, as_date_time(row.valid_until as int)),
                ("revoked_at"@, as_date_time_if_any(row.revoked_at)),
            ],
        ),
{
    lemma_in_quotes(row.credential_id@);
    lemma_in_quotes(row.service_account_id@);
    lemma_in_quotes(row.organization_id@);
    lemma_in_quotes(row.subject@);
    lemma_in_quotes(row.account_status@);
    lemma_listed(
        seq![
            ("credential_id"@, in_quotes(row.credential_id@)),
            ("service_account_id"@, in_quotes(row.service_account_id@)),
            ("organization_id"@, in_quotes(row.organization_id@)),
            ("subject"@, in_quotes(row.subject@)),
            ("account_status"@, in_quotes(row.account_status@)),
            ("verifier"@, left_out()),
            ("valid_from"@, as_date_time(row.valid_from as int)),
            ("valid_until"@, as_date_time(row.valid_until as int)),
            ("revoked_at"@, as_date_time_if_any(row.revoked_at)),
        ],
    );
}

/// What became of a command is written without its receipt.
pub proof fn claims_are_written_without_their_receipt(claim: &CommandClaim, r: String)
    requires
        call_ensures(CommandClaim::debug_text, (claim,), r),
    ensures
        match *claim {
            CommandClaim::Claimed => r@ == "Claimed"@,
            CommandClaim::CompletedSuccess { .. } => r@ == "CompletedSuccess"@ + " { "@
                + "receipt"@ + ": "@ + left_out() + " }"@,
            CommandClaim::CompletedError(code) => r@ == "CompletedError("@ + in_quotes(code@)
                + ")"@,
            CommandClaim::Conflict => r@ == "Conflict"@,
            CommandClaim::InProgress => r@ == "InProgress"@,
        },
{
    if let CommandClaim::CompletedError(code) = claim {
        lemma_in_quotes(code@);
    }
    lemma_in_quotes(Seq::empty());
    let fields = seq![("receipt"@, left_out())];
    lemma_listed(fields);
    assert(listed(fields) == "receipt"@ + ": "@ + left_out());
    assert("CompletedSuccess"@ + " { "@ + listed(fields) + " }"@ =~= "CompletedSuccess"@ + " { "@
        + "receipt"@ + ": "@ + left_out() + " }"@);
}

} // verus!
