//! Textual form of values for diagnostics. Sensitive fields are written as
//! `"<redacted>"` whatever they hold.

use vstd::prelude::*;
use vstd::string::*;

use crate::text::{holds_text, lemma_holds_inside, lemma_holds_middle};

verus! {

/// Printable ASCII without quotes and backslashes.
pub open spec fn plain(text: Seq<char>) -> bool {
    forall|i: int|
        0 <= i < text.len() ==> {
            &&& ' ' <= #[trigger] text[i] <= '~'
            &&& text[i] != '"' && text[i] != '\'' && text[i] != '\\'
        }
}

/// What the standard library's `Debug` writes for a text that is not plain: the
/// text in double quotes, with special characters escaped.
pub uninterp spec fn escaped_text(text: Seq<char>) -> Seq<char>;

/// What the standard library's `Debug` writes for a text.
pub open spec fn quoted_text(text: Seq<char>) -> Seq<char> {
    if plain(text) {
        seq!['"'] + text + seq!['"']
    } else {
        escaped_text(text)
    }
}

/// Formats `text` with the standard library's `Debug` for `str`. A plain text is
/// put in double quotes. Of any other text nothing is claimed but that the
/// outcome depends on the text alone.
#[verifier::external_body]
fn quote(text: &str) -> (r: String)
    ensures
        r@ == (if plain(text@) {
            seq!['"'] + text@ + seq!['"']
        } else {
            escaped_text(text@)
        }),
{
    format!("{:?}", text)
}

/// The form of a text field.
pub fn quoted(text: &str) -> (r: String)
    ensures
        r@ == quoted_text(text@),
{
    quote(text)
}

pub open spec fn redacted_text() -> Seq<char> {
    quoted_text("<redacted>"@)
}

/// The form of a sensitive field.
pub fn redacted() -> (r: String)
    ensures
        r@ == redacted_text(),
{
    quote("<redacted>")
}

pub open spec fn optional_text(text: Option<Seq<char>>) -> Seq<char> {
    match text {
        None => "None"@,
        Some(t) => "Some("@ + quoted_text(t) + ")"@,
    }
}

/// The form of a nullable text field.
pub fn quoted_option(text: &Option<String>) -> (r: String)
    ensures
        r@ == optional_text(text.deep_view()),
{
    match text {
        None => "None".to_string(),
        Some(t) => {
            let mut out: String = "Some(".to_string();
            out.append(quote(t.as_str()).as_str());
            out.append(")");
            out
        },
    }
}

pub open spec fn bool_text(b: bool) -> Seq<char> {
    if b {
        "true"@
    } else {
        "false"@
    }
}

pub fn debug_bool(b: bool) -> (r: String)
    ensures
        r@ == bool_text(b),
{
    if b {
        "true".to_string()
    } else {
        "false".to_string()
    }
}

/// What stands for a sensitive field.
pub proof fn redacted_text_is_quoted()
    ensures
        redacted_text() == seq!['"'] + "<redacted>"@ + seq!['"'],
{
    reveal_strlit("<redacted>");
    assert(plain("<redacted>"@));
}

/// Diagnostics of a value with a sensitive field show that something was left
/// out.
pub proof fn redaction_is_shown(name: Seq<char>, fields: Seq<(Seq<char>, Seq<char>)>, k: int)
    requires
        0 <= k < fields.len(),
        fields[k].1 == redacted_text(),
    ensures
        holds_text(struct_text(name, fields), "<redacted>"@),
        holds_text(open_struct_text(name, fields), "<redacted>"@),
{
    redacted_text_is_quoted();
    lemma_holds_middle(seq!['"'], "<redacted>"@, seq!['"']);
    lemma_fields_hold(fields, k, "<redacted>"@);
    let body = fields_text(fields);
    lemma_holds_inside(name + " { "@, body, " }"@, "<redacted>"@);
    lemma_holds_inside(name + " { "@, body, ", .. }"@, "<redacted>"@);
}

proof fn lemma_fields_hold(fields: Seq<(Seq<char>, Seq<char>)>, k: int, part: Seq<char>)
    requires
        0 <= k < fields.len(),
        holds_text(fields[k].1, part),
    ensures
        holds_text(fields_text(fields), part),
    decreases fields.len(),
{
    let head = fields_text(fields.drop_last());
    let separator = if fields.len() == 1 {
        Seq::empty()
    } else {
        ", "@
    };
    let name = fields.last().0;
    let value = fields.last().1;
    if k == fields.len() - 1 {
        let before = head + separator + name + ": "@;
        lemma_holds_inside(before, value, Seq::empty(), part);
        assert(before + value + Seq::<char>::empty() =~= fields_text(fields));
    } else {
        assert(fields.drop_last()[k] == fields[k]);
        lemma_fields_hold(fields.drop_last(), k, part);
        let after = separator + name + ": "@ + value;
        lemma_holds_inside(Seq::empty(), head, after, part);
        assert(Seq::<char>::empty() + head + after =~= fields_text(fields));
    }
}

/// `name: value` pairs separated by commas.
pub open spec fn fields_text(fields: Seq<(Seq<char>, Seq<char>)>) -> Seq<char>
    decreases fields.len(),
{
    if fields.len() == 0 {
        Seq::empty()
    } else {
        let head = fields_text(fields.drop_last());
        let separator = if fields.len() == 1 {
            Seq::empty()
        } else {
            ", "@
        };
        head + separator + fields.last().0 + ": "@ + fields.last().1
    }
}

/// `Name { field: value, field: value }`.
pub open spec fn struct_text(name: Seq<char>, fields: Seq<(Seq<char>, Seq<char>)>) -> Seq<char> {
    name + " { "@ + fields_text(fields) + " }"@
}

pub open spec fn field_views(fields: Seq<(&str, String)>) -> Seq<(Seq<char>, Seq<char>)> {
    Seq::new(fields.len(), |i: int| (fields[i].0@, fields[i].1@))
}

fn debug_fields(fields: &Vec<(&str, String)>) -> (r: String)
    ensures
        r@ == fields_text(field_views(fields@)),
{
    let mut body: String = String::new();
    let ghost views = field_views(fields@);
    let mut i: usize = 0;
    assert(views.take(0) =~= Seq::empty());
    while i < fields.len()
        invariant
            i <= fields.len(),
            views == field_views(fields@),
            body@ == fields_text(views.take(i as int)),
        decreases fields.len() - i,
    {
        proof {
            assert(views.take(i + 1).drop_last() =~= views.take(i as int));
            assert(views.take(i + 1).last() == views[i as int]);
        }
        let ghost before = body@;
        if i > 0 {
            body.append(", ");
        }
        assert(i == 0 ==> body@ =~= before + Seq::<char>::empty());
        body.append(fields[i].0);
        body.append(": ");
        body.append(fields[i].1.as_str());
        assert(body@ =~= fields_text(views.take(i + 1)));
        i += 1;
    }
    assert(views.take(i as int) =~= views);
    body
}

/// Writes `Name { field: value, field: value }`.
pub fn debug_struct(name: &str, fields: &Vec<(&str, String)>) -> (r: String)
    ensures
        r@ == struct_text(name@, field_views(fields@)),
{
    let mut out: String = name.to_string();
    out.append(" { ");
    out.append(debug_fields(fields).as_str());
    out.append(" }");
    out
}

/// `Name { field: value, .. }` of a value that has more fields than are shown.
pub open spec fn open_struct_text(name: Seq<char>, fields: Seq<(Seq<char>, Seq<char>)>) -> Seq<char> {
    name + " { "@ + fields_text(fields) + ", .. }"@
}

/// Writes `Name { field: value, .. }`, with a note that fields are left out.
pub fn debug_open_struct(name: &str, fields: &Vec<(&str, String)>) -> (r: String)
    ensures
        r@ == open_struct_text(name@, field_views(fields@)),
{
    let mut out: String = name.to_string();
    out.append(" { ");
    out.append(debug_fields(fields).as_str());
    out.append(", .. }");
    out
}

} // verus!
