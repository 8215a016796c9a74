//! What texts, numbers, instants and secrets are taken for.

use vstd::prelude::*;
use vstd::string::*;
use vstd::utf8::*;

use crate::admission::{receipt_binding, seal_receipt};
use crate::authorization::valid_subject;
use crate::config::{valid_authority, valid_secret_reference};
use crate::crypto::{
    aes256_gcm_opened, argon2_accepts, argon2id_phc, base64_digit, base64_length_and_alphabet,
    base64_text, bounded_lanes, credential_id, digest, encode_base64, hash_secret,
    hash_secret_with_salt, named_credential, opened_receipt, phc_parts, random_material,
    sha256_digest, verify_secret, CredentialSecret, ReceiptCipher,
};
use crate::error::{CryptoError, ServiceAccountPluginError};
use crate::instant::{
    earliest, format_time, is_calendar_instant, later, parse_time, rfc3339_instant, rfc3339_text,
    to_stored,
};
use crate::laws::{identifier, kept_as, letter_or_digit, number, spells, spells_natural, url_safe};
use crate::management::{
    identifier as identifier_from, identifier_of, parse_page_limit, parse_revision, random_id,
    valid_idempotency_key,
};
use crate::rows::CommandKey;
use crate::text::{
    copy_bytes, copy_texts, decimal, decimal_text, digits, parse_positive, precedes, same_bytes,
    same_text, is_base64_text, text_before, text_len, to_lowercase, trim, trim_end, trim_start,
    valid_name, valid_token, white_space,
};

verus! {

/// Identifiers are letters, digits and four signs, and are not too long: at most
/// 256 characters for subjects and references to secrets, 128 for idempotency
/// keys.
pub proof fn identifiers_are_checked(
    value: &str,
    max: usize,
    token: bool,
    authority: bool,
    subject: bool,
    reference: bool,
    key: bool,
)
    requires
        call_ensures(valid_token, (value, max), token),
        call_ensures(valid_authority, (value, max), authority),
        call_ensures(valid_subject, (value,), subject),
        call_ensures(valid_secret_reference, (value,), reference),
        call_ensures(valid_idempotency_key, (value,), key),
    ensures
        token == identifier(value@, max as int),
        authority == identifier(value@, max as int),
        subject == identifier(value@, 256),
        reference == identifier(value@, 256),
        key == identifier(value@, 128),
{
}

/// Texts, and bytes, are equal or they are not; a copy is equal.
pub proof fn equality_is_exact(
    a: &str,
    b: &str,
    same: bool,
    c: &[u8],
    d: &[u8],
    alike: bool,
    copied: Vec<u8>,
    len: usize,
)
    requires
        call_ensures(same_text, (a, b), same),
        call_ensures(same_bytes, (c, d), alike),
        call_ensures(copy_bytes, (c,), copied),
        call_ensures(text_len, (a,), len),
    ensures
        same == (a@ == b@),
        alike == (c@ == d@),
        copied@ == c@,
        len == encode_utf8(a@).len(),
{
}

/// A character that is trimmed off: Unicode's white space.
pub open spec fn blank(c: char) -> bool {
    ||| '\u{9}' <= c <= '\u{d}'
    ||| c == ' '
    ||| c == '\u{85}'
    ||| c == '\u{a0}'
    ||| c == '\u{1680}'
    ||| '\u{2000}' <= c <= '\u{200a}'
    ||| c == '\u{2028}'
    ||| c == '\u{2029}'
    ||| c == '\u{202f}'
    ||| c == '\u{205f}'
    ||| c == '\u{3000}'
}

pub open spec fn all_blank(text: Seq<char>) -> bool {
    forall|i: int| 0 <= i < text.len() ==> blank(#[trigger] text[i])
}

proof fn lemma_blank(c: char)
    ensures
        white_space(c) == blank(c),
{
}

proof fn lemma_trim_start(text: Seq<char>) -> (cut: int)
    ensures
        0 <= cut <= text.len(),
        all_blank(text.take(cut)),
        trim_start(text) == text.skip(cut),
        trim_start(text).len() > 0 ==> !blank(trim_start(text)[0]),
    decreases text.len(),
{
    if text.len() > 0 && white_space(text[0]) {
        let rest = text.drop_first();
        let cut = lemma_trim_start(rest);
        assert(text.skip(cut + 1) =~= rest.skip(cut));
        assert forall|i: int| 0 <= i < cut + 1 implies blank(#[trigger] text.take(cut + 1)[i]) by {
            assert(text.take(cut + 1)[i] == text[i]);
            lemma_blank(text[0]);
            if i > 0 {
                assert(rest.take(cut)[i - 1] == text[i]);
            }
        }
        cut + 1
    } else {
        assert(text.skip(0) =~= text);
        0
    }
}

proof fn lemma_trim_end(text: Seq<char>) -> (left: int)
    ensures
        0 <= left <= text.len(),
        all_blank(text.skip(left)),
        trim_end(text) == text.take(left),
        trim_end(text).len() > 0 ==> !blank(trim_end(text).last()),
    decreases text.len(),
{
    if text.len() > 0 && white_space(text.last()) {
        let rest = text.drop_last();
        let left = lemma_trim_end(rest);
        assert(text.take(left) =~= rest.take(left));
        assert forall|i: int| 0 <= i < text.len() - left implies blank(
            #[trigger] text.skip(left)[i],
        ) by {
            assert(text.skip(left)[i] == text[left + i]);
            lemma_blank(text.last());
            if i < rest.len() - left {
                assert(rest.skip(left)[i] == text[left + i]);
            }
        }
        left
    } else {
        assert(text.take(text.len() as int) =~= text);
        text.len() as int
    }
}

/// Trimming takes off what is blank at both ends, all of it and nothing else.
pub proof fn trimming_takes_the_blanks_off_both_ends(value: &str, r: String) -> (parts: (
    Seq<char>,
    Seq<char>,
))
    requires
        call_ensures(trim, (value,), r),
    ensures
        value@ == parts.0 + r@ + parts.1,
        all_blank(parts.0),
        all_blank(parts.1),
        r@.len() > 0 ==> !blank(r@[0]) && !blank(r@.last()),
{
    let cut = lemma_trim_start(value@);
    let middle = trim_start(value@);
    let left = lemma_trim_end(middle);
    assert(value@ =~= value@.take(cut) + middle.take(left) + middle.skip(left));
    (value@.take(cut), middle.skip(left))
}

/// A display name is 1 to 128 printable characters of ASCII, once trimmed.
pub proof fn names_are_short_and_printable(value: &str, name: String, valid: bool)
    requires
        call_ensures(trim, (value,), name),
        call_ensures(valid_name, (value,), valid),
    ensures
        valid <==> 1 <= name@.len() <= 128 && forall|i: int|
            0 <= i < name@.len() ==> ' ' <= #[trigger] name@[i] <= '~',
{
}

/// Names are keyed by their lower-case form: letters of ASCII lose their case,
/// and nothing else changes.
pub proof fn lower_case_changes_letters_only(value: &str, r: String, i: int)
    requires
        call_ensures(to_lowercase, (value,), r),
        0 <= i < value@.len(),
    ensures
        r@.len() == value@.len(),
        'A' <= value@[i] <= 'Z' ==> r@[i] as int == value@[i] as int + 32,
        !('A' <= value@[i] <= 'Z') ==> r@[i] == value@[i],
{
}

proof fn lemma_digits_spell(n: nat)
    ensures
        spells_natural(digits(n), n as int),
        n > 0 ==> digits(n)[0] != '0',
    decreases n,
{
    reveal_with_fuel(number, 2);
    if n < 10 {
        assert(digits(n).drop_last() =~= Seq::<char>::empty());
    } else {
        let rest = digits(n / 10);
        lemma_digits_spell(n / 10);
        assert(digits(n).drop_last() =~= rest);
        assert forall|i: int| 0 <= i < digits(n).len() implies '0' <= #[trigger] digits(n)[i] <= '9' by {
            if i < rest.len() {
                assert(digits(n)[i] == rest[i]);
            }
        }
        assert(digits(n)[0] == rest[0]);
    }
}

pub proof fn lemma_decimal_spells(n: int)
    ensures
        spells(decimal_text(n), n),
{
    if n < 0 {
        lemma_digits_spell((-n) as nat);
        assert(decimal_text(n).skip(1) =~= digits((-n) as nat));
    } else {
        lemma_digits_spell(n as nat);
    }
}

/// Only one text spells a number.
pub proof fn lemma_spelled_once(text: Seq<char>, n: nat)
    requires
        spells_natural(text, n as int),
    ensures
        text == digits(n),
    decreases text.len(),
{
    reveal_with_fuel(number, 2);
    let d = text.last() as int - '0' as int;
    assert('0' <= text[text.len() - 1] <= '9');
    if text.len() == 1 {
        assert(text.drop_last() =~= Seq::<char>::empty());
        assert(text =~= digits(n));
    } else {
        let rest = text.drop_last();
        assert forall|i: int| 0 <= i < rest.len() implies '0' <= #[trigger] rest[i] <= '9' by {
            assert(rest[i] == text[i]);
        }
        assert(rest[0] == text[0]);
        lemma_number_positive(rest);
        let m = number(rest) as nat;
        assert(n == m * 10 + d);
        lemma_spelled_once(rest, m);
        assert(n / 10 == m && n % 10 == d);
        assert(text =~= rest.push(text.last()));
    }
}

proof fn lemma_number_positive(text: Seq<char>)
    requires
        text.len() >= 1,
        forall|i: int| 0 <= i < text.len() ==> '0' <= #[trigger] text[i] <= '9',
        text[0] != '0',
    ensures
        number(text) >= 1,
    decreases text.len(),
{
    reveal_with_fuel(number, 2);
    assert('0' <= text[text.len() - 1] <= '9');
    if text.len() == 1 {
        assert(text.drop_last() =~= Seq::<char>::empty());
    } else {
        let rest = text.drop_last();
        assert forall|i: int| 0 <= i < rest.len() implies '0' <= #[trigger] rest[i] <= '9' by {
            assert(rest[i] == text[i]);
        }
        assert(rest[0] == text[0]);
        lemma_number_positive(rest);
    }
}

/// Numbers are shown in decimal digits.
pub proof fn numbers_are_spelled(n: i64, r: String)
    requires
        call_ensures(decimal, (n,), r),
    ensures
        spells(r@, n as int),
{
    lemma_decimal_spells(n as int);
}

/// A positive number up to a bound is read exactly from the text that spells it.
pub proof fn positive_numbers_are_read_as_spelled(value: &str, bound: u64, r: Option<u64>)
    requires
        call_ensures(parse_positive, (value, bound), r),
    ensures
        match r {
            Some(n) => 1 <= n <= bound && spells(value@, n as int),
            None => forall|n: int| 1 <= n <= bound ==> !#[trigger] spells(value@, n),
        },
{
    match r {
        Some(n) => lemma_decimal_spells(n as int),
        None => {
            assert forall|n: int| 1 <= n <= bound implies !#[trigger] spells(value@, n) by {
                if spells(value@, n) {
                    lemma_spelled_once(value@, n as nat);
                    assert(decimal_text(n) == value@);
                }
            }
        },
    }
}

/// A revision is read exactly from the text that spells it, from 1 on; a page
/// size from 1 to the given bound.
pub proof fn revisions_and_page_sizes_are_read_as_spelled(
    value: &str,
    revision: Option<i64>,
    max: u32,
    limit: Option<u32>,
)
    requires
        call_ensures(parse_revision, (value,), revision),
        call_ensures(parse_page_limit, (value, max), limit),
    ensures
        match revision {
            Some(n) => n >= 1 && spells(value@, n as int),
            None => forall|n: int|
                1 <= n <= 0x7fff_ffff_ffff_ffff ==> !#[trigger] spells(value@, n),
        },
        match limit {
            Some(n) => 1 <= n <= max && spells(value@, n as int),
            None => forall|n: int| 1 <= n <= max ==> !#[trigger] spells(value@, n),
        },
{
    match revision {
        Some(n) => {
            assert(exists|m: i64| m >= 1 && #[trigger] decimal_text(m as int) == value@);
            lemma_decimal_spells(n as int);
        },
        None => {
            assert forall|n: int|
                1 <= n <= 0x7fff_ffff_ffff_ffff implies !#[trigger] spells(value@, n) by {
                if spells(value@, n) {
                    lemma_spelled_once(value@, n as nat);
                    assert(decimal_text((n as i64) as int) == value@);
                }
            }
        },
    }
    match limit {
        Some(n) => lemma_decimal_spells(n as int),
        None => {
            assert forall|n: int| 1 <= n <= max implies !#[trigger] spells(value@, n) by {
                if spells(value@, n) {
                    lemma_spelled_once(value@, n as nat);
                    assert(decimal_text(n) == value@);
                }
            }
        },
    }
}

/// Where two texts first differ, the greater character decides which comes
/// first; a text comes before its continuations.
pub open spec fn differs_first_at(a: Seq<char>, b: Seq<char>, k: int) -> bool {
    &&& 0 <= k <= a.len()
    &&& k < b.len()
    &&& forall|i: int| 0 <= i < k ==> #[trigger] a[i] == b[i]
    &&& k == a.len() || a[k] < b[k]
}

proof fn lemma_differs(a: Seq<char>, b: Seq<char>, k: int)
    requires
        differs_first_at(a, b, k),
    ensures
        text_before(a, b),
    decreases k,
{
    if k > 0 {
        assert(a[0] == b[0]);
        let x = a.drop_first();
        let y = b.drop_first();
        assert forall|i: int| 0 <= i < k - 1 implies #[trigger] x[i] == y[i] by {
            assert(a[i + 1] == b[i + 1]);
        }
        lemma_differs(x, y, k - 1);
    }
}

proof fn lemma_before_differs(a: Seq<char>, b: Seq<char>) -> (k: int)
    requires
        text_before(a, b),
    ensures
        differs_first_at(a, b, k),
    decreases a.len(),
{
    if a.len() == 0 || a[0] != b[0] {
        0
    } else {
        let k = lemma_before_differs(a.drop_first(), b.drop_first());
        assert forall|i: int| 0 <= i < k + 1 implies #[trigger] a[i] == b[i] by {
            if i > 0 {
                assert(a.drop_first()[i - 1] == b.drop_first()[i - 1]);
            }
        }
        k + 1
    }
}

/// Identifiers are ordered character by character.
pub proof fn texts_are_ordered_by_their_characters(a: &str, b: &str, r: bool)
    requires
        call_ensures(precedes, (a, b), r),
    ensures
        r <==> exists|k: int| #[trigger] differs_first_at(a@, b@, k),
{
    if r {
        let k = lemma_before_differs(a@, b@);
        assert(differs_first_at(a@, b@, k));
    }
    if exists|k: int| #[trigger] differs_first_at(a@, b@, k) {
        let k = choose|k: int| #[trigger] differs_first_at(a@, b@, k);
        lemma_differs(a@, b@, k);
    }
}

/// Seconds are counted in full, the earlier of two instants is one of them, and
/// the store keeps whole microseconds.
pub proof fn instants_are_counted_in_nanoseconds(
    t: i128,
    seconds: u64,
    moved: i128,
    u: i128,
    first: i128,
    stored: i128,
    calendar: bool,
)
    requires
        call_ensures(later, (t, seconds), moved),
        call_ensures(earliest, (t, u), first),
        call_ensures(to_stored, (t,), stored),
        call_ensures(is_calendar_instant, (t,), calendar),
    ensures
        moved - t == seconds * 1_000_000_000,
        first <= t && first <= u && (first == t || first == u),
        kept_as(t as int, stored as int),
        calendar == (-40_000_000_000_000_000_000_000 <= t <= 40_000_000_000_000_000_000_000),
{
}

/// Instants of the years 0 to 9999 have a textual form, and no others. A text is
/// read as the instant that it denotes.
pub proof fn instants_have_a_textual_form(
    t: i128,
    formatted: Result<String, ServiceAccountPluginError>,
    text: &str,
    parsed: Option<i128>,
)
    requires
        call_ensures(format_time, (t,), formatted),
        call_ensures(parse_time, (text,), parsed),
    ensures
        match formatted {
            Ok(text) => {
                &&& -62_167_219_200_000_000_000 <= t < 253_402_300_800_000_000_000
                &&& text@ == rfc3339_text(t as int)
            },
            Err(error) => {
                &&& !(-62_167_219_200_000_000_000 <= t < 253_402_300_800_000_000_000)
                &&& error is FormatTime
            },
        },
        parsed is Some == rfc3339_instant(text@) is Some,
        parsed matches Some(instant) ==> rfc3339_instant(text@) == Some(instant as int),
{
}

/// `secret` is `lenso_sa_`, the identifier, a dot, and the material.
pub open spec fn is_secret_of(secret: Seq<char>, id: Seq<char>, material: Seq<char>) -> bool {
    &&& secret == "lenso_sa_"@ + id + "."@ + material
    &&& 1 <= id.len() <= 128
    &&& url_safe(id)
    &&& 32 <= material.len() <= 128
    &&& url_safe(material)
}

/// A secret names the credential between its prefix and its dot, if its parts
/// have the right length and alphabet; any other text names none.
pub proof fn secrets_name_their_credential(
    secret: &str,
    r: Option<&str>,
    id: Seq<char>,
    material: Seq<char>,
)
    requires
        call_ensures(credential_id, (secret,), r),
    ensures
        is_secret_of(secret@, id, material) ==> (r matches Some(named) && named@ == id),
        r matches Some(named) ==> exists|rest: Seq<char>| #[trigger]
            is_secret_of(secret@, named@, rest),
{
    lemma_named(secret@, id, material);
}

/// Which credential a text names, in other words.
pub proof fn lemma_named(secret: Seq<char>, id: Seq<char>, material: Seq<char>)
    ensures
        is_secret_of(secret, id, material) ==> named_credential(secret) == Some(id),
        named_credential(secret) matches Some(named) ==> exists|rest: Seq<char>| #[trigger]
            is_secret_of(secret, named, rest),
{
    reveal_strlit("lenso_sa_");
    reveal_strlit(".");
    let prefix = "lenso_sa_"@;
    if is_secret_of(secret, id, material) {
        let rest = secret.skip(9);
        assert(prefix.is_prefix_of(secret));
        assert(rest =~= id + "."@ + material);
        let n = id.len() as int;
        assert(rest[n] == '.');
        rest.index_of_first_ensures('.');
        assert forall|i: int| 0 <= i < n implies rest[i] != '.' by {
            assert(rest[i] == id[i]);
        }
        assert(rest.index_of_first('.') == Some(n));
        assert(rest.take(n) =~= id);
        assert(rest.skip(n + 1) =~= material);
    }
    if named_credential(secret) is Some {
        let rest = secret.skip(9);
        rest.index_of_first_ensures('.');
        let dot = rest.index_of_first('.').unwrap();
        assert(secret =~= prefix + rest.take(dot) + "."@ + rest.skip(dot + 1));
        assert(is_secret_of(secret, named_credential(secret).unwrap(), rest.skip(dot + 1)));
    }
}

/// A new secret has the length and the form of a secret, and names its own
/// credential.
pub proof fn new_secrets_have_their_form(r: Result<CredentialSecret, CryptoError>)
    requires
        call_ensures(CredentialSecret::generate, (), r),
    ensures
        r matches Err(error) ==> error is Random,
        r matches Ok(secret) ==> {
            let raw = secret.raw();
            &&& secret.credential_id@.len() == 28
            &&& secret.credential_id@.take(4) == "sac_"@
            &&& raw.len() == 81
            &&& is_secret_of(raw, secret.credential_id@, raw.skip(38))
        },
{
    if let Ok(secret) = r {
        reveal_strlit("lenso_sa_");
        reveal_strlit("sac_");
        reveal_strlit(".");
        let raw = secret.raw();
        assert(raw =~= "lenso_sa_"@ + secret.credential_id@ + "."@ + raw.skip(38));
        assert(secret.credential_id@.take(4) =~= "sac_"@);
    }
}

/// A secret is made of its random bytes: the identifier shows the first ones in
/// base64, and the secret shows the identifier and the others.
pub proof fn secrets_show_their_random_bytes(
    id: &[u8],
    material: &[u8],
    secret: CredentialSecret,
    id_text: String,
    material_text: String,
)
    requires
        id@.len() == 18,
        material@.len() == 32,
        call_ensures(CredentialSecret::from_random, (id, material), secret),
        call_ensures(encode_base64, (id,), id_text),
        call_ensures(encode_base64, (material,), material_text),
    ensures
        secret.credential_id@ == "sac_"@ + id_text@,
        secret.raw() == "lenso_sa_"@ + secret.credential_id@ + "."@ + material_text@,
        is_secret_of(secret.raw(), secret.credential_id@, material_text@),
{
    reveal_strlit("lenso_sa_");
    reveal_strlit("sac_");
    reveal_strlit(".");
    base64_length_and_alphabet(id@);
    base64_length_and_alphabet(material@);
    let own = secret.credential_id@;
    assert forall|i: int| 0 <= i < own.len() implies letter_or_digit(#[trigger] own[i]) || own[i]
        == '-' || own[i] == '_' by {
        if i >= 4 {
            assert(own[i] == id_text@[i - 4]);
        }
    }
}

/// What is hashed is the secret, a zero and the pepper, and a verifier accepts
/// exactly what Argon2 accepts of these.
pub proof fn secrets_are_hashed_with_their_pepper(
    secret: &str,
    pepper: &[u8],
    salt: &[u8],
    hashed: Result<String, CryptoError>,
    phc: &str,
    accepted: bool,
)
    requires
        call_ensures(hash_secret_with_salt, (secret, pepper, salt), hashed),
        call_ensures(verify_secret, (secret, pepper, phc), accepted),
    ensures
        ({
            let input = encode_utf8(secret@) + seq![0u8] + pepper@;
            &&& hashed is Ok <==> input.len() < 0x1_0000_0000
            &&& hashed matches Ok(text) ==> text@ == argon2id_phc(input, salt@)
            &&& accepted <==> {
                &&& phc_parts(phc@) is Some
                &&& phc_parts(phc@).unwrap().0 == "argon2id"@
                &&& bounded_lanes(phc_parts(phc@).unwrap().1)
                &&& argon2_accepts(input, phc@)
            }
        }),
{
}

/// Intents and keys are hashed with SHA-256, and receipts open to what was sealed
/// under the same key, nonce and binding.
pub proof fn receipts_open_to_what_was_sealed(
    bytes: &[u8],
    hash: Vec<u8>,
    cipher: ReceiptCipher,
    sealing: &ReceiptCipher,
    receipt: &[u8],
    aad: &[u8],
    nonce: Vec<u8>,
    ciphertext: Vec<u8>,
    opening: &ReceiptCipher,
    with_nonce: &[u8],
    sealed: &[u8],
    bound: &[u8],
    opened: Result<Vec<u8>, CryptoError>,
)
    requires
        call_ensures(digest, (bytes,), hash),
        call_ensures(ReceiptCipher::derive, (bytes,), cipher),
        call_ensures(ReceiptCipher::encrypt, (sealing, receipt, aad), Ok((nonce, ciphertext))),
        call_ensures(ReceiptCipher::decrypt, (opening, with_nonce, sealed, bound), opened),
    ensures
        hash@ == sha256_digest(bytes@),
        cipher.key() == sha256_digest(bytes@),
        opening.key() == sealing.key() && with_nonce@ == nonce@ && sealed@ == ciphertext@ && bound@
            == aad@ ==> (opened matches Ok(text) && text@ == receipt@),
        with_nonce@.len() != 12 ==> opened matches Err(CryptoError::ReceiptDecryption),
        with_nonce@.len() == 12 ==> (opened matches Ok(text) ==> aes256_gcm_opened(
            opening.key(),
            with_nonce@,
            sealed@,
            bound@,
        ) == Some(text@)),
        with_nonce@.len() == 12 ==> (opened is Err <==> aes256_gcm_opened(
            opening.key(),
            with_nonce@,
            sealed@,
            bound@,
        ) is None),
{
}

/// Under a given nonce a receipt is sealed so that it opens to itself, unless it
/// or what it is bound to is beyond what the cipher takes.
pub proof fn receipts_are_sealed_under_their_nonce(
    cipher: &ReceiptCipher,
    nonce: &[u8],
    receipt: &[u8],
    aad: &[u8],
    r: Result<Vec<u8>, CryptoError>,
)
    requires
        nonce@.len() == 12,
        call_ensures(ReceiptCipher::encrypt_with_nonce, (cipher, nonce, receipt, aad), r),
    ensures
        r is Ok <==> receipt@.len() <= 0x10_0000_0000 && aad@.len() <= 0x10_0000_0000,
        r matches Err(error) ==> error is ReceiptEncryption,
        r matches Ok(ciphertext) ==> aes256_gcm_opened(cipher.key(), nonce@, ciphertext@, aad@)
            == Some(receipt@),
{
}

/// The six bits that a character of URL-safe base64 stands for.
pub open spec fn six_bits(c: char) -> int {
    if 'A' <= c <= 'Z' {
        c as int - 'A' as int
    } else if 'a' <= c <= 'z' {
        c as int - 'a' as int + 26
    } else if '0' <= c <= '9' {
        c as int - '0' as int + 52
    } else if c == '-' {
        62
    } else {
        63
    }
}

/// Base64 can be read back byte by byte, has no padding, and keeps to the
/// URL-safe alphabet.
pub proof fn base64_is_read_back(bytes: &[u8], text: String, i: int)
    requires
        call_ensures(encode_base64, (bytes,), text),
        0 <= i < bytes@.len(),
    ensures
        url_safe(text@),
        text@.len() == (bytes@.len() * 4 + 2) / 3,
        ({
            let at = i / 3 * 4;
            &&& i % 3 == 0 ==> bytes@[i] == six_bits(text@[at]) * 4 + six_bits(text@[at + 1]) / 16
            &&& i % 3 == 1 ==> bytes@[i] == six_bits(text@[at + 1]) % 16 * 16 + six_bits(
                text@[at + 2],
            ) / 4
            &&& i % 3 == 2 ==> bytes@[i] == six_bits(text@[at + 2]) % 4 * 64 + six_bits(
                text@[at + 3],
            )
        }),
{
    lemma_base64_read_back(bytes@, i);
}

proof fn lemma_six_bits(n: int)
    requires
        0 <= n < 64,
    ensures
        six_bits(base64_digit(n)) == n,
{
}

/// The first three bytes are read back from the first four characters.
proof fn lemma_base64_head(bytes: Seq<u8>)
    requires
        bytes.len() > 0,
    ensures
        ({
            let text = base64_text(bytes);
            &&& bytes[0] == six_bits(text[0]) * 4 + six_bits(text[1]) / 16
            &&& bytes.len() > 1 ==> bytes[1] == six_bits(text[1]) % 16 * 16 + six_bits(text[2]) / 4
            &&& bytes.len() > 2 ==> bytes[2] == six_bits(text[2]) % 4 * 64 + six_bits(text[3])
        }),
{
    let a = bytes[0] as int;
    let b = bytes[1] as int;
    let c = bytes[2] as int;
    lemma_six_bits(a / 4);
    lemma_six_bits(a % 4 * 16);
    lemma_six_bits(a % 4 * 16 + b / 16);
    lemma_six_bits(b % 16 * 4);
    lemma_six_bits(b % 16 * 4 + c / 64);
    lemma_six_bits(c % 64);
}

proof fn lemma_base64_read_back(bytes: Seq<u8>, i: int)
    requires
        0 <= i < bytes.len(),
    ensures
        ({
            let text = base64_text(bytes);
            let at = i / 3 * 4;
            &&& i % 3 == 0 ==> bytes[i] == six_bits(text[at]) * 4 + six_bits(text[at + 1]) / 16
            &&& i % 3 == 1 ==> bytes[i] == six_bits(text[at + 1]) % 16 * 16 + six_bits(text[at + 2])
                / 4
            &&& i % 3 == 2 ==> bytes[i] == six_bits(text[at + 2]) % 4 * 64 + six_bits(text[at + 3])
        }),
    decreases bytes.len(),
{
    if i < 3 {
        lemma_base64_head(bytes);
    } else {
        let text = base64_text(bytes);
        let rest = bytes.skip(3);
        let tail = base64_text(rest);
        lemma_base64_read_back(rest, i - 3);
        base64_length_and_alphabet(rest);
        let at = i / 3 * 4;
        assert((i - 3) / 3 == i / 3 - 1);
        assert((i - 3) % 3 == i % 3);
        assert(rest[i - 3] == bytes[i]);
        lemma_base64_tail(bytes, at);
        lemma_base64_tail(bytes, at + 1);
        if i % 3 >= 1 {
            lemma_base64_tail(bytes, at + 2);
        }
        if i % 3 == 2 {
            lemma_base64_tail(bytes, at + 3);
        }
    }
}

proof fn lemma_base64_tail(bytes: Seq<u8>, k: int)
    requires
        bytes.len() > 3,
        4 <= k < 4 + base64_text(bytes.skip(3)).len(),
    ensures
        base64_text(bytes)[k] == base64_text(bytes.skip(3))[k - 4],
{
}

/// An identifier is its prefix and 24 random bytes in base64; made of given
/// bytes, it is the prefix and these bytes in base64.
pub proof fn new_identifiers_have_their_form(
    prefix: &str,
    bytes: &[u8],
    encoded: String,
    made: String,
    r: Result<String, ServiceAccountPluginError>,
)
    requires
        call_ensures(encode_base64, (bytes,), encoded),
        call_ensures(identifier_from, (prefix, bytes), made),
        call_ensures(random_id, (prefix,), r),
    ensures
        made@ == prefix@ + encoded@,
        match r {
            Ok(id) => {
                &&& id@.len() == prefix@.len() + 32
                &&& id@.take(prefix@.len() as int) == prefix@
                &&& url_safe(id@.skip(prefix@.len() as int))
            },
            Err(error) => error is Random,
        },
{
    if let Ok(id) = r {
        let chosen = choose|bytes: Seq<u8>|
            bytes.len() == 24 && id@ == #[trigger] identifier_of(prefix@, bytes);
        base64_length_and_alphabet(chosen);
        assert(id@.take(prefix@.len() as int) =~= prefix@);
        assert(id@.skip(prefix@.len() as int) =~= base64_text(chosen));
    }
}

/// A verifier that is made with a random salt is one of the secret and the
/// pepper, and only the random source or an input beyond all measure stand
/// against it.
pub proof fn verifiers_are_made_of_secret_and_pepper(
    secret: &str,
    pepper: &[u8],
    r: Result<String, CryptoError>,
    own: &CredentialSecret,
    of_own: Result<String, CryptoError>,
    exposed: String,
)
    requires
        call_ensures(hash_secret, (secret, pepper), r),
        call_ensures(CredentialSecret::argon2id_verifier, (own, pepper), of_own),
        call_ensures(CredentialSecret::expose, (own,), exposed),
    ensures
        exposed@ == own.raw(),
        is_hash_of(secret@, pepper@, r),
        is_hash_of(own.raw(), pepper@, of_own),
{
}

/// `r` is a verifier of the secret under the pepper, or says why there is none.
pub open spec fn is_hash_of(
    secret: Seq<char>,
    pepper: Seq<u8>,
    r: Result<String, CryptoError>,
) -> bool {
    let input = encode_utf8(secret) + seq![0u8] + pepper;
    match r {
        Ok(text) => {
            &&& argon2_accepts(input, text@)
            &&& "$argon2id$v=19$"@.is_prefix_of(text@)
            &&& exists|salt: Seq<u8>| salt.len() == 16 && text@ == #[trigger] argon2id_phc(input, salt)
        },
        Err(error) => error is Random || error is PasswordHash && input.len() >= 0x1_0000_0000,
    }
}

/// Texts are copied one by one, and base64 text is told from other text.
pub proof fn texts_are_copied_and_told_apart(
    texts: &Vec<String>,
    copied: Vec<String>,
    text: &str,
    url: bool,
    count: usize,
    random: Result<Vec<u8>, getrandom::Error>,
)
    requires
        call_ensures(copy_texts, (texts,), copied),
        call_ensures(is_base64_text, (text,), url),
        call_ensures(random_material, (count,), random),
    ensures
        copied@ == texts@,
        url == url_safe(text@),
        random matches Ok(bytes) ==> bytes@.len() == count,
        count == 0 ==> random is Ok,
{
}

/// A receipt is what `encode` made of the response, sealed for the command.
pub proof fn receipts_are_sealed_for_their_command<R, E>(
    cipher: &ReceiptCipher,
    command: &CommandKey,
    response: &R,
    encode: E,
    nonce: Vec<u8>,
    ciphertext: Vec<u8>,
) where E: FnOnce(&R) -> Result<Vec<u8>, serde_json::Error>
    requires
        call_ensures(
            seal_receipt::<R, E>,
            (cipher, command, response, encode),
            Ok((nonce, ciphertext)),
        ),
    ensures
        nonce@.len() == 12,
        exists|bytes: Vec<u8>|
            {
                &&& #[trigger] call_ensures(encode, (response,), Ok::<_, serde_json::Error>(bytes))
                &&& aes256_gcm_opened(
                    cipher.key(),
                    nonce@,
                    ciphertext@,
                    encode_utf8(
                        command.caller@ + seq!['\0'] + command.operation@ + seq!['\0']
                            + command.idempotency_key@,
                    ),
                ) == Some(bytes@)
            },
{
    let bytes = choose|bytes: Vec<u8>|
        {
            &&& #[trigger] call_ensures(encode, (response,), Ok::<_, serde_json::Error>(bytes))
            &&& opened_receipt(cipher.key(), nonce@, ciphertext@, receipt_binding(command@))
                == Some(bytes@)
        };
    assert(call_ensures(encode, (response,), Ok::<_, serde_json::Error>(bytes)));
}

/// Of the degrees of parallelism that a verifier states, the last one counts, and
/// has at most eight digits.
pub proof fn the_last_degree_of_parallelism_counts(params: Seq<(Seq<char>, Seq<char>)>, k: int)
    requires
        0 <= k < params.len(),
        params[k].0 == "p"@,
        forall|i: int| k < i < params.len() ==> (#[trigger] params[i]).0 != "p"@,
    ensures
        bounded_lanes(params) <==> params[k].1.len() <= 8,
    decreases params.len(),
{
    if k < params.len() - 1 {
        let rest = params.drop_last();
        assert(params[params.len() - 1].0 != "p"@);
        assert forall|i: int| k < i < rest.len() implies (#[trigger] rest[i]).0 != "p"@ by {
            assert(rest[i] == params[i]);
        }
        the_last_degree_of_parallelism_counts(rest, k);
    }
}

/// A verifier that states no degree of parallelism is not refused for it.
pub proof fn no_degree_of_parallelism_is_fine(params: Seq<(Seq<char>, Seq<char>)>)
    requires
        forall|i: int| 0 <= i < params.len() ==> (#[trigger] params[i]).0 != "p"@,
    ensures
        bounded_lanes(params),
    decreases params.len(),
{
    if params.len() > 0 {
        let rest = params.drop_last();
        assert(params[params.len() - 1].0 != "p"@);
        assert forall|i: int| 0 <= i < rest.len() implies (#[trigger] rest[i]).0 != "p"@ by {
            assert(rest[i] == params[i]);
        }
        no_degree_of_parallelism_is_fine(rest);
    }
}

} // verus!
