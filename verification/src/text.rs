//! Text rules shared by every request: tokens, display names, decimal counters
//! and the order of texts.

use vstd::prelude::*;
use vstd::string::*;
use vstd::utf8::*;

verus! {

/// Number of bytes that `text` takes in UTF-8.
pub open spec fn byte_len(text: Seq<char>) -> nat {
    encode_utf8(text).len()
}

pub open spec fn ascii_alphanumeric(c: char) -> bool {
    ||| '0' <= c <= '9'
    ||| 'A' <= c <= 'Z'
    ||| 'a' <= c <= 'z'
}

/// A character of an identifier: a letter, a digit or one of `-`, `_`, `.`, `:`.
pub open spec fn token_char(c: char) -> bool {
    ascii_alphanumeric(c) || c == '-' || c == '_' || c == '.' || c == ':'
}

/// A character of the URL-safe base64 alphabet.
pub open spec fn base64_char(c: char) -> bool {
    ascii_alphanumeric(c) || c == '-' || c == '_'
}

pub open spec fn all_base64(text: Seq<char>) -> bool {
    forall|i: int| 0 <= i < text.len() ==> base64_char(#[trigger] text[i])
}

/// An identifier of at most `max` characters.
pub open spec fn is_token(text: Seq<char>, max: nat) -> bool {
    &&& 1 <= text.len() <= max
    &&& all_token(text)
}

pub open spec fn all_token(text: Seq<char>) -> bool {
    forall|i: int| 0 <= i < text.len() ==> token_char(#[trigger] text[i])
}

/// The characters that carry Unicode's `White_Space` property.
pub open spec fn white_space(c: char) -> bool {
    ||| 0x9 <= c as u32 <= 0xd
    ||| c as u32 == 0x20
    ||| c as u32 == 0x85
    ||| c as u32 == 0xa0
    ||| c as u32 == 0x1680
    ||| 0x2000 <= c as u32 <= 0x200a
    ||| c as u32 == 0x2028
    ||| c as u32 == 0x2029
    ||| c as u32 == 0x202f
    ||| c as u32 == 0x205f
    ||| c as u32 == 0x3000
}

pub open spec fn trim_start(text: Seq<char>) -> Seq<char>
    decreases text.len(),
{
    if text.len() > 0 && white_space(text[0]) {
        trim_start(text.drop_first())
    } else {
        text
    }
}

pub open spec fn trim_end(text: Seq<char>) -> Seq<char>
    decreases text.len(),
{
    if text.len() > 0 && white_space(text.last()) {
        trim_end(text.drop_last())
    } else {
        text
    }
}

/// `text` without the white space at its two ends.
pub open spec fn trimmed(text: Seq<char>) -> Seq<char> {
    trim_end(trim_start(text))
}

pub open spec fn printable_ascii(c: char) -> bool {
    ' ' <= c <= '~'
}

/// A display name, already trimmed: printable ASCII, 1 to 128 characters.
pub open spec fn is_display_name(text: Seq<char>) -> bool {
    &&& 1 <= text.len() <= 128
    &&& forall|i: int| 0 <= i < text.len() ==> printable_ascii(#[trigger] text[i])
}

pub open spec fn lowercase_char(c: char) -> char {
    if 'A' <= c <= 'Z' {
        (c as u32 + 32) as char
    } else {
        c
    }
}

/// `text` with its ASCII letters in lower case.
pub open spec fn lowercase(text: Seq<char>) -> Seq<char> {
    Seq::new(text.len(), |i: int| lowercase_char(text[i]))
}

pub open spec fn digit_char(d: nat) -> char {
    ('0' as u32 + d) as char
}

/// Decimal digits of `n`, without leading zeros.
pub open spec fn digits(n: nat) -> Seq<char>
    decreases n,
{
    if n < 10 {
        seq![digit_char(n)]
    } else {
        digits(n / 10).push(digit_char(n % 10))
    }
}

/// `n` written in decimal.
pub open spec fn decimal_text(n: int) -> Seq<char> {
    if n < 0 {
        seq!['-'] + digits((-n) as nat)
    } else {
        digits(n as nat)
    }
}

/// `String::push` appends one character.
pub assume_specification[ String::push ](text: &mut String, c: char)
    ensures
        final(text)@ == old(text)@.push(c),
;

/// Whether two texts are equal.
pub fn same_text(a: &str, b: &str) -> (same: bool)
    ensures
        same == (a@ == b@),
{
    let left: &[u8] = a.as_bytes();
    let right: &[u8] = b.as_bytes();
    proof {
        encode_utf8_decode_utf8(a@);
        encode_utf8_decode_utf8(b@);
    }
    if left.len() != right.len() {
        return false;
    }
    let mut i: usize = 0;
    while i < left.len()
        invariant
            i <= left@.len(),
            left@.len() == right@.len(),
            left@ == encode_utf8(a@),
            right@ == encode_utf8(b@),
            forall|j: int| 0 <= j < i ==> left@[j] == right@[j],
        decreases left@.len() - i,
    {
        if left[i] != right[i] {
            return false;
        }
        i += 1;
    }
    assert(left@ =~= right@);
    true
}

/// Whether two byte strings are equal.
pub fn same_bytes(a: &[u8], b: &[u8]) -> (same: bool)
    ensures
        same == (a@ == b@),
{
    if a.len() != b.len() {
        return false;
    }
    let mut i: usize = 0;
    while i < a.len()
        invariant
            i <= a@.len(),
            a@.len() == b@.len(),
            forall|j: int| 0 <= j < i ==> a@[j] == b@[j],
        decreases a@.len() - i,
    {
        if a[i] != b[i] {
            return false;
        }
        i += 1;
    }
    assert(a@ =~= b@);
    true
}

/// The same bytes again.
pub fn copy_bytes(bytes: &[u8]) -> (r: Vec<u8>)
    ensures
        r@ == bytes@,
{
    let mut out: Vec<u8> = Vec::with_capacity(bytes.len());
    out.extend_from_slice(bytes);
    assert(out@ =~= bytes@);
    out
}

/// The same texts again.
pub fn copy_texts(texts: &Vec<String>) -> (r: Vec<String>)
    ensures
        r@ == texts@,
{
    let mut out: Vec<String> = Vec::new();
    let mut i: usize = 0;
    while i < texts.len()
        invariant
            i <= texts@.len(),
            out@.len() == i,
            forall|k: int| 0 <= k < i ==> out@[k] == texts@[k],
        decreases texts@.len() - i,
    {
        out.push(texts[i].clone());
        i += 1;
    }
    assert(out@ =~= texts@);
    out
}

/// Byte length of `text`.
pub fn text_len(text: &str) -> (len: usize)
    ensures
        len == byte_len(text@),
{
    text.as_bytes().len()
}

fn is_alphanumeric(c: char) -> (r: bool)
    ensures
        r == ascii_alphanumeric(c),
{
    ('0' <= c && c <= '9') || ('A' <= c && c <= 'Z') || ('a' <= c && c <= 'z')
}

fn is_base64_char(c: char) -> (r: bool)
    ensures
        r == base64_char(c),
{
    is_alphanumeric(c) || c == '-' || c == '_'
}

fn is_token_char(c: char) -> (r: bool)
    ensures
        r == token_char(c),
{
    is_base64_char(c) || c == '.' || c == ':'
}

/// Whether every character of `text` belongs to the URL-safe base64 alphabet.
pub fn is_base64_text(text: &str) -> (r: bool)
    ensures
        r == all_base64(text@),
{
    for c in it: text.chars()
        invariant
            it.seq() == text@,
            forall|i: int| 0 <= i < it.index() ==> base64_char(text@[i]),
    {
        if !is_base64_char(c) {
            assert(!base64_char(text@[it.index()]));
            return false;
        }
    }
    true
}

/// Whether `value` is an identifier of 1 to `max` letters, digits, `-`, `_`,
/// `.` or `:`.
pub fn valid_token(value: &str, max: usize) -> (r: bool)
    ensures
        r == is_token(value@, max as nat),
{
    for c in it: value.chars()
        invariant
            it.seq() == value@,
            forall|i: int| 0 <= i < it.index() ==> token_char(value@[i]),
    {
        if !is_token_char(c) {
            assert(!token_char(value@[it.index()]));
            return false;
        }
    }
    proof {
        is_ascii_chars_encode_utf8(value@);
    }
    let len: usize = text_len(value);
    len > 0 && len <= max
}

fn is_white_space(c: char) -> (r: bool)
    ensures
        r == white_space(c),
{
    let code: u32 = c as u32;
    (0x9 <= code && code <= 0xd) || code == 0x20 || code == 0x85 || code == 0xa0 || code == 0x1680
        || (0x2000 <= code && code <= 0x200a) || code == 0x2028 || code == 0x2029 || code == 0x202f
        || code == 0x205f || code == 0x3000
}

proof fn lemma_trim_start(text: Seq<char>, start: int)
    requires
        0 <= start <= text.len(),
        forall|i: int| 0 <= i < start ==> white_space(text[i]),
        start < text.len() ==> !white_space(text[start]),
    ensures
        trim_start(text) == text.skip(start),
    decreases start,
{
    if start > 0 {
        assert(white_space(text[0]));
        lemma_trim_start(text.drop_first(), start - 1);
        assert(text.drop_first().skip(start - 1) =~= text.skip(start));
    } else {
        assert(text.skip(0) =~= text);
    }
}

proof fn lemma_trim_end(text: Seq<char>, end: int)
    requires
        0 <= end <= text.len(),
        forall|i: int| end <= i < text.len() ==> white_space(text[i]),
        end > 0 ==> !white_space(text[end - 1]),
    ensures
        trim_end(text) == text.take(end),
    decreases text.len() - end,
{
    if end < text.len() {
        assert(white_space(text.last()));
        lemma_trim_end(text.drop_last(), end);
        assert(text.drop_last().take(end) =~= text.take(end));
    } else {
        assert(text.take(end) =~= text);
    }
}

/// `value` without the white space at its two ends.
pub fn trim(value: &str) -> (r: String)
    ensures
        r@ == trimmed(value@),
{
    let len: usize = value.unicode_len();
    let mut start: usize = 0;
    while start < len && is_white_space(value.get_char(start))
        invariant
            start <= len,
            len == value@.len(),
            forall|i: int| 0 <= i < start ==> white_space(value@[i]),
        decreases len - start,
    {
        start += 1;
    }
    let mut end: usize = len;
    while end > start && is_white_space(value.get_char(end - 1))
        invariant
            start <= end <= len,
            len == value@.len(),
            forall|i: int| end <= i < len ==> white_space(value@[i]),
        decreases end - start,
    {
        end -= 1;
    }
    proof {
        lemma_trim_start(value@, start as int);
        let rest = value@.skip(start as int);
        lemma_trim_end(rest, end - start);
        assert(rest.take(end - start) =~= value@.subrange(start as int, end as int));
    }
    value.substring_char(start, end).to_string()
}

/// Whether `value`, trimmed, is 1 to 128 printable ASCII characters.
pub fn valid_name(value: &str) -> (r: bool)
    ensures
        r == is_display_name(trimmed(value@)),
{
    let name: String = trim(value);
    for c in it: name.chars()
        invariant
            it.seq() == name@,
            name@ == trimmed(value@),
            forall|i: int| 0 <= i < it.index() ==> printable_ascii(name@[i]),
    {
        if c < ' ' || c > '~' {
            assert(!printable_ascii(name@[it.index()]));
            return false;
        }
    }
    proof {
        is_ascii_chars_encode_utf8(name@);
    }
    let len: usize = text_len(name.as_str());
    len > 0 && len <= 128
}

/// `value` with its ASCII letters in lower case.
pub fn to_lowercase(value: &str) -> (r: String)
    ensures
        r@ == lowercase(value@),
{
    let mut out: String = String::new();
    for c in it: value.chars()
        invariant
            it.seq() == value@,
            out@.len() == it.index(),
            forall|i: int| 0 <= i < it.index() ==> out@[i] == lowercase_char(value@[i]),
    {
        if 'A' <= c && c <= 'Z' {
            out.push((c as u8 + 32) as char);
        } else {
            out.push(c);
        }
    }
    assert(out@ =~= lowercase(value@));
    out
}

fn push_digits(out: &mut String, n: u64)
    ensures
        final(out)@ == old(out)@ + digits(n as nat),
    decreases n,
{
    if n >= 10 {
        push_digits(out, n / 10);
    }
    let d: u8 = (n % 10) as u8;
    out.push((48 + d) as char);
    assert(out@ =~= old(out)@ + digits(n as nat));
}

/// `n` written in decimal.
pub fn decimal(n: i64) -> (r: String)
    ensures
        r@ == decimal_text(n as int),
{
    let mut out: String = String::new();
    if n < 0 {
        out.push('-');
        let magnitude: u64 = (-(n as i128)) as u64;
        push_digits(&mut out, magnitude);
    } else {
        push_digits(&mut out, n as u64);
    }
    assert(out@ =~= decimal_text(n as int));
    out
}

spec fn is_digit(c: char) -> bool {
    '0' <= c <= '9'
}

spec fn all_digits(text: Seq<char>) -> bool {
    forall|i: int| 0 <= i < text.len() ==> is_digit(#[trigger] text[i])
}

/// The number that a sequence of decimal digits denotes.
spec fn decimal_value(text: Seq<char>) -> nat
    decreases text.len(),
{
    if text.len() == 0 {
        0
    } else {
        decimal_value(text.drop_last()) * 10 + (text.last() as u32 - '0' as u32) as nat
    }
}

proof fn lemma_digits(n: nat)
    ensures
        digits(n).len() > 0,
        all_digits(digits(n)),
        n > 0 ==> digits(n)[0] != '0',
        decimal_value(digits(n)) == n,
    decreases n,
{
    reveal_with_fuel(decimal_value, 2);
    if n < 10 {
        assert(digits(n).drop_last() =~= Seq::<char>::empty());
    } else {
        lemma_digits(n / 10);
        assert(digits(n).drop_last() =~= digits(n / 10));
        assert(digits(n)[0] == digits(n / 10)[0]);
    }
}

proof fn lemma_digits_of_value(text: Seq<char>)
    requires
        text.len() > 0,
        all_digits(text),
        text[0] != '0',
    ensures
        decimal_value(text) >= 1,
        digits(decimal_value(text)) == text,
    decreases text.len(),
{
    let d = (text.last() as u32 - '0' as u32) as nat;
    assert(is_digit(text.last()));
    if text.len() == 1 {
        reveal_with_fuel(decimal_value, 2);
        assert(text.drop_last() =~= Seq::<char>::empty());
        assert(digits(d) =~= text);
    } else {
        lemma_digits_of_value(text.drop_last());
        let v = decimal_value(text.drop_last());
        assert((v * 10 + d) / 10 == v);
        assert((v * 10 + d) % 10 == d);
        assert(digits(decimal_value(text)) =~= text.drop_last().push(text.last()));
        assert(text.drop_last().push(text.last()) =~= text);
    }
}

proof fn lemma_prefix_value(text: Seq<char>, i: int)
    requires
        0 <= i <= text.len(),
        all_digits(text),
    ensures
        decimal_value(text.take(i)) <= decimal_value(text),
    decreases text.len() - i,
{
    if i < text.len() {
        assert(is_digit(text.last()));
        lemma_prefix_value(text.drop_last(), i);
        assert(text.drop_last().take(i) =~= text.take(i));
    } else {
        assert(text.take(i) =~= text);
    }
}

/// `text` is the decimal form of no number from 1 to `bound`.
pub open spec fn spells_none(text: Seq<char>, bound: int) -> bool {
    forall|n: int| 1 <= n <= bound ==> #[trigger] decimal_text(n) != text
}

/// The number from 1 to `bound` whose decimal form is exactly `value`.
pub fn parse_positive(value: &str, bound: u64) -> (r: Option<u64>)
    ensures
        match r {
            Some(n) => 1 <= n <= bound && decimal_text(n as int) == value@,
            None => spells_none(value@, bound as int),
        },
{
    let mut acc: u64 = 0;
    let mut first: bool = true;
    let ghost mut i: int = 0;
    proof {
        assert(value@.take(0) =~= Seq::<char>::empty());
        assert forall|n: int| 1 <= n <= bound && #[trigger] decimal_text(n) == value@ implies {
            &&& value@.len() > 0
            &&& all_digits(value@)
            &&& value@[0] != '0'
            &&& decimal_value(value@) == n
        } by {
            lemma_digits(n as nat);
        }
    }
    for c in it: value.chars()
        invariant
            it.seq() == value@,
            i == it.index(),
            first == (i == 0),
            acc <= bound,
            i == 0 ==> acc == 0,
            acc == decimal_value(value@.take(i)),
            all_digits(value@.take(i)),
            i > 0 ==> value@[0] != '0',
            forall|n: int| 1 <= n <= bound && #[trigger] decimal_text(n) == value@ ==> {
                &&& value@.len() > 0
                &&& all_digits(value@)
                &&& value@[0] != '0'
                &&& decimal_value(value@) == n
            },
    {
        proof {
            assert(value@[i] == c);
            assert(value@.take(i + 1).drop_last() =~= value@.take(i));
        }
        if c < '0' || c > '9' || (first && c == '0') {
            return None;
        }
        let d: u64 = c as u64 - 48;
        let next: u128 = acc as u128 * 10 + d as u128;
        if next > bound as u128 {
            proof {
                assert forall|n: int| 1 <= n <= bound implies #[trigger] decimal_text(n) != value@ by {
                    if decimal_text(n) == value@ {
                        lemma_prefix_value(value@, i + 1);
                    }
                }
            }
            return None;
        }
        acc = next as u64;
        proof {
            assert forall|j: int| 0 <= j < i + 1 implies is_digit(#[trigger] value@.take(i + 1)[j]) by {
                if j < i {
                    assert(is_digit(value@.take(i)[j]));
                }
            }
        }
        first = false;
        proof {
            i = i + 1;
        }
    }
    assert(value@.take(i) =~= value@);
    if first {
        return None;
    }
    proof {
        lemma_digits_of_value(value@);
    }
    Some(acc)
}

/// Two positive numbers with one decimal form are the same number.
pub proof fn decimal_round_trip(n: int, m: int)
    requires
        n > 0,
        m > 0,
        decimal_text(n) == decimal_text(m),
    ensures
        n == m,
{
    lemma_digits(n as nat);
    lemma_digits(m as nat);
}

/// `part` occurs in `text`.
pub open spec fn holds_text(text: Seq<char>, part: Seq<char>) -> bool {
    exists|i: int| #[trigger] occurs_at(text, part, i)
}

/// `part` occurs in `text` at `i`.
pub open spec fn occurs_at(text: Seq<char>, part: Seq<char>, i: int) -> bool {
    0 <= i <= text.len() - part.len() && text.subrange(i, i + part.len()) == part
}

pub proof fn lemma_holds_middle(before: Seq<char>, part: Seq<char>, after: Seq<char>)
    ensures
        holds_text(before + part + after, part),
{
    let text = before + part + after;
    let i = before.len() as int;
    assert(text.subrange(i, i + part.len()) =~= part);
    assert(occurs_at(text, part, i));
}

pub proof fn lemma_holds_inside(
    before: Seq<char>,
    middle: Seq<char>,
    after: Seq<char>,
    part: Seq<char>,
)
    requires
        holds_text(middle, part),
    ensures
        holds_text(before + middle + after, part),
{
    let text = before + middle + after;
    let i = choose|i: int| #[trigger] occurs_at(middle, part, i);
    let j = before.len() + i;
    assert(text.subrange(j, j + part.len()) =~= middle.subrange(i, i + part.len()));
    assert(occurs_at(text, part, j));
}

pub proof fn lemma_lacks_both(a: Seq<char>, b: Seq<char>, c: char)
    requires
        !a.contains(c),
        !b.contains(c),
    ensures
        !(a + b).contains(c),
{
    if (a + b).contains(c) {
        let i = (a + b).index_of(c);
        if i < a.len() {
            assert(a[i] == c);
        } else {
            assert(b[i - a.len()] == c);
        }
    }
}

/// A text that lacks a character of `part` does not hold `part`.
pub proof fn lemma_lacks(text: Seq<char>, part: Seq<char>, c: char)
    requires
        part.contains(c),
        !text.contains(c),
    ensures
        !holds_text(text, part),
{
    if holds_text(text, part) {
        let i = choose|i: int| #[trigger] occurs_at(text, part, i);
        let k = part.index_of(c);
        assert(text.subrange(i, i + part.len())[k] == text[i + k]);
        assert(text[i + k] == c);
    }
}

/// Whether `a` comes before `b` character by character.
pub open spec fn text_before(a: Seq<char>, b: Seq<char>) -> bool
    decreases a.len(),
{
    if b.len() == 0 {
        false
    } else if a.len() == 0 {
        true
    } else if a[0] == b[0] {
        text_before(a.drop_first(), b.drop_first())
    } else {
        a[0] < b[0]
    }
}

/// No text comes before itself.
pub proof fn text_before_irreflexive(a: Seq<char>)
    ensures
        !text_before(a, a),
    decreases a.len(),
{
    if a.len() > 0 {
        text_before_irreflexive(a.drop_first());
    }
}

/// What comes before a text comes before all that follow that text.
pub proof fn text_before_transitive(a: Seq<char>, b: Seq<char>, c: Seq<char>)
    requires
        text_before(a, b),
        text_before(b, c),
    ensures
        text_before(a, c),
    decreases a.len(),
{
    if a.len() > 0 && b.len() > 0 && c.len() > 0 && a[0] == b[0] && b[0] == c[0] {
        text_before_transitive(a.drop_first(), b.drop_first(), c.drop_first());
    }
}

/// Of two different texts one comes before the other.
pub proof fn text_before_total(a: Seq<char>, b: Seq<char>)
    ensures
        a == b || text_before(a, b) || text_before(b, a),
    decreases a.len(),
{
    if a.len() == 0 || b.len() == 0 {
        if a.len() == 0 && b.len() == 0 {
            assert(a =~= b);
        }
    } else if a[0] == b[0] {
        text_before_total(a.drop_first(), b.drop_first());
        if a.drop_first() == b.drop_first() {
            assert(a =~= seq![a[0]] + a.drop_first());
            assert(b =~= seq![b[0]] + b.drop_first());
        }
    }
}

proof fn lemma_text_before_at(a: Seq<char>, b: Seq<char>, i: int)
    requires
        0 <= i <= a.len(),
        i <= b.len(),
        forall|j: int| 0 <= j < i ==> a[j] == b[j],
    ensures
        text_before(a, b) == text_before(a.skip(i), b.skip(i)),
    decreases i,
{
    if i > 0 {
        assert(a[0] == b[0]);
        lemma_text_before_at(a.drop_first(), b.drop_first(), i - 1);
        assert(a.drop_first().skip(i - 1) =~= a.skip(i));
        assert(b.drop_first().skip(i - 1) =~= b.skip(i));
    } else {
        assert(a.skip(0) =~= a);
        assert(b.skip(0) =~= b);
    }
}

/// Whether `a` comes before `b` character by character.
pub fn precedes(a: &str, b: &str) -> (r: bool)
    ensures
        r == text_before(a@, b@),
{
    let left: usize = a.unicode_len();
    let right: usize = b.unicode_len();
    let mut i: usize = 0;
    while i < left && i < right
        invariant
            i <= left,
            i <= right,
            left == a@.len(),
            right == b@.len(),
            forall|j: int| 0 <= j < i ==> a@[j] == b@[j],
        decreases left - i,
    {
        let x: char = a.get_char(i);
        let y: char = b.get_char(i);
        if x != y {
            proof {
                lemma_text_before_at(a@, b@, i as int);
                assert(a@.skip(i as int)[0] == x && b@.skip(i as int)[0] == y);
            }
            return x < y;
        }
        i += 1;
    }
    proof {
        lemma_text_before_at(a@, b@, i as int);
    }
    left < right
}

} // verus!
