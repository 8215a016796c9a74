//! What the operations do, said of their arguments and results alone.
//!
//! Each law takes the arguments of a call and what it may return, by
//! `call_ensures`, and tells how they are related in terms of the values
//! themselves. The words that several laws share stand here.

use vstd::prelude::*;
use vstd::string::*;

use crate::error::Failure;

pub mod access;
pub mod changes;
pub mod diagnostics;
pub mod exchanges;
pub mod management;
pub mod receipts;
pub mod setup;
pub mod tables;
pub mod values;

verus! {

pub open spec fn letter_or_digit(c: char) -> bool {
    '0' <= c <= '9' || 'A' <= c <= 'Z' || 'a' <= c <= 'z'
}

/// Letters, digits and `-`, `_`, `.`, `:`, at least one and at most `max`.
pub open spec fn identifier(text: Seq<char>, max: int) -> bool {
    &&& 1 <= text.len() <= max
    &&& forall|i: int|
        0 <= i < text.len() ==> letter_or_digit(#[trigger] text[i]) || text[i] == '-' || text[i]
            == '_' || text[i] == '.' || text[i] == ':'
}

/// Letters, digits, `-` and `_`.
pub open spec fn url_safe(text: Seq<char>) -> bool {
    forall|i: int|
        0 <= i < text.len() ==> letter_or_digit(#[trigger] text[i]) || text[i] == '-' || text[i]
            == '_'
}

/// `kept` is `t` to the microsecond: what is left over is cut off towards the
/// start of the year 2000.
pub open spec fn kept_as(t: int, kept: int) -> bool {
    &&& kept % 1_000 == 0
    &&& t >= 946_684_800_000_000_000 ==> t - 1_000 < kept <= t
    &&& t < 946_684_800_000_000_000 ==> t <= kept < t + 1_000
}

/// The number that decimal digits stand for.
pub open spec fn number(text: Seq<char>) -> int
    decreases text.len(),
{
    if text.len() == 0 {
        0
    } else {
        number(text.drop_last()) * 10 + (text.last() as int - '0' as int)
    }
}

/// `text` spells `n` in decimal digits, with no leading zero, and with a sign
/// only if it is negative.
pub open spec fn spells(text: Seq<char>, n: int) -> bool {
    if n < 0 {
        text.len() >= 1 && text[0] == '-' && spells_natural(text.skip(1), -n)
    } else {
        spells_natural(text, n)
    }
}

pub open spec fn spells_natural(text: Seq<char>, n: int) -> bool {
    &&& text.len() >= 1
    &&& forall|i: int| 0 <= i < text.len() ==> '0' <= #[trigger] text[i] <= '9'
    &&& text[0] == '0' ==> text.len() == 1
    &&& number(text) == n
}

/// `value` is one of `values`.
pub open spec fn among(values: Seq<String>, value: Seq<char>) -> bool {
    exists|i: int| 0 <= i < values.len() && (#[trigger] values[i])@ == value
}

/// The failure carries this text and nothing else.
pub open spec fn tells(failure: Failure, text: Seq<char>) -> bool {
    failure matches Failure::Detail(detail) && detail@ == text
}

} // verus!
