//! Small helpers on strings.

use vstd::prelude::*;

verus! {

/// The lower-case form of a text, as `str::to_lowercase` computes it from
/// the Unicode character database.
pub uninterp spec fn lowercase(text: Seq<char>) -> Seq<char>;

/// Lower-cases `text` with `str::to_lowercase`. The mapping follows the
/// Unicode tables and depends on nothing but the text.
#[verifier::external_body]
pub(crate) fn to_lowercase(text: &str) -> (lowered: String)
    ensures
        lowered@ == lowercase(text@),
{
    text.to_lowercase()
}

/// Compares two string slices with `str::eq`, which holds exactly when they
/// spell the same characters.
#[verifier::external_body]
pub(crate) fn str_eq(a: &str, b: &str) -> (same: bool)
    ensures
        same == (a@ == b@),
{
    a == b
}

/// Whether `needle` occurs in `text`.
pub open spec fn has_char(text: Seq<char>, needle: char) -> bool {
    exists|i: int| 0 <= i < text.len() && text[i] == needle
}

/// Whether `text` begins with `prefix`.
pub open spec fn has_prefix(text: Seq<char>, prefix: Seq<char>) -> bool {
    prefix.len() <= text.len() && text.subrange(0, prefix.len() as int) == prefix
}

/// Tests for a character with `str::contains`.
#[verifier::external_body]
pub(crate) fn contains_char(text: &str, needle: char) -> (found: bool)
    ensures
        found == has_char(text@, needle),
{
    text.contains(needle)
}

/// Tests for a prefix with `str::starts_with`.
#[verifier::external_body]
pub(crate) fn starts_with(text: &str, prefix: &str) -> (found: bool)
    ensures
        found == has_prefix(text@, prefix@),
{
    text.starts_with(prefix)
}

/// `left` followed by `right`.
pub fn join(left: &str, right: &str) -> (text: String)
    ensures
        text@ == left@ + right@,
{
    let mut text = left.to_owned();
    text.append(right);
    text
}

/// The decimal digit that stands for `n`, for `0 <= n < 10`.
pub open spec fn decimal_digit(n: int) -> char {
    if n == 0 { '0' } else if n == 1 { '1' } else if n == 2 { '2' } else if n == 3 { '3' }
    else if n == 4 { '4' } else if n == 5 { '5' } else if n == 6 { '6' } else if n == 7 { '7' }
    else if n == 8 { '8' } else { '9' }
}

/// The decimal digits of a natural number, without leading zeros.
pub open spec fn decimal_digits(n: nat) -> Seq<char>
    decreases n,
{
    if n < 10 {
        seq![decimal_digit(n as int)]
    } else {
        decimal_digits(n / 10).push(decimal_digit((n % 10) as int))
    }
}

/// The decimal text of an integer, with a minus sign where it is negative.
pub open spec fn decimal_text(n: int) -> Seq<char> {
    if n < 0 {
        seq!['-'] + decimal_digits((-n) as nat)
    } else {
        decimal_digits(n as nat)
    }
}

/// Formats `n` with `i128::to_string`, which writes the decimal digits of
/// the number, after a minus sign where it is negative.
#[verifier::external_body]
pub(crate) fn decimal(n: i128) -> (text: String)
    ensures
        text@ == decimal_text(n as int),
{
    n.to_string()
}

} // verus!
