//! Numbers as text.

use vstd::prelude::*;

verus! {

/// The character of a decimal digit.
pub open spec fn digit(d: nat) -> char {
    seq!['0', '1', '2', '3', '4', '5', '6', '7', '8', '9'][d as int]
}

/// The decimal notation of a number, without leading zeros.
pub open spec fn decimal(n: nat) -> Seq<char>
    decreases n,
{
    if n < 10 {
        seq![digit(n)]
    } else {
        decimal(n / 10).push(digit(n % 10))
    }
}

/// Writes a number in decimal notation.
///
/// Trusted: the body calls `to_string` of `u8`, whose `Display` impl the
/// standard library documents to print the number in decimal, with no
/// sign, padding or leading zeros. The contract claims exactly that.
#[verifier::external_body]
pub(crate) fn decimal_string(n: u8) -> (text: String)
    ensures
        text@ == decimal(n as nat),
{
    n.to_string()
}


/// The lowercase form of a text, as the standard library computes it from
/// the Unicode tables.
pub uninterp spec fn lowercase(text: Seq<char>) -> Seq<char>;

/// Puts a text in lowercase.
///
/// Trusted: the body calls `str::to_lowercase`. The contract only gives
/// the result its name; it claims nothing of what the lowercase form of a
/// given text is.
#[verifier::external_body]
pub(crate) fn to_lowercase(text: &str) -> (lower: String)
    ensures
        lower@ == lowercase(text@),
{
    text.to_lowercase()
}

/// Tells whether two texts are the same.
///
/// Trusted: the body compares two `str` with `==`, which the standard
/// library documents to hold exactly when both consist of the same
/// characters.
#[verifier::external_body]
pub(crate) fn str_eq(a: &str, b: &str) -> (same: bool)
    ensures
        same == (a@ == b@),
{
    a == b
}


/// Appends a character to a text.
///
/// Trusted: the body calls `String::push`, which the standard library
/// documents to append the given character to the end of the string.
#[verifier::external_body]
pub(crate) fn push_char(text: &mut String, c: char)
    ensures
        final(text)@ == old(text)@.push(c),
{
    text.push(c);
}

} // verus!
