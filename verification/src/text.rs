//! Numbers and words as text.
use vstd::prelude::*;
use vstd::string::StringExecFns;

verus! {

/// The character that stands for a digit below 16: `0` to `9`, then `a`
/// to `f`.
pub open spec fn digit_char(digit: int) -> char {
    if digit < 10 {
        ((48 + digit) as u8) as char
    } else {
        ((87 + digit) as u8) as char
    }
}

/// The decimal digits of a number, the most significant first, without
/// leading zeros.
pub open spec fn decimal_digits(value: nat) -> Seq<char>
    decreases value,
{
    if value < 10 {
        seq![digit_char(value as int)]
    } else {
        decimal_digits(value / 10).push(digit_char((value % 10) as int))
    }
}

/// The decimal text of a number: its digits, behind a minus sign if it
/// is negative.
pub open spec fn decimal_text(value: int) -> Seq<char> {
    if value < 0 {
        seq!['-'] + decimal_digits((-value) as nat)
    } else {
        decimal_digits(value as nat)
    }
}

/// The last `count` hexadecimal digits of a number, the most significant
/// first, in lower case.
pub open spec fn hex_digits(value: nat, count: nat) -> Seq<char>
    decreases count,
{
    if count == 0 {
        Seq::empty()
    } else {
        hex_digits(value / 16, (count - 1) as nat).push(digit_char((value % 16) as int))
    }
}

/// The text of a 32-bit number in eight lower-case hexadecimal digits.
pub open spec fn hex8_text(value: u32) -> Seq<char> {
    hex_digits(value as nat, 8)
}

/// The words of a text: what stands between its ASCII white space.
pub uninterp spec fn ascii_words(text: Seq<char>) -> Seq<Seq<char>>;

/// Prints a number in decimal with the `Display` of `i128`.
///
/// Trusted: the text is made of the decimal digits of the number, without
/// leading zeros, behind a minus sign if the number is negative.
#[verifier::external_body]
fn decimal_i128(value: i128) -> (text: String)
    ensures
        text@ == decimal_text(value as int),
{
    format!("{}", value)
}

/// The decimal text of an unsigned number.
pub fn decimal_u64(value: u64) -> (text: String)
    ensures
        text@ == decimal_text(value as int),
{
    decimal_i128(value as i128)
}

/// The decimal text of a signed number.
pub fn decimal_i32(value: i32) -> (text: String)
    ensures
        text@ == decimal_text(value as int),
{
    decimal_i128(value as i128)
}

/// Prints a number in hexadecimal with the `LowerHex` of `u32`, filled up
/// with zeros to eight digits.
///
/// Trusted: the text is made of the eight hexadecimal digits of the
/// number, in lower case.
#[verifier::external_body]
pub(crate) fn hex8(value: u32) -> (text: String)
    ensures
        text@ == hex8_text(value),
{
    format!("{:08x}", value)
}

/// Splits a text into its words with `str::split_ascii_whitespace`.
///
/// Trusted: the words depend on the text alone.
#[verifier::external_body]
pub(crate) fn split_ascii_whitespace(text: &str) -> (words: Vec<String>)
    ensures
        words@.map_values(|arg: String| arg@) == ascii_words(text@),
{
    text.split_ascii_whitespace().map(String::from).collect()
}

/// Two texts, one behind the other.
pub fn concat(first: &str, second: &str) -> (text: String)
    ensures
        text@ == first@ + second@,
{
    let mut text = first.to_owned();
    text.append(second);
    text
}

} // verus!
