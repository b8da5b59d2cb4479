//! Upper-case hexadecimal rendering of telegram fields, as the message
//! catalog's patterns expect them.

use vstd::prelude::*;

verus! {

/// The sixteen upper-case hexadecimal digits, in order of value.
pub open spec fn upper_hex_digits() -> Seq<char> {
    seq!['0', '1', '2', '3', '4', '5', '6', '7', '8', '9', 'A', 'B', 'C', 'D', 'E', 'F']
}

/// The digit that stands for `nibble`, which is below 16.
pub open spec fn hex_digit(nibble: int) -> char
    recommends
        0 <= nibble < 16,
{
    upper_hex_digits()[nibble]
}

/// Shortest upper-case hexadecimal numeral of `value`: no prefix, no leading
/// zeros, and the single digit `0` for zero.
pub open spec fn upper_hex(value: nat) -> Seq<char>
    decreases value,
{
    if value < 16 {
        seq![hex_digit(value as int)]
    } else {
        upper_hex(value / 16).push(hex_digit((value % 16) as int))
    }
}

/// Two upper-case digits per byte, high nibble first, bytes in order.
pub open spec fn hex_encode_upper(bytes: Seq<u8>) -> Seq<char> {
    Seq::new(
        2 * bytes.len(),
        |i: int|
            if i % 2 == 0 {
                hex_digit(bytes[i / 2] as int / 16)
            } else {
                hex_digit(bytes[i / 2] as int % 16)
            },
    )
}

/// Trusted: `format!` with the `{:X?}` directive on an unsigned integer. The
/// standard library documents it as the upper-case hexadecimal form of the
/// number without prefix or padding; the contract states exactly that numeral.
#[verifier::external_body]
pub(crate) fn format_upper_hex(value: u16) -> (text: String)
    ensures
        text@ == upper_hex(value as nat),
{
    format!("{:X?}", value)
}

/// Trusted: `hex::encode_upper` on a byte slice. Its source maps every byte to
/// the two characters that the upper-case digit table holds for its high and
/// low nibble, in input order; the contract states that string.
#[verifier::external_body]
pub(crate) fn encode_upper(data: &[u8]) -> (text: String)
    ensures
        text@ == hex_encode_upper(data@),
{
    hex::encode_upper(data)
}

} // verus!
