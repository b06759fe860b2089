//! Numbers of 256 bits, held as thirty-two bytes with the most significant
//! byte first, and what the `num256` crate says of them.

use crate::text::{hex_bytes_text, hex_text};
use vstd::prelude::*;
use vstd::string::*;

verus! {

/// The number that `bytes` write, most significant byte first.
pub open spec fn be_value(bytes: Seq<u8>) -> nat
    decreases bytes.len(),
{
    if bytes.len() == 0 {
        0
    } else {
        be_value(bytes.drop_last()) * 256 + bytes.last() as nat
    }
}

/// The lower-case hexadecimal text of the 256-bit number that `bytes` write,
/// most significant byte first, without leading zeros.
///
/// Calls `num256::Uint256::from([u8; 32])`, which reads the bytes big-endian,
/// and formats the number with `{:x}`, which writes it in base sixteen with
/// the digits `0-9a-f`, `0` for zero, no prefix and no padding. The contract
/// states exactly that.
#[verifier::external_body]
pub(crate) fn uint256_hex(bytes: &[u8; 32]) -> (s: String)
    ensures
        s@ == hex_text(be_value(bytes@)),
{
    let n: num256::Uint256 = (*bytes).into();
    format!("{:x}", n)
}

/// Whether the 256-bit number that `bytes` write is zero.
///
/// Calls `num256::Uint256::from([u8; 32])` and compares the number with
/// `num256::Uint256::from(0u8)`; the comparison is that of the numbers.
#[verifier::external_body]
pub(crate) fn uint256_is_zero(bytes: &[u8; 32]) -> (r: bool)
    ensures
        r == (be_value(bytes@) == 0),
{
    let n: num256::Uint256 = (*bytes).into();
    n == num256::Uint256::from(0u8)
}

/// The 256-bit number that `bytes` write, as `0x` and sixty-four
/// hexadecimal digits.
///
/// Calls `num256::Uint256::from([u8; 32])` and formats with `{:#066x}`:
/// the prefix, then zeros up to the width, then the digits. A number of 256
/// bits has at most sixty-four digits, so these are the two digits of every
/// byte.
#[verifier::external_body]
pub(crate) fn uint256_padded_hex(bytes: &[u8; 32]) -> (s: String)
    ensures
        s@ == "0x"@ + hex_bytes_text(bytes@),
{
    let n: num256::Uint256 = (*bytes).into();
    format!("{:#066x}", n)
}

} // verus!
