//! Instruction data given as hex text.

use vstd::prelude::*;
use vstd::string::StringSliceAdditionalSpecFns;

use crate::error::CliError;

verus! {

/// `hex::FromHexError`, why `hex::decode` refused its input.
#[verifier::external_type_specification]
#[verifier::external_body]
pub struct ExFromHexError(hex::FromHexError);

/// The value of a hex digit, either case.
pub open spec fn hex_digit(c: u8) -> Option<u8> {
    if 48 <= c <= 57 {
        Some((c - 48) as u8)
    } else if 97 <= c <= 102 {
        Some((c - 97 + 10) as u8)
    } else if 65 <= c <= 70 {
        Some((c - 65 + 10) as u8)
    } else {
        None
    }
}

/// The bytes that hex text spells, two digits a byte, high digit first; none for an odd
/// number of digits or a character that is no hex digit.
pub open spec fn hex_decode(s: Seq<u8>) -> Option<Seq<u8>>
    decreases s.len(),
{
    if s.len() % 2 != 0 {
        None
    } else if s.len() == 0 {
        Some(Seq::empty())
    } else {
        match (hex_digit(s[0]), hex_digit(s[1]), hex_decode(s.skip(2))) {
            (Some(h), Some(l), Some(rest)) => Some(seq![(h * 16 + l) as u8] + rest),
            _ => None,
        }
    }
}

/// The text without every leading "0x".
pub open spec fn strip_hex_prefix(s: Seq<u8>) -> Seq<u8>
    decreases s.len(),
{
    if s.len() >= 2 && s[0] == 48 && s[1] == 120 {
        strip_hex_prefix(s.skip(2))
    } else {
        s
    }
}

/// A leading "0x" may be written or left out: the text means the same bytes.
pub proof fn lemma_hex_prefix_optional(s: Seq<u8>)
    ensures
        strip_hex_prefix(seq![48u8, 120u8] + s) == strip_hex_prefix(s),
{
    assert((seq![48u8, 120u8] + s).skip(2) =~= s);
}

/// Only "0x" is stripped: text that does not begin with the two bytes "0x" is left
/// as it is, and "0x" written before such text is removed and nothing more, so the
/// instruction data of "0x" followed by `h` is the decoding of `h`.
pub proof fn lemma_only_0x_is_stripped(h: Seq<u8>)
    ensures
        !(h.len() >= 2 && h[0] == 48u8 && h[1] == 120u8) ==> strip_hex_prefix(h) == h,
        !(h.len() >= 2 && h[0] == 48u8 && h[1] == 120u8) ==> hex_decode(
            strip_hex_prefix(seq![48u8, 120u8] + h),
        ) == hex_decode(h),
{
    lemma_hex_prefix_optional(h);
}

/// Two hex digits make one byte: decoded data is half as long as its text.
pub proof fn lemma_hex_decode_len(s: Seq<u8>)
    ensures
        hex_decode(s) matches Some(b) ==> 2 * b.len() == s.len(),
    decreases s.len(),
{
    if s.len() % 2 == 0 && s.len() > 0 {
        lemma_hex_decode_len(s.skip(2));
    }
}

/// Calls `hex::decode`, which reads `data` as pairs of hex digits; the contract states
/// that reading as `hex_decode`.
#[verifier::external_body]
fn hex_decode_bytes(data: &[u8]) -> (r: Result<Vec<u8>, hex::FromHexError>)
    ensures
        match r {
            Ok(v) => hex_decode(data@) == Some(v@),
            Err(_) => hex_decode(data@) is None,
        },
{
    hex::decode(data)
}

/// The instruction data that the hex text `input` spells, with any leading "0x" removed.
pub fn decode_instruction_data(input: &str) -> (r: Result<Vec<u8>, CliError>)
    ensures
        match hex_decode(strip_hex_prefix(input.spec_bytes())) {
            Some(b) => r matches Ok(v) && v@ == b,
            None => r == Err::<Vec<u8>, CliError>(CliError::InvalidInstructionHex),
        },
{
    let bytes = input.as_bytes();
    let mut start: usize = 0;
    assert(bytes@.skip(0) =~= bytes@);
    while bytes.len() - start >= 2 && bytes[start] == 48u8 && bytes[start + 1] == 120u8
        invariant
            start <= bytes.len(),
            strip_hex_prefix(bytes@) == strip_hex_prefix(bytes@.skip(start as int)),
        decreases bytes@.len() - start,
    {
        assert(bytes@.skip(start as int).skip(2) =~= bytes@.skip(start + 2));
        start = start + 2;
    }
    let mut rest: Vec<u8> = Vec::new();
    let mut i: usize = start;
    while i < bytes.len()
        invariant
            start <= i <= bytes@.len(),
            rest@ == bytes@.subrange(start as int, i as int),
        decreases bytes@.len() - i,
    {
        rest.push(bytes[i]);
        i = i + 1;
        assert(rest@ =~= bytes@.subrange(start as int, i as int));
    }
    assert(rest@ =~= bytes@.skip(start as int));
    match hex_decode_bytes(rest.as_slice()) {
        Ok(v) => Ok(v),
        Err(_) => Err(CliError::InvalidInstructionHex),
    }
}

} // verus!
