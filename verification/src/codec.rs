use vstd::bytes::lemma_auto_spec_u128_to_from_le_bytes;
use vstd::bytes::spec_u128_from_le_bytes;
use vstd::bytes::spec_u128_to_le_bytes;
use vstd::bytes::u128_from_le_bytes;
use vstd::bytes::u128_to_le_bytes;
use vstd::prelude::*;
use vstd::utf8::encode_utf8;
use vstd::utf8::valid_utf8;

verus! {

/// Stored form of an unsigned amount: sixteen little-endian bytes.
pub open spec fn spec_encode_amount(n: u128) -> Seq<u8> {
    spec_u128_to_le_bytes(n)
}

/// A stored value decodes to an amount exactly when it is sixteen bytes long.
pub open spec fn spec_decode_amount(b: Seq<u8>) -> Option<u128> {
    if b.len() == 16 {
        Some(spec_u128_from_le_bytes(b))
    } else {
        None
    }
}

pub fn encode_amount(n: u128) -> (r: Vec<u8>)
    ensures
        r@ == spec_encode_amount(n),
{
    u128_to_le_bytes(n)
}

pub fn decode_amount(b: &[u8]) -> (r: Option<u128>)
    ensures
        r == spec_decode_amount(b@),
{
    if b.len() == 16 {
        Some(u128_from_le_bytes(b))
    } else {
        None
    }
}

/// Law: decoding a stored amount gives back the amount that was encoded.
pub proof fn lemma_amount_round_trip(n: u128)
    ensures
        spec_decode_amount(spec_encode_amount(n)) == Some(n),
{
    lemma_auto_spec_u128_to_from_le_bytes();
}

/// Relies on `String::from_utf8`: it succeeds exactly on valid UTF-8 input
/// and returns the string whose UTF-8 encoding is the given byte sequence.
#[verifier::external_body]
pub(crate) fn string_from_utf8(v: Vec<u8>) -> (r: Option<String>)
    ensures
        match r {
            Some(s) => valid_utf8(v@) && encode_utf8(s@) == v@,
            None => !valid_utf8(v@),
        },
{
    match String::from_utf8(v) {
        Ok(s) => Some(s),
        Err(_) => None,
    }
}

} // verus!
