//! Calls into outside crates, each behind a contract.

use base64::Engine;
use rand::Rng;
use sha2::Digest;
use vstd::prelude::*;

verus! {

/// Relies on `rand::thread_rng().gen::<u8>()`: some byte, nothing more is known.
#[verifier::external_body]
pub(crate) fn random_byte() -> (r: u8) {
    rand::thread_rng().gen::<u8>()
}

/// CRC16 with the XMODEM parameters of a byte sequence.
pub uninterp spec fn crc16_xmodem_of(data: Seq<u8>) -> u16;

/// Standard-alphabet, padded base64 text of a byte sequence.
pub uninterp spec fn base64_of(data: Seq<u8>) -> Seq<u8>;

/// The bytes that a standard-alphabet, padded base64 text stands for, if it is valid.
pub uninterp spec fn base64_decoded(text: Seq<u8>) -> Option<Seq<u8>>;

/// SHA-256 digest of a byte sequence.
pub uninterp spec fn sha256_of(data: Seq<u8>) -> Seq<u8>;

/// Relies on `crc16::State::<XMODEM>::calculate`: the checksum depends on the bytes alone.
#[verifier::external_body]
pub(crate) fn crc16_xmodem(data: &Vec<u8>) -> (r: u16)
    ensures
        r == crc16_xmodem_of(data@),
{
    crc16::State::<crc16::XMODEM>::calculate(data)
}

/// Relies on `base64::engine::general_purpose::STANDARD.encode`: the text depends on
/// the bytes alone.
#[verifier::external_body]
pub(crate) fn base64_encode(data: &Vec<u8>) -> (r: Vec<u8>)
    ensures
        r@ == base64_of(data@),
{
    base64::engine::general_purpose::STANDARD.encode(data).into_bytes()
}

/// Relies on `base64::engine::general_purpose::STANDARD.decode`: the bytes, or a
/// failure, depend on the text alone.
#[verifier::external_body]
pub(crate) fn base64_decode(text: &Vec<u8>) -> (r: Option<Vec<u8>>)
    ensures
        match r {
            Some(v) => base64_decoded(text@) == Some(v@),
            None => base64_decoded(text@) is None,
        },
{
    base64::engine::general_purpose::STANDARD.decode(text).ok()
}

/// Relies on `sha2::Sha256::digest`: a 32-byte digest that depends on the bytes alone.
#[verifier::external_body]
pub(crate) fn sha256(data: &Vec<u8>) -> (r: Vec<u8>)
    ensures
        r@ == sha256_of(data@),
        r@.len() == 32,
{
    sha2::Sha256::digest(data).to_vec()
}

} // verus!
