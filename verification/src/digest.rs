//! Trusted bindings to the hashing and encoding primitives.
//!
//! SHA-256 and HMAC-SHA-256 results are functions of their inputs alone;
//! their values are named, not restated. Hex encoding is small enough to
//! state exactly.

use vstd::prelude::*;

verus! {

/// What SHA-256 returns for the given bytes.
pub uninterp spec fn sha256_of(data: Seq<u8>) -> Seq<u8>;

/// What HMAC-SHA-256 returns for the given key and message.
pub uninterp spec fn hmac_sha256_of(key: Seq<u8>, message: Seq<u8>) -> Seq<u8>;

/// What lz4 block compression (with the length prefix) produces.
pub uninterp spec fn lz4_pack(data: Seq<u8>) -> Seq<u8>;

/// What lz4 block decompression recovers from a packed buffer.
pub uninterp spec fn lz4_unpack(data: Seq<u8>) -> Seq<u8>;

/// The lowercase hex digit for a value below sixteen.
pub open spec fn hex_digit(d: int) -> char {
    if d == 0 { '0' }
    else if d == 1 { '1' }
    else if d == 2 { '2' }
    else if d == 3 { '3' }
    else if d == 4 { '4' }
    else if d == 5 { '5' }
    else if d == 6 { '6' }
    else if d == 7 { '7' }
    else if d == 8 { '8' }
    else if d == 9 { '9' }
    else if d == 10 { 'a' }
    else if d == 11 { 'b' }
    else if d == 12 { 'c' }
    else if d == 13 { 'd' }
    else if d == 14 { 'e' }
    else { 'f' }
}

/// Lowercase hex encoding: two digits per byte, high nibble first.
pub open spec fn hex_of(data: Seq<u8>) -> Seq<char>
    decreases data.len(),
{
    if data.len() == 0 {
        Seq::empty()
    } else {
        seq![
            hex_digit(data.first() as int / 16),
            hex_digit(data.first() as int % 16),
        ] + hex_of(data.drop_first())
    }
}

/// Relies on sha2's SHA-256: a 32-byte digest depending on the input
/// bytes alone.
#[verifier::external_body]
pub fn sha256(data: &[u8]) -> (r: Vec<u8>)
    ensures
        r@ == sha256_of(data@),
        r@.len() == 32,
{
    <sha2::Sha256 as sha2::Digest>::digest(data).to_vec()
}

/// Relies on hmac's HMAC-SHA-256: a 32-byte tag depending on key and
/// message alone. Keys of any length are accepted.
#[verifier::external_body]
pub fn hmac_sha256(key: &[u8], message: &[u8]) -> (r: Vec<u8>)
    ensures
        r@ == hmac_sha256_of(key@, message@),
        r@.len() == 32,
{
    // HMAC accepts keys of any length, so this never errs
    let mut mac = <hmac::Hmac<sha2::Sha256> as hmac::KeyInit>::new_from_slice(key).unwrap();
    hmac::Mac::update(&mut mac, message);
    hmac::Mac::finalize(mac).into_bytes().to_vec()
}

/// Relies on hex::encode: two lowercase hex digits per byte, high nibble
/// first.
#[verifier::external_body]
pub fn hex_encode(data: &[u8]) -> (r: String)
    ensures
        r@ == hex_of(data@),
{
    hex::encode(data)
}

/// SHA-256 of the data, as a lowercase hex string.
pub fn sha256_hex(data: &[u8]) -> (r: String)
    ensures
        r@ == hex_of(sha256_of(data@)),
{
    let digest = sha256(data);
    hex_encode(digest.as_slice())
}

/// A buffer the codec could not handle.
#[derive(Debug)]
pub struct CodecError {}

/// Relies on lz4's block compression with the original length prepended:
/// the packed bytes are a function of the input alone, and block
/// decompression recovers the input from them exactly.
#[verifier::external_body]
pub fn lz4_compress(data: &[u8]) -> (r: Result<Vec<u8>, CodecError>)
    ensures
        r matches Ok(v) ==> v@ == lz4_pack(data@) && lz4_unpack(v@) == data@,
{
    match lz4::block::compress(data, None, true) {
        Ok(v) => Ok(v),
        Err(_) => Err(CodecError {}),
    }
}

/// Relies on lz4's block decompression with the prepended length: what it
/// recovers is a function of the packed bytes alone.
#[verifier::external_body]
pub fn lz4_decompress(data: &[u8]) -> (r: Result<Vec<u8>, CodecError>)
    ensures
        r matches Ok(v) ==> v@ == lz4_unpack(data@),
{
    match lz4::block::decompress(data, None) {
        Ok(v) => Ok(v),
        Err(_) => Err(CodecError {}),
    }
}

} // verus!
