//! Digests, keyed digests and their lowercase hexadecimal rendering.
use vstd::prelude::*;
use crypto::digest::Digest;
use crypto::mac::Mac;
use rustc_serialize::hex::ToHex;

verus! {

/// The SHA-256 digest of a byte sequence.
pub uninterp spec fn sha256_of(data: Seq<u8>) -> Seq<u8>;

/// The HMAC-SHA256 code of `data` under `key`.
pub uninterp spec fn hmac_sha256_of(key: Seq<u8>, data: Seq<u8>) -> Seq<u8>;

/// The lowercase hexadecimal digit for a value below sixteen.
pub open spec fn hex_digit(n: int) -> char {
    seq!['0', '1', '2', '3', '4', '5', '6', '7', '8', '9', 'a', 'b', 'c', 'd', 'e', 'f'][n]
}

/// Two lowercase hexadecimal digits per byte, high nibble first.
pub open spec fn hex_of(b: Seq<u8>) -> Seq<char>
    decreases b.len(),
{
    if b.len() == 0 {
        Seq::empty()
    } else {
        hex_of(b.drop_last()) + seq![hex_digit(b.last() as int / 16), hex_digit(b.last() as int % 16)]
    }
}

/// Relies on rust-crypto's `Sha256` (`Digest::input` then `Digest::result`):
/// the digest is a function of the input bytes alone, 32 bytes long.
#[verifier::external_body]
fn sha256_digest(data: &[u8]) -> (r: Vec<u8>)
    ensures
        r@ == sha256_of(data@),
        r@.len() == 32,
{
    let mut d = crypto::sha2::Sha256::new();
    d.input(data);
    let mut buf = vec![0u8; d.output_bytes()];
    d.result(&mut buf);
    buf
}

/// Relies on rust-crypto's `Hmac<Sha256>` (`Mac::input`, `Mac::result`,
/// `MacResult::code`): the code is a function of the key and the data alone,
/// 32 bytes long.
#[verifier::external_body]
fn hmac_sha256(key: &[u8], data: &[u8]) -> (r: Vec<u8>)
    ensures
        r@ == hmac_sha256_of(key@, data@),
        r@.len() == 32,
{
    let mut m = crypto::hmac::Hmac::new(crypto::sha2::Sha256::new(), key);
    m.input(data);
    m.result().code().to_vec()
}

/// Relies on rustc-serialize's `ToHex for [u8]`: for each byte, in order, the
/// digit of its high nibble and then of its low nibble, from "0123456789abcdef".
#[verifier::external_body]
fn hex_encode(b: &[u8]) -> (r: String)
    ensures
        r@ == hex_of(b@),
{
    b.to_hex()
}

/// The SHA-256 digest of `data`, 32 bytes.
pub fn hash(data: &[u8]) -> (r: Vec<u8>)
    ensures
        r@ == sha256_of(data@),
        r@.len() == 32,
{
    sha256_digest(data)
}

/// The HMAC-SHA256 code of `data` under `key`, 32 bytes.
pub fn hmac(key: &[u8], data: &[u8]) -> (r: Vec<u8>)
    ensures
        r@ == hmac_sha256_of(key@, data@),
        r@.len() == 32,
{
    hmac_sha256(key, data)
}

/// The lowercase hexadecimal rendering of `b`.
pub fn to_hex(b: &[u8]) -> (r: String)
    ensures
        r@ == hex_of(b@),
{
    hex_encode(b)
}

/// The lowercase hexadecimal SHA-256 digest of `data`.
pub fn hex_hash(data: &[u8]) -> (r: String)
    ensures
        r@ == hex_of(sha256_of(data@)),
{
    let d = sha256_digest(data);
    hex_encode(d.as_slice())
}

} // verus!
