//! Digests: SHA-256 (`sha2`) and RIPEMD-160 (`ripemd`), with hexadecimal
//! renderings of string digests.
use vstd::prelude::*;
use vstd::string::StringSliceAdditionalSpecFns;
use crate::text::{hex_encode, hex_lower};

verus! {

/// The SHA-256 digest of a byte sequence.
pub uninterp spec fn sha256_spec(data: Seq<u8>) -> Seq<u8>;

/// The RIPEMD-160 digest of a byte sequence.
pub uninterp spec fn ripemd160_spec(data: Seq<u8>) -> Seq<u8>;

/// `sha2::Sha256::digest`: the result is `sha256_spec` of the input, 32 bytes long.
#[verifier::external_body]
pub(crate) fn sha256(data: &[u8]) -> (r: Vec<u8>)
    ensures
        r@ == sha256_spec(data@),
        r@.len() == 32,
{
    <sha2::Sha256 as sha2::Digest>::digest(data).to_vec()
}

/// `ripemd::Ripemd160::digest`: the result is `ripemd160_spec` of the input, 20 bytes long.
#[verifier::external_body]
pub(crate) fn ripemd160(data: &[u8]) -> (r: Vec<u8>)
    ensures
        r@ == ripemd160_spec(data@),
        r@.len() == 20,
{
    <ripemd::Ripemd160 as ripemd::Digest>::digest(data).to_vec()
}

/// Lower-case hexadecimal SHA-256 of the UTF-8 bytes of `s`.
pub open spec fn sha256_hex_spec(s: Seq<char>) -> Seq<char> {
    hex_lower(sha256_spec(vstd::utf8::encode_utf8(s)))
}

/// Lower-case hexadecimal SHA-256 of the UTF-8 bytes of `s`.
pub fn sha256_hex(s: &str) -> (r: String)
    ensures
        r@ == sha256_hex_spec(s@),
        r@.len() == 64,
{
    let d = sha256(s.as_bytes());
    hex_encode(d.as_slice())
}

/// SHA-256 applied twice: `SHA256(SHA256(data))`.
pub open spec fn double_sha256_spec(data: Seq<u8>) -> Seq<u8> {
    sha256_spec(sha256_spec(data))
}

/// `SHA256(SHA256(data))` over bytes.
pub fn double_sha256_bytes(data: &[u8]) -> (r: Vec<u8>)
    ensures
        r@ == double_sha256_spec(data@),
        r@.len() == 32,
{
    let h = sha256(data);
    sha256(h.as_slice())
}

/// secp256k1: the 32 bytes `sk` are a valid secret key (below the curve order, not zero).
pub uninterp spec fn secret_key_valid(sk: Seq<u8>) -> bool;

/// secp256k1: the compressed public key of the secret key `sk`.
pub uninterp spec fn public_key_of(sk: Seq<u8>) -> Seq<u8>;

/// secp256k1: the DER-encoded deterministic ECDSA signature of `digest` under `sk`.
pub uninterp spec fn ecdsa_sign_spec(digest: Seq<u8>, sk: Seq<u8>) -> Seq<u8>;

/// secp256k1: `pk` parses as a public key.
pub uninterp spec fn public_key_parses(pk: Seq<u8>) -> bool;

/// secp256k1: `sig` parses as a DER ECDSA signature.
pub uninterp spec fn der_signature_parses(sig: Seq<u8>) -> bool;

/// secp256k1: `sig` is a valid ECDSA signature of `digest` under `pk`.
pub uninterp spec fn ecdsa_verifies(digest: Seq<u8>, sig: Seq<u8>, pk: Seq<u8>) -> bool;

/// The Base58 (Bitcoin alphabet) encoding of `b`.
pub uninterp spec fn base58_encode_spec(b: Seq<u8>) -> Seq<char>;

/// The Base58 (Bitcoin alphabet) decoding of `s`, `None` when `s` is not Base58.
pub uninterp spec fn base58_decode_spec(s: Seq<char>) -> Option<Seq<u8>>;

/// `secp256k1::SecretKey::new` with the operating system's random source: a
/// fresh valid secret key. Which key comes out is not stated.
#[verifier::external_body]
pub(crate) fn random_secret_key() -> (r: Vec<u8>)
    ensures
        r@.len() == 32,
        secret_key_valid(r@),
{
    secp256k1::SecretKey::new(&mut rand::rngs::OsRng).secret_bytes().to_vec()
}

/// `secp256k1::SecretKey::from_slice`: whether `sk` is a valid secret key;
/// secp256k1 refuses any length but 32.
#[verifier::external_body]
pub(crate) fn secret_key_check(sk: &[u8]) -> (r: bool)
    ensures
        r == secret_key_valid(sk@),
        r ==> sk@.len() == 32,
{
    secp256k1::SecretKey::from_slice(sk).is_ok()
}

/// `secp256k1::PublicKey::from_secret_key`, serialized compressed (33
/// bytes), which `PublicKey::from_slice` parses again.
#[verifier::external_body]
pub(crate) fn public_key_from_secret(sk: &[u8]) -> (r: Vec<u8>)
    requires
        secret_key_valid(sk@),
    ensures
        r@ == public_key_of(sk@),
        r@.len() == 33,
        public_key_parses(r@),
{
    let key = secp256k1::SecretKey::from_slice(sk).unwrap();
    secp256k1::PublicKey::from_secret_key(&secp256k1::Secp256k1::new(), &key).serialize().to_vec()
}

/// `secp256k1::Secp256k1::sign_ecdsa` of a 32-byte digest, DER-serialized.
/// The DER bytes are non-empty and parse, and the signature verifies under
/// the public key of `sk` (ECDSA's correctness).
#[verifier::external_body]
pub(crate) fn ecdsa_sign(digest: &[u8], sk: &[u8]) -> (r: Vec<u8>)
    requires
        digest@.len() == 32,
        secret_key_valid(sk@),
    ensures
        r@ == ecdsa_sign_spec(digest@, sk@),
        r@.len() > 0,
        der_signature_parses(r@),
        ecdsa_verifies(digest@, r@, public_key_of(sk@)),
{
    let key = secp256k1::SecretKey::from_slice(sk).unwrap();
    let msg = secp256k1::Message::from_digest_slice(digest).unwrap();
    secp256k1::Secp256k1::new().sign_ecdsa(&msg, &key).serialize_der().to_vec()
}

/// `secp256k1::PublicKey::from_slice`: whether `pk` parses; the serialized
/// public key of a valid secret key always does.
#[verifier::external_body]
pub(crate) fn public_key_check(pk: &[u8]) -> (r: bool)
    ensures
        r == public_key_parses(pk@),
        forall|sk: Seq<u8>| #[trigger] public_key_of(sk) == pk@ && secret_key_valid(sk) ==> r,
{
    secp256k1::PublicKey::from_slice(pk).is_ok()
}

/// `secp256k1::ecdsa::Signature::from_der`: whether `sig` parses; a
/// DER-serialized signature made by `sign_ecdsa` always does.
#[verifier::external_body]
pub(crate) fn der_signature_check(sig: &[u8]) -> (r: bool)
    ensures
        r == der_signature_parses(sig@),
        forall|d: Seq<u8>, sk: Seq<u8>|
            #[trigger] ecdsa_sign_spec(d, sk) == sig@ && d.len() == 32 && secret_key_valid(sk) ==> r,
{
    secp256k1::ecdsa::Signature::from_der(sig).is_ok()
}

/// `secp256k1::Secp256k1::verify_ecdsa` of a 32-byte digest. A signature
/// that `sign_ecdsa` made of the digest with a secret key verifies under
/// that key's public key (ECDSA's correctness).
#[verifier::external_body]
pub(crate) fn ecdsa_verify(digest: &[u8], sig: &[u8], pk: &[u8]) -> (r: bool)
    requires
        digest@.len() == 32,
        der_signature_parses(sig@),
        public_key_parses(pk@),
    ensures
        r == ecdsa_verifies(digest@, sig@, pk@),
        forall|sk: Seq<u8>|
            #[trigger] ecdsa_sign_spec(digest@, sk) == sig@ && public_key_of(sk) == pk@ && secret_key_valid(sk)
                ==> r,
{
    let key = secp256k1::PublicKey::from_slice(pk).unwrap();
    let signature = secp256k1::ecdsa::Signature::from_der(sig).unwrap();
    let msg = secp256k1::Message::from_digest_slice(digest).unwrap();
    secp256k1::Secp256k1::verification_only().verify_ecdsa(&msg, &signature, &key).is_ok()
}

/// `bs58::encode(..).into_string()`.
#[verifier::external_body]
pub(crate) fn base58_encode(b: &[u8]) -> (r: String)
    ensures
        r@ == base58_encode_spec(b@),
{
    bs58::encode(b).into_string()
}

/// `bs58::decode(..).into_vec()`, `None` on a decoding error. Decoding what
/// `bs58::encode` made gives the encoded bytes back.
#[verifier::external_body]
pub(crate) fn base58_decode(s: &str) -> (r: Option<Vec<u8>>)
    ensures
        match r {
            Some(v) => base58_decode_spec(s@) == Some(v@),
            None => base58_decode_spec(s@) is None,
        },
        forall|b: Seq<u8>| #[trigger] base58_encode_spec(b) == s@ ==> r is Some && r.unwrap()@ == b,
{
    bs58::decode(s).into_vec().ok()
}

} // verus!
