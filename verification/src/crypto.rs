//! The outside cryptography the token check relies on: URL-safe base64
//! without padding, and RSA public keys with RS256 signature checks from
//! OpenSSL. Every item here is trusted: its contract is stated, not proved.
use vstd::prelude::*;
use base64::Engine;
use openssl::bn::BigNum;
use openssl::hash::MessageDigest;
use openssl::pkey::PKey;
use openssl::rsa::Rsa;
use openssl::sign::Verifier;

verus! {

/// `base64::DecodeError`, the error of a failed base64 decoding.
#[verifier::external_type_specification]
#[verifier::external_body]
pub struct ExDecodeError(base64::DecodeError);

/// What the URL-safe, unpadded base64 engine of the `base64` crate decodes
/// the given bytes to, or `None` where it refuses them.
pub uninterp spec fn base64_url_decode(input: Seq<u8>) -> Option<Seq<u8>>;

/// `base64::engine::general_purpose::URL_SAFE_NO_PAD.decode`: the contract
/// claims that success and the decoded bytes are a function of the input.
#[verifier::external_body]
pub(crate) fn decode_base64_url(input: &[u8]) -> (r: Result<Vec<u8>, base64::DecodeError>)
    ensures
        match r {
            Ok(bytes) => base64_url_decode(input@) == Some(bytes@),
            Err(_) => base64_url_decode(input@) is None,
        },
{
    base64::engine::general_purpose::URL_SAFE_NO_PAD.decode(input)
}

/// Whether OpenSSL builds an RSA public key from the modulus and exponent
/// written as the hexadecimal texts `n_hex` and `e_hex`.
pub uninterp spec fn rsa_public_key_builds(n_hex: Seq<char>, e_hex: Seq<char>) -> bool;

/// Builds the public key with `BigNum::from_hex_str` for both texts,
/// `Rsa::from_public_components` and `PKey::from_rsa`, and answers whether
/// every step succeeded. The contract claims that the answer is a function
/// of the two texts, named `rsa_public_key_builds`. The texts may hold no NUL
/// character, as `from_hex_str` unwraps a C string made of them.
#[verifier::external_body]
pub(crate) fn rsa_public_key_accepted(n_hex: &str, e_hex: &str) -> (r: bool)
    requires
        !n_hex@.contains('\0'),
        !e_hex@.contains('\0'),
    ensures
        r == rsa_public_key_builds(n_hex@, e_hex@),
{
    match (BigNum::from_hex_str(n_hex), BigNum::from_hex_str(e_hex)) {
        (Ok(n), Ok(e)) => Rsa::from_public_components(n, e).and_then(PKey::from_rsa).is_ok(),
        _ => false,
    }
}

/// Whether OpenSSL takes `signature` for a valid RS256 signature (RSA with
/// PKCS#1 v1.5 padding over SHA-256) of `data` under the public key whose
/// modulus and exponent are the hexadecimal texts `n_hex` and `e_hex`; false
/// where OpenSSL cannot build that key.
pub uninterp spec fn rs256_valid(n_hex: Seq<char>, e_hex: Seq<char>, data: Seq<u8>, signature: Seq<
    u8,
>) -> bool;

/// Builds the public key with `BigNum::from_hex_str`,
/// `Rsa::from_public_components` and `PKey::from_rsa`, then checks the
/// signature with `Verifier::new` over `MessageDigest::sha256()`, one
/// `Verifier::update` with the data and `Verifier::verify`. The contract
/// claims that the answer is a function of the four arguments, named
/// `rs256_valid`; an error at any step answers false. The texts may hold no
/// NUL character, as `from_hex_str` unwraps a C string made of them.
#[verifier::external_body]
pub(crate) fn rs256_verify(n_hex: &str, e_hex: &str, data: &[u8], signature: &[u8]) -> (r: bool)
    requires
        !n_hex@.contains('\0'),
        !e_hex@.contains('\0'),
    ensures
        r == rs256_valid(n_hex@, e_hex@, data@, signature@),
{
    let key = match (BigNum::from_hex_str(n_hex), BigNum::from_hex_str(e_hex)) {
        (Ok(n), Ok(e)) => Rsa::from_public_components(n, e).and_then(PKey::from_rsa),
        _ => return false,
    };
    let key = match key {
        Ok(k) => k,
        Err(_) => return false,
    };
    let valid = match Verifier::new(MessageDigest::sha256(), &key) {
        Ok(mut v) => v.update(data).is_ok() && v.verify(signature).unwrap_or(false),
        Err(_) => false,
    };
    valid
}

} // verus!
