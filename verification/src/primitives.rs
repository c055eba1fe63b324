//! The cryptographic and encoding primitives that the channel is built on.
//!
//! Everything in this module is trusted: each item below states, as its
//! contract, what the called crate does, and Verus believes it without proof.
//! Results that would take pages to describe (AES-256-GCM, HKDF, HMAC,
//! SHA-256, base64) are given a name, a function of the arguments alone, so
//! that the rest of the library can speak of them exactly.

use aes_gcm::aead::Error as AeadFailure;
use aes_gcm::aead::{Aead, AeadCore, KeyInit, OsRng, Payload};
use aes_gcm::{Aes256Gcm, Key, Nonce};
use base64::engine::general_purpose::STANDARD;
use base64::Engine;
use hkdf::Hkdf;
use hmac::{Hmac, Mac};
use rand::RngCore;
use sha2::{Digest, Sha256};
use vstd::prelude::*;
use vstd::utf8::{decode_utf8, valid_utf8};
use zeroize::Zeroize;

verus! {

/// The error value of the `aead` crate (`aes_gcm::aead::Error`), carried opaquely.
#[verifier::external_type_specification]
#[verifier::external_body]
pub struct ExAeadError(AeadFailure);

/// The error value of `base64` decoding (`base64::DecodeError`), carried opaquely.
#[verifier::external_type_specification]
#[verifier::external_body]
pub struct ExDecodeError(base64::DecodeError);

/// The error value of `String::from_utf8` (`std::string::FromUtf8Error`), carried opaquely.
#[verifier::external_type_specification]
#[verifier::external_body]
pub struct ExFromUtf8Error(std::string::FromUtf8Error);

/// Largest plaintext (and associated data) length that AES-GCM accepts: 2^36 bytes.
pub const AEAD_MAX_LEN: u64 = 0x10_0000_0000;

/// Length in bytes of the AES-GCM authentication tag appended to every ciphertext.
pub const AEAD_TAG_LEN: usize = 16;

/// AES-256-GCM ciphertext (with its tag appended) of `msg` under `key`, `nonce`
/// and associated data `aad`.
pub uninterp spec fn aes256gcm_seal(key: Seq<u8>, nonce: Seq<u8>, msg: Seq<u8>, aad: Seq<u8>) -> Seq<u8>;

/// AES-256-GCM decryption of `ciphertext` (tag appended): `Some(plaintext)` when the
/// tag verifies under `key`, `nonce` and `aad`, `None` otherwise.
pub uninterp spec fn aes256gcm_open(key: Seq<u8>, nonce: Seq<u8>, ciphertext: Seq<u8>, aad: Seq<u8>) -> Option<Seq<u8>>;

/// HKDF-SHA-256 (extract with `salt`, then expand with `info`) of `ikm`, `len` bytes long.
pub uninterp spec fn hkdf_sha256_okm(salt: Seq<u8>, ikm: Seq<u8>, info: Seq<u8>, len: nat) -> Seq<u8>;

/// HMAC-SHA-256 tag of `msg` under `key`.
pub uninterp spec fn hmac_sha256_tag(key: Seq<u8>, msg: Seq<u8>) -> Seq<u8>;

/// SHA-256 digest of `data`.
pub uninterp spec fn sha256_digest(data: Seq<u8>) -> Seq<u8>;

/// Standard (RFC 4648, padded) base64 text of `bytes`.
pub uninterp spec fn base64_encode_text(bytes: Seq<u8>) -> Seq<char>;

/// Standard (RFC 4648, padded, canonical) base64 decoding of `text`: `None` when
/// `text` is not valid base64.
pub uninterp spec fn base64_decode_text(text: Seq<char>) -> Option<Seq<u8>>;

/// Encrypts `msg` with AES-256-GCM (`aes_gcm::Aes256Gcm`, `Aead::encrypt`).
///
/// Claims what the `aes-gcm` source shows: the call fails exactly when the
/// message or the associated data is longer than 2^36 bytes; otherwise it
/// returns the ciphertext followed by a 16-byte tag, which decrypts back to
/// `msg` under the same key, nonce and associated data.
#[verifier::external_body]
pub(crate) fn aes256gcm_encrypt(key: &[u8; 32], nonce: &[u8; 12], msg: &[u8], aad: &[u8]) -> (r: Result<Vec<u8>, AeadFailure>)
    requires
        msg@.len() + AEAD_TAG_LEN <= isize::MAX,
    ensures
        r is Ok <==> (msg@.len() <= AEAD_MAX_LEN && aad@.len() <= AEAD_MAX_LEN),
        r matches Ok(c) ==> c@ == aes256gcm_seal(key@, nonce@, msg@, aad@),
        r matches Ok(c) ==> c@.len() == msg@.len() + AEAD_TAG_LEN,
        r matches Ok(c) ==> aes256gcm_open(key@, nonce@, c@, aad@) == Some(msg@),
{
    let cipher = Aes256Gcm::new(Key::<Aes256Gcm>::from_slice(key));
    cipher.encrypt(Nonce::from_slice(nonce), Payload { msg, aad })
}

/// Decrypts `ciphertext` with AES-256-GCM (`aes_gcm::Aes256Gcm`, `Aead::decrypt`).
///
/// Claims that the call returns exactly the named decryption: the plaintext
/// when the tag verifies, an error otherwise.
#[verifier::external_body]
pub(crate) fn aes256gcm_decrypt(key: &[u8; 32], nonce: &[u8; 12], ciphertext: &[u8], aad: &[u8]) -> (r: Result<Vec<u8>, AeadFailure>)
    ensures
        r matches Ok(p) ==> aes256gcm_open(key@, nonce@, ciphertext@, aad@) == Some(p@),
        r is Err ==> aes256gcm_open(key@, nonce@, ciphertext@, aad@) is None,
{
    let cipher = Aes256Gcm::new(Key::<Aes256Gcm>::from_slice(key));
    cipher.decrypt(Nonce::from_slice(nonce), Payload { msg: ciphertext, aad })
}

/// A fresh 96-bit nonce from the operating system's generator
/// (`AeadCore::generate_nonce` with `OsRng`).
///
/// Nothing is claimed of the value: it is random. The call panics only if the
/// operating system cannot supply randomness.
#[verifier::external_body]
pub(crate) fn random_nonce() -> (r: [u8; 12]) {
    Aes256Gcm::generate_nonce(&mut OsRng).into()
}

/// 32 random bytes from the operating system's generator (`RngCore::fill_bytes`
/// on `OsRng`).
///
/// Nothing is claimed of the value: it is random. The call panics only if the
/// operating system cannot supply randomness.
#[verifier::external_body]
pub(crate) fn random_32_bytes() -> (r: [u8; 32]) {
    let mut bytes = [0u8; 32];
    OsRng.fill_bytes(&mut bytes);
    bytes
}

/// HKDF-SHA-256 (`hkdf::Hkdf::<Sha256>::new(Some(salt), ikm)` followed by
/// `expand(info, okm)`), filling all of `okm`.
///
/// Claims that `okm` receives the named output of its own length. `expand`
/// fails only for outputs longer than 255 * 32 bytes, which `requires` excludes.
#[verifier::external_body]
pub(crate) fn hkdf_sha256(salt: &[u8], ikm: &[u8], info: &[u8], okm: &mut [u8])
    requires
        old(okm)@.len() <= 8160,
    ensures
        final(okm)@ == hkdf_sha256_okm(salt@, ikm@, info@, old(okm)@.len()),
{
    let hk = Hkdf::<Sha256>::new(Some(salt), ikm);
    hk.expand(info, okm).expect("output no longer than 255 blocks");
}

/// HMAC-SHA-256 (`hmac::Hmac::<Sha256>`: `new_from_slice`, `update`, `finalize`).
///
/// Claims that the result is the named tag. HMAC takes keys of every length, so
/// `new_from_slice` does not fail.
#[verifier::external_body]
pub(crate) fn hmac_sha256(key: &[u8], msg: &[u8]) -> (r: [u8; 32])
    ensures
        r@ == hmac_sha256_tag(key@, msg@),
{
    let mut mac = <Hmac<Sha256> as Mac>::new_from_slice(key).expect("HMAC takes keys of any length");
    mac.update(msg);
    mac.finalize().into_bytes().into()
}

/// SHA-256 (`sha2::Sha256::digest`).
///
/// Claims that the result is the named digest.
#[verifier::external_body]
pub(crate) fn sha256(data: &[u8]) -> (r: [u8; 32])
    ensures
        r@ == sha256_digest(data@),
{
    Sha256::digest(data).into()
}

/// Standard base64 encoding (`base64::engine::general_purpose::STANDARD.encode`).
///
/// Claims that the result is the named encoding, and that decoding it with the
/// same engine gives `bytes` back. The length bound keeps the output length
/// computation inside `usize`, where the crate would otherwise panic.
#[verifier::external_body]
pub(crate) fn base64_encode(bytes: &[u8]) -> (r: String)
    requires
        bytes@.len() <= usize::MAX / 4 * 3,
    ensures
        r@ == base64_encode_text(bytes@),
        base64_decode_text(r@) == Some(bytes@),
{
    STANDARD.encode(bytes)
}

/// Standard base64 decoding (`base64::engine::general_purpose::STANDARD.decode`).
///
/// Claims that the call returns exactly the named decoding, or an error when
/// there is none.
#[verifier::external_body]
pub(crate) fn base64_decode(text: &str) -> (r: Result<Vec<u8>, base64::DecodeError>)
    ensures
        r matches Ok(b) ==> base64_decode_text(text@) == Some(b@),
        r is Err ==> base64_decode_text(text@) is None,
{
    STANDARD.decode(text)
}

/// Wipes a byte buffer (`zeroize::Zeroize` for `Vec<u8>`): the elements and the
/// spare capacity are overwritten with zeros and the length is set to 0.
#[verifier::external_body]
pub(crate) fn wipe_vec(bytes: &mut Vec<u8>)
    ensures
        final(bytes)@.len() == 0,
{
    bytes.zeroize();
}

/// Wipes a 32-byte key (`zeroize::Zeroize` for `[u8; 32]`): every byte becomes 0.
#[verifier::external_body]
pub(crate) fn wipe_key(key: &mut [u8; 32])
    ensures
        final(key)@ == Seq::new(32, |i: int| 0u8),
{
    key.zeroize();
}

/// UTF-8 validation (`String::from_utf8`).
///
/// Claims what the standard library documents: the bytes are accepted exactly
/// when they are valid UTF-8, and the string holds the characters they encode.
#[verifier::external_body]
pub(crate) fn string_from_utf8(bytes: Vec<u8>) -> (r: Result<String, std::string::FromUtf8Error>)
    ensures
        r is Ok <==> valid_utf8(bytes@),
        r matches Ok(s) ==> s@ == decode_utf8(bytes@),
{
    String::from_utf8(bytes)
}

} // verus!
