//! Key derivation shared by the channel modes: domain-separated HKDF-SHA-256.

use crate::primitives::{hkdf_sha256, hkdf_sha256_okm};
use crate::text::{ascii_bytes, push_ascii, push_bytes};
use vstd::prelude::*;

verus! {

/// The default application context, `cryptonugget:v1`, as ASCII bytes.
pub open spec fn default_context() -> Seq<u8> {
    ascii_bytes("cryptonugget:v1"@)
}

/// The default application context, `cryptonugget:v1`.
pub fn default_context_bytes() -> (context: &'static [u8])
    ensures
        context@ == default_context(),
{
    let text: &'static str = "cryptonugget:v1";
    proof {
        reveal_strlit("cryptonugget:v1");
        vstd::string::is_ascii_spec_bytes(text);
    }
    let context = text.as_bytes();
    assert(context@ =~= default_context());
    context
}

/// HKDF salt with domain separation: `label‖0x00‖context`.
pub open spec fn domain_salt(label: Seq<char>, context: Seq<u8>) -> Seq<u8> {
    ascii_bytes(label) + seq![0u8] + context
}

/// A 32-byte key derived with HKDF-SHA-256.
pub open spec fn key32(salt: Seq<u8>, ikm: Seq<u8>, info: Seq<u8>) -> Seq<u8> {
    hkdf_sha256_okm(salt, ikm, info, 32)
}

/// Builds the salt `label‖0x00‖context`.
pub fn domain_salt_bytes(label: &str, context: &[u8]) -> (salt: Vec<u8>)
    requires
        label.is_ascii(),
    ensures
        salt@ == domain_salt(label@, context@),
{
    let mut salt: Vec<u8> = Vec::new();
    push_ascii(&mut salt, label);
    salt.push(0u8);
    push_bytes(&mut salt, context);
    assert(salt@ =~= domain_salt(label@, context@));
    salt
}

/// Derives a 32-byte key from `ikm` with HKDF-SHA-256 under `salt` and `info`.
pub fn derive_key32(salt: &[u8], ikm: &[u8], info: &[u8]) -> (key: [u8; 32])
    ensures
        key@ == key32(salt@, ikm@, info@),
{
    let mut key = [0u8; 32];
    hkdf_sha256(salt, ikm, info, &mut key);
    key
}

/// Derives a 32-byte key from `ikm` with HKDF-SHA-256 under `salt` and the
/// ASCII label `info`.
pub fn derive_key32_labelled(salt: &[u8], ikm: &[u8], info: &str) -> (key: [u8; 32])
    requires
        info.is_ascii(),
    ensures
        key@ == key32(salt@, ikm@, ascii_bytes(info@)),
{
    let mut label: Vec<u8> = Vec::new();
    push_ascii(&mut label, info);
    assert(label@ =~= ascii_bytes(info@));
    derive_key32(salt, ikm, label.as_slice())
}

} // verus!
