//! The 256-bit master seed and its transfer token.

use crate::error::{same_error, Error};
use crate::primitives::{
    base64_decode, base64_decode_text, base64_encode, base64_encode_text, random_32_bytes,
};
use crate::text::array32;
use vstd::prelude::*;

verus! {

/// A 256-bit master seed.
///
/// Create one with [`MasterSeed::generate`]. [`MasterSeed::export_for_transfer`]
/// exists to move it between devices; treat its output as the root secret.
/// The type has no `Clone`: copying the root secret takes the explicit
/// export/import round trip.
pub struct MasterSeed {
    bytes: [u8; 32],
}

impl View for MasterSeed {
    type V = Seq<u8>;

    closed spec fn view(&self) -> Seq<u8> {
        self.bytes@
    }
}

/// Every byte is zero.
pub open spec fn all_zero(b: Seq<u8>) -> bool {
    forall|i: int| 0 <= i < b.len() ==> b[i] == 0
}

/// What a transfer token gives: the seed bytes, `SemillaInvalida` when they
/// are not 32 bytes or are all zero, or `Base64` (with the decoder's message)
/// when the token is not base64.
pub open spec fn transfer_token_seed(token: Seq<char>) -> Result<Seq<u8>, Error> {
    match base64_decode_text(token) {
        None => Err(Error::Base64(arbitrary())),
        Some(b) => if b.len() != 32 || all_zero(b) {
            Err(Error::SemillaInvalida)
        } else {
            Ok(b)
        },
    }
}

/// A seed result that agrees with `expected` (for `Base64`, whatever message came with it).
pub open spec fn seed_result_matches(r: Result<MasterSeed, Error>, expected: Result<Seq<u8>, Error>) -> bool {
    match (r, expected) {
        (Ok(s), Ok(b)) => s@ == b,
        (Err(e), Err(f)) => same_error(e, f),
        _ => false,
    }
}

impl MasterSeed {
    /// Generates a master seed from the operating system's CSPRNG.
    pub fn generate() -> (seed: Self)
        ensures
            seed@.len() == 32,
    {
        Self { bytes: random_32_bytes() }
    }

    /// Builds a seed from exactly 32 bytes; refuses the all-zero seed.
    ///
    /// Use it only with bytes from a high-entropy source.
    pub fn from_bytes(bytes: [u8; 32]) -> (r: Result<Self, Error>)
        ensures
            r is Ok <==> !all_zero(bytes@),
            r matches Ok(s) ==> s@ == bytes@,
            r matches Err(e) ==> e == Error::SemillaInvalida,
    {
        let mut i: usize = 0;
        while i < 32
            invariant
                i <= 32,
                forall|j: int| 0 <= j < i ==> bytes@[j] == 0,
            decreases 32 - i,
        {
            if bytes[i] != 0 {
                return Ok(Self { bytes });
            }
            i = i + 1;
        }
        Err(Error::SemillaInvalida)
    }

    /// Imports a seed from a transfer token made by [`MasterSeed::export_for_transfer`].
    pub fn from_transfer_token(token: &str) -> (r: Result<Self, Error>)
        ensures
            seed_result_matches(r, transfer_token_seed(token@)),
            r matches Ok(s) ==> base64_decode_text(token@) == Some(s@) && s@.len() == 32,
    {
        let decoded = match base64_decode(token) {
            Ok(d) => d,
            Err(e) => {
                return Err(Error::Base64(e.to_string()));
            },
        };
        if decoded.len() != 32 {
            return Err(Error::SemillaInvalida);
        }
        let bytes = array32(decoded.as_slice());
        Self::from_bytes(bytes)
    }

    /// Exports the seed as a transfer token (standard base64 of its 32 bytes).
    ///
    /// The token is equivalent to the root key: exposing it compromises every
    /// session derived from this seed.
    pub fn export_for_transfer(&self) -> (token: String)
        ensures
            token@ == base64_encode_text(self@),
            base64_decode_text(token@) == Some(self@),
    {
        base64_encode(&self.bytes)
    }

    /// The seed's bytes, for the key derivations inside the crate.
    pub(crate) fn as_bytes(&self) -> (bytes: &[u8; 32])
        ensures
            bytes@ == self@,
    {
        &self.bytes
    }
}

/// A transfer token yields a seed only when it is base64 of exactly 32
/// bytes that are not all zero, and the seed is those bytes; a token that
/// decodes to any other length is refused with `SemillaInvalida`.
pub proof fn lemma_transfer_token_is_decoded_seed(token: Seq<char>)
    ensures
        transfer_token_seed(token) matches Ok(b) ==> base64_decode_text(token) == Some(b) && b.len()
            == 32 && !all_zero(b),
        (base64_decode_text(token) matches Some(b) && b.len() != 32) ==> transfer_token_seed(token)
            == Err::<Seq<u8>, Error>(Error::SemillaInvalida),
        base64_decode_text(token) is None ==> transfer_token_seed(token) is Err,
{
}

/// A seed that is not all zero survives the transfer round trip: importing
/// its token (text that decodes to its bytes, as `export_for_transfer`
/// produces) gives the same seed.
pub proof fn lemma_transfer_roundtrip(seed: Seq<u8>, token: Seq<char>)
    requires
        seed.len() == 32,
        !all_zero(seed),
        base64_decode_text(token) == Some(seed),
    ensures
        transfer_token_seed(token) == Ok::<Seq<u8>, Error>(seed),
{
}

} // verus!
