//! `StatelessEnvelope`: authenticated encryption without session state.
//!
//! Every message derives its own key from the envelope's root key (itself
//! derived from the seed and the context) and the message's nonce. There is
//! no ratchet, no counter and no replay protection: the mode is for
//! independent blobs or events, where the caller deduplicates if needed.

use crate::derive::{
    default_context, default_context_bytes, derive_key32, derive_key32_labelled, domain_salt,
    domain_salt_bytes, key32,
};
use crate::error::Error;
use crate::packet::{
    aad_consistent, aad_flags, aad_matches_flags, build_internal_aad_v2, bytes_result_matches,
    internal_aad_v2, lemma_aad_flags_consistent, Packet, PacketModel, FLAG_AAD_PRESENT,
    WIRE_VERSION_V2,
};
use crate::primitives::{
    aes256gcm_decrypt, aes256gcm_encrypt, aes256gcm_open, aes256gcm_seal, hkdf_sha256_okm,
    random_nonce, wipe_key, AEAD_MAX_LEN, AEAD_TAG_LEN,
};
use crate::seed::MasterSeed;
use crate::text::{ascii_bytes, push_ascii};
use vstd::prelude::*;

verus! {

/// Stateless envelope for independent payloads.
pub struct StatelessEnvelope {
    root_key: [u8; 32],
}

impl View for StatelessEnvelope {
    type V = Seq<u8>;

    closed spec fn view(&self) -> Seq<u8> {
        self.root_key@
    }
}

/// The envelope's root key: HKDF-SHA-256 of the seed under the salt
/// `CryptoNugget:envelope:v1‖0x00‖context` and the label `stateless-envelope-root`.
pub open spec fn envelope_root_key(seed: Seq<u8>, context: Seq<u8>) -> Seq<u8> {
    key32(
        domain_salt("CryptoNugget:envelope:v1"@, context),
        seed,
        ascii_bytes("stateless-envelope-root"@),
    )
}

/// The key of the message with `nonce`: HKDF-SHA-256 of the root key under
/// the salt `CryptoNugget:envelope:message:v1`, with the nonce as label.
pub open spec fn envelope_message_key(root: Seq<u8>, nonce: Seq<u8>) -> Seq<u8> {
    key32(ascii_bytes("CryptoNugget:envelope:message:v1"@), root, nonce)
}

/// Associated data of an envelope sealed with caller data `user_aad`
/// (sequence 0, epoch 0).
pub open spec fn envelope_aad(user_aad: Seq<u8>) -> Seq<u8> {
    internal_aad_v2(aad_flags(user_aad), 0, user_aad, 0)
}

/// Sealing succeeds: the message and its associated data are within the AEAD limits.
pub open spec fn envelope_can_seal(plaintext: Seq<u8>, user_aad: Seq<u8>) -> bool {
    plaintext.len() <= AEAD_MAX_LEN && envelope_aad(user_aad).len() <= AEAD_MAX_LEN
}

/// The envelope sealed for `plaintext` with `user_aad` under `nonce`.
pub open spec fn envelope_packet(root: Seq<u8>, plaintext: Seq<u8>, user_aad: Seq<u8>, nonce: Seq<u8>) -> PacketModel {
    PacketModel {
        version: WIRE_VERSION_V2,
        flags: aad_flags(user_aad),
        sequence: 0,
        nonce,
        ciphertext: aes256gcm_seal(envelope_message_key(root, nonce), nonce, plaintext, envelope_aad(user_aad)),
    }
}

/// What opening envelope `p` with caller data `user_aad` gives: version 2
/// only; caller data for an envelope sealed without any, or an envelope that
/// does not authenticate, gives `Autenticacion`.
pub open spec fn envelope_open_result(root: Seq<u8>, p: PacketModel, user_aad: Seq<u8>) -> Result<Seq<u8>, Error> {
    if p.version != WIRE_VERSION_V2 {
        Err(Error::VersionNoSoportada(p.version))
    } else if !aad_consistent(p.flags, user_aad) {
        Err(Error::Autenticacion)
    } else {
        match aes256gcm_open(
            envelope_message_key(root, p.nonce),
            p.nonce,
            p.ciphertext,
            internal_aad_v2(p.flags, p.sequence, user_aad, 0),
        ) {
            Some(plaintext) => Ok(plaintext),
            None => Err(Error::Autenticacion),
        }
    }
}

impl StatelessEnvelope {
    /// Creates an envelope with the default context.
    pub fn new(seed: &MasterSeed) -> (e: Self)
        ensures
            e@ == envelope_root_key(seed@, default_context()),
    {
        Self::new_with_context(seed, default_context_bytes())
    }

    /// Creates an envelope with domain separation per application or protocol.
    pub fn new_with_context(seed: &MasterSeed, context: &[u8]) -> (e: Self)
        ensures
            e@ == envelope_root_key(seed@, context@),
    {
        proof {
            reveal_strlit("CryptoNugget:envelope:v1");
            reveal_strlit("stateless-envelope-root");
        }
        let salt = domain_salt_bytes("CryptoNugget:envelope:v1", context);
        let root_key = derive_key32_labelled(salt.as_slice(), seed.as_bytes(), "stateless-envelope-root");
        Self { root_key }
    }

    /// Seals an independent payload into a v2 packet (sequence 0) under a
    /// fresh random nonce.
    pub fn seal(&self, plaintext: &[u8], aad: &[u8]) -> (r: Result<Packet, Error>)
        requires
            plaintext@.len() + AEAD_TAG_LEN <= isize::MAX,
        ensures
            r is Ok <==> envelope_can_seal(plaintext@, aad@),
            r matches Err(e) ==> e == Error::Cifrado,
            r matches Ok(p) ==> p@ == envelope_packet(self@, plaintext@, aad@, p.nonce@),
            r matches Ok(p) ==> p.ciphertext@.len() == plaintext@.len() + AEAD_TAG_LEN,
            r matches Ok(p) ==> aes256gcm_open(
                envelope_message_key(self@, p.nonce@),
                p.nonce@,
                p.ciphertext@,
                envelope_aad(aad@),
            ) == Some(plaintext@),
    {
        let nonce = random_nonce();
        self.seal_with_nonce(plaintext, aad, nonce)
    }

    /// [`StatelessEnvelope::seal`] with the nonce supplied by the caller, who
    /// must never use a nonce twice with the same envelope.
    pub fn seal_with_nonce(&self, plaintext: &[u8], aad: &[u8], nonce: [u8; 12]) -> (r: Result<Packet, Error>)
        requires
            plaintext@.len() + AEAD_TAG_LEN <= isize::MAX,
        ensures
            r is Ok <==> envelope_can_seal(plaintext@, aad@),
            r matches Err(e) ==> e == Error::Cifrado,
            r matches Ok(p) ==> p@ == envelope_packet(self@, plaintext@, aad@, nonce@),
            r matches Ok(p) ==> p.ciphertext@.len() == plaintext@.len() + AEAD_TAG_LEN,
            r matches Ok(p) ==> aes256gcm_open(
                envelope_message_key(self@, nonce@),
                nonce@,
                p.ciphertext@,
                envelope_aad(aad@),
            ) == Some(plaintext@),
    {
        let mut key_bytes = self.derive_message_key(&nonce);
        let flags: u8 = if aad.len() == 0 {
            0
        } else {
            FLAG_AAD_PRESENT
        };
        let internal_aad = build_internal_aad_v2(flags, 0, aad);
        let sealed = aes256gcm_encrypt(&key_bytes, &nonce, plaintext, internal_aad.as_slice());
        wipe_key(&mut key_bytes);
        let ciphertext = match sealed {
            Ok(c) => c,
            Err(_) => {
                return Err(Error::Cifrado);
            },
        };
        Ok(Packet { version: WIRE_VERSION_V2, flags, sequence: 0, nonce, ciphertext })
    }

    /// Opens an independent payload; only wire v2 is accepted, and the
    /// caller data must be the one it was sealed with.
    pub fn open(&self, packet: &Packet, aad: &[u8]) -> (r: Result<Vec<u8>, Error>)
        ensures
            bytes_result_matches(r, envelope_open_result(self@, packet@, aad@)),
    {
        if packet.version != WIRE_VERSION_V2 {
            return Err(Error::VersionNoSoportada(packet.version));
        }
        if !aad_matches_flags(packet.flags, aad) {
            return Err(Error::Autenticacion);
        }
        let mut key_bytes = self.derive_message_key(&packet.nonce);
        let internal_aad = build_internal_aad_v2(packet.flags, packet.sequence, aad);
        let opened = aes256gcm_decrypt(
            &key_bytes,
            &packet.nonce,
            packet.ciphertext.as_slice(),
            internal_aad.as_slice(),
        );
        wipe_key(&mut key_bytes);
        match opened {
            Ok(p) => Ok(p),
            Err(_) => Err(Error::Autenticacion),
        }
    }

    /// Derives the key of the message with `nonce`.
    fn derive_message_key(&self, nonce: &[u8; 12]) -> (key: [u8; 32])
        ensures
            key@ == envelope_message_key(self@, nonce@),
    {
        proof {
            reveal_strlit("CryptoNugget:envelope:message:v1");
        }
        let mut salt: Vec<u8> = Vec::new();
        push_ascii(&mut salt, "CryptoNugget:envelope:message:v1");
        derive_key32(salt.as_slice(), &self.root_key, nonce)
    }
}

/// An envelope opens, under any envelope with the same root key (the same
/// seed and context), to the payload it sealed, with the same caller data,
/// however many times and in whatever order.
pub proof fn lemma_envelope_roundtrip(root: Seq<u8>, plaintext: Seq<u8>, user_aad: Seq<u8>, nonce: Seq<u8>)
    requires
        aes256gcm_open(
            envelope_message_key(root, nonce),
            nonce,
            envelope_packet(root, plaintext, user_aad, nonce).ciphertext,
            envelope_aad(user_aad),
        ) == Some(plaintext),
    ensures
        envelope_open_result(root, envelope_packet(root, plaintext, user_aad, nonce), user_aad)
            == Ok::<Seq<u8>, Error>(plaintext),
{
    lemma_aad_flags_consistent(user_aad);
}

/// Every envelope is sealed under its own message key: AES-256-GCM under
/// HKDF-SHA-256 of the root key with salt `CryptoNugget:envelope:message:v1`
/// and the envelope's nonce as the label, so envelopes with different nonces
/// use keys derived with different labels; it is opened under the key its
/// own nonce gives.
pub proof fn lemma_envelope_key_per_nonce(root: Seq<u8>, plaintext: Seq<u8>, user_aad: Seq<u8>, nonce: Seq<u8>, p: PacketModel, opener_aad: Seq<u8>)
    requires
        p.version == WIRE_VERSION_V2,
        aad_consistent(p.flags, opener_aad),
    ensures
        envelope_packet(root, plaintext, user_aad, nonce).ciphertext == aes256gcm_seal(
            hkdf_sha256_okm(ascii_bytes("CryptoNugget:envelope:message:v1"@), root, nonce, 32),
            nonce,
            plaintext,
            internal_aad_v2(aad_flags(user_aad), 0, user_aad, 0),
        ),
        envelope_packet(root, plaintext, user_aad, nonce).nonce == nonce,
        envelope_open_result(root, p, opener_aad) == (match aes256gcm_open(
            hkdf_sha256_okm(ascii_bytes("CryptoNugget:envelope:message:v1"@), root, p.nonce, 32),
            p.nonce,
            p.ciphertext,
            internal_aad_v2(p.flags, p.sequence, opener_aad, 0),
        ) {
            Some(m) => Ok::<Seq<u8>, Error>(m),
            None => Err(Error::Autenticacion),
        }),
{
}

} // verus!
