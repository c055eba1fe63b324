//! The ratcheted, strictly ordered channel between two parties.
//!
//! Outbound packets use wire v2 ([`crate::Packet`]); inbound wire v1 is still
//! accepted. Caller associated data can be bound into the tag with
//! [`CryptoNugget::cifrar_bytes_with_aad`] and
//! [`CryptoNugget::descifrar_bytes_with_aad`]; the calls without it use empty
//! associated data, which gives the same bytes as not binding any.

use crate::derive::{
    default_context, default_context_bytes, derive_key32_labelled, domain_salt,
    domain_salt_bytes, key32,
};
use crate::error::{same_error, Error};
use crate::packet::{
    aad_consistent, aad_flags, aad_matches_flags, build_internal_aad_v1, build_internal_aad_v2_with_epoch, bytes_result_matches,
    internal_aad_v1, internal_aad_v2, lemma_aad_flags_consistent, lemma_wire_roundtrip, parse_base64_wire, Packet,
    PacketModel, FLAG_AAD_PRESENT, V2_HEADER_LEN, WIRE_VERSION_V1, WIRE_VERSION_V2,
};
use crate::primitives::{
    aes256gcm_decrypt, aes256gcm_encrypt, aes256gcm_open, aes256gcm_seal, base64_decode_text,
    base64_encode_text, hkdf_sha256, hkdf_sha256_okm, random_nonce, string_from_utf8, wipe_key,
    AEAD_MAX_LEN, AEAD_TAG_LEN,
};
use crate::seed::{all_zero, seed_result_matches, transfer_token_seed, MasterSeed};
use crate::text::{
    ascii_bytes, decimal_text, has_prefix, hex_text, lemma_hex_text_len, push_ascii, push_decimal,
    push_hex, strip_prefix_chars,
};
use vstd::prelude::*;
use vstd::string::*;
use vstd::utf8::{
    decode_utf8, encode_utf8, encode_utf8_decode_utf8, encode_utf8_valid_utf8, valid_utf8,
};

verus! {

/// Explicit role of a participant in the channel.
#[derive(Debug, Clone, Copy, PartialEq, Eq, Structural)]
pub enum Role {
    /// First participant: sends with key A and receives with key B.
    Initiator,
    /// Second participant: sends with key B and receives with key A.
    Responder,
}

/// State of one end of the ordered channel: the current send and receive
/// keys, which change after every message, the message counters, the
/// snapshot epoch and the application context.
pub struct CryptoNugget {
    pub(crate) tx_key: [u8; 32],
    pub(crate) rx_key: [u8; 32],
    pub(crate) tx_seq: u64,
    pub(crate) rx_seq: u64,
    pub(crate) epoch: u64,
    pub(crate) context: Vec<u8>,
    pub(crate) requires_resume_ack: bool,
}

/// The mathematical value of a `CryptoNugget`.
pub struct NuggetState {
    pub tx_key: Seq<u8>,
    pub rx_key: Seq<u8>,
    pub tx_seq: u64,
    pub rx_seq: u64,
    pub epoch: u64,
    pub context: Seq<u8>,
    pub requires_resume_ack: bool,
}

impl View for CryptoNugget {
    type V = NuggetState;

    closed spec fn view(&self) -> NuggetState {
        NuggetState {
            tx_key: self.tx_key@,
            rx_key: self.rx_key@,
            tx_seq: self.tx_seq,
            rx_seq: self.rx_seq,
            epoch: self.epoch,
            context: self.context@,
            requires_resume_ack: self.requires_resume_ack,
        }
    }
}

/// The view of a channel is made of its fields.
pub(crate) proof fn lemma_view_fields(n: &CryptoNugget)
    ensures
        n@ == (NuggetState {
            tx_key: n.tx_key@,
            rx_key: n.rx_key@,
            tx_seq: n.tx_seq,
            rx_seq: n.rx_seq,
            epoch: n.epoch,
            context: n.context@,
            requires_resume_ack: n.requires_resume_ack,
        }),
{
}

/// A key of the ordered channel: HKDF-SHA-256 of the seed under the salt
/// `CryptoNugget:seed:v1‖0x00‖context` and the ASCII label `label`.
pub open spec fn channel_key(seed: Seq<u8>, context: Seq<u8>, label: Seq<char>) -> Seq<u8> {
    key32(domain_salt("CryptoNugget:seed:v1"@, context), seed, ascii_bytes(label))
}

/// A fresh ordered channel: the initiator sends with key A and receives with
/// key B, the responder the other way round; counters and epoch at 0.
pub open spec fn initial_state(seed: Seq<u8>, role: Role, context: Seq<u8>) -> NuggetState {
    let a = channel_key(seed, context, "tx-key:a"@);
    let b = channel_key(seed, context, "tx-key:b"@);
    NuggetState {
        tx_key: match role {
            Role::Initiator => a,
            Role::Responder => b,
        },
        rx_key: match role {
            Role::Initiator => b,
            Role::Responder => a,
        },
        tx_seq: 0,
        rx_seq: 0,
        epoch: 0,
        context,
        requires_resume_ack: false,
    }
}

/// One ratchet step: the next key is HKDF-SHA-256 of the current one under
/// the salt `CryptoNugget:ratchet:v1` and the label `ratchet-key:v1`.
pub open spec fn ratchet(key: Seq<u8>) -> Seq<u8> {
    key32(ascii_bytes("CryptoNugget:ratchet:v1"@), key, ascii_bytes("ratchet-key:v1"@))
}

/// Associated data of the next packet sent with caller data `user_aad`.
pub open spec fn send_aad(st: NuggetState, user_aad: Seq<u8>) -> Seq<u8> {
    internal_aad_v2(aad_flags(user_aad), st.tx_seq, user_aad, st.epoch)
}

/// The message and its associated data are within the AEAD limits.
pub open spec fn send_fits(st: NuggetState, plaintext: Seq<u8>, user_aad: Seq<u8>) -> bool {
    plaintext.len() <= AEAD_MAX_LEN && send_aad(st, user_aad).len() <= AEAD_MAX_LEN
}

/// Sending succeeds: the state is not waiting for a resume acknowledgement,
/// the message fits, and the send counter has room for another message.
pub open spec fn can_send(st: NuggetState, plaintext: Seq<u8>, user_aad: Seq<u8>) -> bool {
    !st.requires_resume_ack && send_fits(st, plaintext, user_aad) && st.tx_seq < u64::MAX
}

/// The error of a send that does not succeed.
pub open spec fn send_error(st: NuggetState) -> Error {
    if st.requires_resume_ack {
        Error::EstadoSinReanudar
    } else {
        Error::Cifrado
    }
}

/// The state after a send attempt: unchanged when the state awaits a resume
/// acknowledgement or the message does not fit; otherwise the send key
/// ratchets, and the counter advances when it has room.
pub open spec fn state_after_send(st: NuggetState, plaintext: Seq<u8>, user_aad: Seq<u8>) -> NuggetState {
    if st.requires_resume_ack || !send_fits(st, plaintext, user_aad) {
        st
    } else if st.tx_seq == u64::MAX {
        NuggetState { tx_key: ratchet(st.tx_key), ..st }
    } else {
        NuggetState { tx_key: ratchet(st.tx_key), tx_seq: (st.tx_seq + 1) as u64, ..st }
    }
}

/// The packet sent for `plaintext` with `user_aad` under `nonce`.
pub open spec fn sent_packet(st: NuggetState, plaintext: Seq<u8>, user_aad: Seq<u8>, nonce: Seq<u8>) -> PacketModel {
    PacketModel {
        version: WIRE_VERSION_V2,
        flags: aad_flags(user_aad),
        sequence: st.tx_seq,
        nonce,
        ciphertext: aes256gcm_seal(st.tx_key, nonce, plaintext, send_aad(st, user_aad)),
    }
}

/// Packet `p` is the one sent from state `st` for `plaintext` with caller
/// data `user_aad` (under the packet's own nonce), and it authenticates to
/// `plaintext` under the sender's key and associated data.
pub open spec fn carries(st: NuggetState, plaintext: Seq<u8>, user_aad: Seq<u8>, p: PacketModel) -> bool {
    &&& p == sent_packet(st, plaintext, user_aad, p.nonce)
    &&& p.nonce.len() == 12
    &&& aes256gcm_open(st.tx_key, p.nonce, p.ciphertext, send_aad(st, user_aad)) == Some(plaintext)
}

/// Authentication of packet `p` under the receive key: for v2, with the
/// receiver's epoch and, while that epoch is 0, with epoch 1 as well (the
/// peer may have resumed from a snapshot); for v1, with the v1 associated
/// data. Gives the plaintext and the epoch that authenticated it.
pub open spec fn receive_open(st: NuggetState, p: PacketModel, user_aad: Seq<u8>) -> Option<(Seq<u8>, u64)> {
    if p.version == WIRE_VERSION_V2 {
        match aes256gcm_open(st.rx_key, p.nonce, p.ciphertext, internal_aad_v2(p.flags, p.sequence, user_aad, st.epoch)) {
            Some(plaintext) => Some((plaintext, st.epoch)),
            None => if st.epoch == 0 {
                match aes256gcm_open(st.rx_key, p.nonce, p.ciphertext, internal_aad_v2(p.flags, p.sequence, user_aad, 1)) {
                    Some(plaintext) => Some((plaintext, 1u64)),
                    None => None,
                }
            } else {
                None
            },
        }
    } else {
        match aes256gcm_open(st.rx_key, p.nonce, p.ciphertext, internal_aad_v1(p.sequence)) {
            Some(plaintext) => Some((plaintext, st.epoch)),
            None => None,
        }
    }
}

/// The packet's header is one the receiver accepts: version 2 with caller
/// data that agrees with its flags (no caller data unless flag bit 0 is set),
/// or version 1 without caller data; and its sequence number is the one the
/// receiver expects next.
pub open spec fn receive_admissible(st: NuggetState, p: PacketModel, user_aad: Seq<u8>) -> bool {
    &&& (p.version == WIRE_VERSION_V2 && aad_consistent(p.flags, user_aad)) || (p.version
        == WIRE_VERSION_V1 && user_aad.len() == 0)
    &&& p.sequence == st.rx_seq
}

/// What receiving packet `p` with caller data `user_aad` gives.
pub open spec fn receive_result(st: NuggetState, p: PacketModel, user_aad: Seq<u8>) -> Result<Seq<u8>, Error> {
    if p.version != WIRE_VERSION_V2 && p.version != WIRE_VERSION_V1 {
        Err(Error::VersionNoSoportada(p.version))
    } else if !receive_admissible(st, p, user_aad) {
        Err(Error::Autenticacion)
    } else {
        match receive_open(st, p, user_aad) {
            None => Err(Error::Autenticacion),
            Some((plaintext, _)) => if st.rx_seq == u64::MAX {
                Err(Error::Autenticacion)
            } else {
                Ok(plaintext)
            },
        }
    }
}

/// The state after a receive attempt: unchanged unless the packet
/// authenticates; then the receive key ratchets and, when the counter has
/// room, the counter advances and the epoch becomes the authenticated one.
pub open spec fn state_after_receive(st: NuggetState, p: PacketModel, user_aad: Seq<u8>) -> NuggetState {
    if !receive_admissible(st, p, user_aad) {
        st
    } else {
        match receive_open(st, p, user_aad) {
            None => st,
            Some((_, epoch)) => if st.rx_seq == u64::MAX {
                NuggetState { rx_key: ratchet(st.rx_key), ..st }
            } else {
                NuggetState {
                    rx_key: ratchet(st.rx_key),
                    rx_seq: (st.rx_seq + 1) as u64,
                    epoch,
                    ..st
                }
            },
        }
    }
}

/// What receiving base64 packet text gives (no caller associated data).
pub open spec fn receive_text_result(st: NuggetState, text: Seq<char>) -> Result<Seq<u8>, Error> {
    match parse_base64_wire(text) {
        Err(e) => Err(e),
        Ok(p) => receive_result(st, p, Seq::empty()),
    }
}

/// The state after receiving base64 packet text.
pub open spec fn state_after_receive_text(st: NuggetState, text: Seq<char>) -> NuggetState {
    match parse_base64_wire(text) {
        Err(_) => st,
        Ok(p) => state_after_receive(st, p, Seq::empty()),
    }
}

/// What receiving base64 packet text as a UTF-8 string gives.
pub open spec fn receive_string_result(st: NuggetState, text: Seq<char>) -> Result<Seq<char>, Error> {
    match receive_text_result(st, text) {
        Err(e) => Err(e),
        Ok(bytes) => if valid_utf8(bytes) {
            Ok(decode_utf8(bytes))
        } else {
            Err(Error::Utf8)
        },
    }
}

/// A string result that agrees with `expected` (for `Base64`, whatever
/// message came with it).
pub open spec fn string_result_matches(r: Result<String, Error>, expected: Result<Seq<char>, Error>) -> bool {
    match (r, expected) {
        (Ok(s), Ok(c)) => s@ == c,
        (Err(e), Err(f)) => same_error(e, f),
        _ => false,
    }
}

/// A 4-byte diagnostic fingerprint of a key: HKDF-SHA-256 under the salt
/// `CryptoNugget:fingerprint:v1` with the ASCII label `label`.
pub open spec fn fingerprint_bytes(key: Seq<u8>, label: Seq<char>) -> Seq<u8> {
    hkdf_sha256_okm(ascii_bytes("CryptoNugget:fingerprint:v1"@), key, ascii_bytes(label), 4)
}

/// Diagnostic text `TX:<hex> RX:<hex> SEQ:<tx_seq>/<rx_seq>` of a state.
pub open spec fn dna_text(st: NuggetState) -> Seq<char> {
    "TX:"@ + hex_text(fingerprint_bytes(st.tx_key, "fp:tx"@)) + " RX:"@ + hex_text(
        fingerprint_bytes(st.rx_key, "fp:rx"@),
    ) + " SEQ:"@ + decimal_text(st.tx_seq as nat) + "/"@ + decimal_text(st.rx_seq as nat)
}

/// The fixed beginning of an invitation link.
pub open spec fn link_prefix() -> Seq<char> {
    "nugget://sincronizar?v=1&semilla="@
}

/// What extracting the seed from an invitation link gives: the seed of the
/// transfer token after the link prefix, or `EnlaceInvalido`.
pub open spec fn link_seed(link: Seq<char>) -> Result<Seq<u8>, Error> {
    let prefix = link_prefix();
    if has_prefix(link, prefix) {
        match transfer_token_seed(link.subrange(prefix.len() as int, link.len() as int)) {
            Ok(b) => Ok(b),
            Err(_) => Err(Error::EnlaceInvalido),
        }
    } else {
        Err(Error::EnlaceInvalido)
    }
}

impl CryptoNugget {
    /// Creates a builder with the default context.
    pub fn builder(seed: &MasterSeed, role: Role) -> (b: crate::modes::Builder<'_>)
        ensures
            b.seed_of() == seed,
            b.role_of() == role,
            b.context_of()@ == default_context(),
            b.mode_of() == crate::modes::Mode::OrderedChannel,
    {
        crate::modes::Builder::new(seed, role, default_context_bytes())
    }

    /// Creates a builder with explicit domain separation.
    pub fn builder_with_context<'a>(seed: &'a MasterSeed, role: Role, context: &'a [u8]) -> (b: crate::modes::Builder<'a>)
        ensures
            b.seed_of() == seed,
            b.role_of() == role,
            b.context_of() == context,
            b.mode_of() == crate::modes::Mode::OrderedChannel,
    {
        crate::modes::Builder::new(seed, role, context)
    }

    /// Creates a channel end with the default context.
    pub fn new(seed: &MasterSeed, role: Role) -> (n: Self)
        ensures
            n@ == initial_state(seed@, role, default_context()),
    {
        Self::new_with_context(seed, role, default_context_bytes())
    }

    /// Creates a channel end with domain separation per application or
    /// protocol: the context should be stable and specific, for example
    /// `mi-app/chat/v1`.
    pub fn new_with_context(seed: &MasterSeed, role: Role, context: &[u8]) -> (n: Self)
        ensures
            n@ == initial_state(seed@, role, context@),
    {
        proof {
            reveal_strlit("CryptoNugget:seed:v1");
            reveal_strlit("tx-key:a");
            reveal_strlit("tx-key:b");
        }
        let salt = domain_salt_bytes("CryptoNugget:seed:v1", context);
        let seed_bytes = seed.as_bytes();
        let clave_a = derive_key32_labelled(salt.as_slice(), seed_bytes, "tx-key:a");
        let clave_b = derive_key32_labelled(salt.as_slice(), seed_bytes, "tx-key:b");
        let (tx, rx) = match role {
            Role::Initiator => (clave_a, clave_b),
            Role::Responder => (clave_b, clave_a),
        };
        let mut ctx: Vec<u8> = Vec::new();
        crate::text::push_bytes(&mut ctx, context);
        assert(ctx@ =~= context@);
        CryptoNugget {
            tx_key: tx,
            rx_key: rx,
            tx_seq: 0,
            rx_seq: 0,
            epoch: 0,
            context: ctx,
            requires_resume_ack: false,
        }
    }

    /// A channel end restored from a snapshot: it cannot send until
    /// [`CryptoNugget::mark_resumed`] is called.
    pub(crate) fn from_persisted_state(
        tx_key: [u8; 32],
        rx_key: [u8; 32],
        tx_seq: u64,
        rx_seq: u64,
        epoch: u64,
        context: Vec<u8>,
    ) -> (n: Self)
        ensures
            n@ == (NuggetState {
                tx_key: tx_key@,
                rx_key: rx_key@,
                tx_seq,
                rx_seq,
                epoch,
                context: context@,
                requires_resume_ack: true,
            }),
    {
        Self { tx_key, rx_key, tx_seq, rx_seq, epoch, context, requires_resume_ack: true }
    }

    /// Encrypts a UTF-8 text and returns the v2 packet as base64; the send key ratchets.
    pub fn cifrar(&mut self, texto_plano: &str) -> (r: Result<String, Error>)
        requires
            texto_plano.spec_bytes().len() + V2_HEADER_LEN + AEAD_TAG_LEN <= isize::MAX,
        ensures
            r is Ok <==> can_send(old(self)@, texto_plano.spec_bytes(), Seq::empty()),
            r matches Err(e) ==> e == send_error(old(self)@),
            r matches Ok(text) ==> (parse_base64_wire(text@) matches Ok(p) && carries(
                old(self)@,
                texto_plano.spec_bytes(),
                Seq::empty(),
                p,
            )),
            final(self)@ == state_after_send(old(self)@, texto_plano.spec_bytes(), Seq::empty()),
    {
        self.cifrar_bytes(texto_plano.as_bytes())
    }

    /// Binary variant of [`CryptoNugget::cifrar`]: same packet format and the
    /// same authentication, sequence and ratchet guarantees.
    pub fn cifrar_bytes(&mut self, plaintext: &[u8]) -> (r: Result<String, Error>)
        requires
            plaintext@.len() + V2_HEADER_LEN + AEAD_TAG_LEN <= isize::MAX,
        ensures
            r is Ok <==> can_send(old(self)@, plaintext@, Seq::empty()),
            r matches Err(e) ==> e == send_error(old(self)@),
            r matches Ok(text) ==> (parse_base64_wire(text@) matches Ok(p) && carries(
                old(self)@,
                plaintext@,
                Seq::empty(),
                p,
            )),
            final(self)@ == state_after_send(old(self)@, plaintext@, Seq::empty()),
    {
        let no_aad: Vec<u8> = Vec::new();
        assert(no_aad@ =~= Seq::<u8>::empty());
        let packet = match self.cifrar_bytes_with_aad(plaintext, no_aad.as_slice()) {
            Ok(p) => p,
            Err(e) => {
                return Err(e);
            },
        };
        let text = packet.to_base64();
        proof {
            lemma_wire_roundtrip(packet@);
        }
        Ok(text)
    }

    /// Encrypts `plaintext`, binding the caller associated data `user_aad`
    /// into the tag, under a fresh random nonce.
    ///
    /// The receiver must pass the same `user_aad` to
    /// [`CryptoNugget::descifrar_bytes_with_aad`]. An empty `user_aad` leaves
    /// flag bit 0 clear and gives the same bytes as [`CryptoNugget::cifrar_bytes`].
    pub fn cifrar_bytes_with_aad(&mut self, plaintext: &[u8], user_aad: &[u8]) -> (r: Result<Packet, Error>)
        requires
            plaintext@.len() + AEAD_TAG_LEN <= isize::MAX,
        ensures
            r is Ok <==> can_send(old(self)@, plaintext@, user_aad@),
            r matches Err(e) ==> e == send_error(old(self)@),
            r matches Ok(p) ==> carries(old(self)@, plaintext@, user_aad@, p@),
            r matches Ok(p) ==> p.ciphertext@.len() == plaintext@.len() + AEAD_TAG_LEN,
            final(self)@ == state_after_send(old(self)@, plaintext@, user_aad@),
    {
        if self.requires_resume_ack {
            return Err(Error::EstadoSinReanudar);
        }
        let nonce = random_nonce();
        self.cifrar_bytes_with_aad_and_nonce(plaintext, user_aad, nonce)
    }

    /// [`CryptoNugget::cifrar_bytes_with_aad`] with the nonce supplied by the
    /// caller, who must never use a nonce twice with the same key.
    pub fn cifrar_bytes_with_aad_and_nonce(&mut self, plaintext: &[u8], user_aad: &[u8], nonce: [u8; 12]) -> (r: Result<Packet, Error>)
        requires
            plaintext@.len() + AEAD_TAG_LEN <= isize::MAX,
        ensures
            r is Ok <==> can_send(old(self)@, plaintext@, user_aad@),
            r matches Err(e) ==> e == send_error(old(self)@),
            r matches Ok(p) ==> p.nonce == nonce,
            r matches Ok(p) ==> carries(old(self)@, plaintext@, user_aad@, p@),
            r matches Ok(p) ==> p.ciphertext@.len() == plaintext@.len() + AEAD_TAG_LEN,
            final(self)@ == state_after_send(old(self)@, plaintext@, user_aad@),
    {
        if self.requires_resume_ack {
            return Err(Error::EstadoSinReanudar);
        }
        let sequence = self.tx_seq;
        let flags: u8 = if user_aad.len() == 0 {
            0
        } else {
            FLAG_AAD_PRESENT
        };
        let internal_aad = build_internal_aad_v2_with_epoch(flags, sequence, user_aad, self.epoch);
        let ciphertext = match aes256gcm_encrypt(&self.tx_key, &nonce, plaintext, internal_aad.as_slice()) {
            Ok(c) => c,
            Err(_) => {
                return Err(Error::Cifrado);
            },
        };
        self.mutar_clave(true);
        self.tx_seq = match self.tx_seq.checked_add(1) {
            Some(next) => next,
            None => {
                return Err(Error::Cifrado);
            },
        };
        Ok(Packet { version: WIRE_VERSION_V2, flags, sequence, nonce, ciphertext })
    }

    /// Decrypts a base64 packet into UTF-8 text; the receive key ratchets.
    ///
    /// Accepts wire v2 and wire v1. A packet that authenticates advances the
    /// ratchet even when its plaintext is not UTF-8 (which gives `Utf8`).
    pub fn descifrar(&mut self, paquete_base64: &str) -> (r: Result<String, Error>)
        ensures
            string_result_matches(r, receive_string_result(old(self)@, paquete_base64@)),
            final(self)@ == state_after_receive_text(old(self)@, paquete_base64@),
    {
        let bytes = match self.descifrar_bytes(paquete_base64) {
            Ok(b) => b,
            Err(e) => {
                return Err(e);
            },
        };
        match string_from_utf8(bytes) {
            Ok(s) => Ok(s),
            Err(_) => Err(Error::Utf8),
        }
    }

    /// Binary variant of [`CryptoNugget::descifrar`]: parses the packet from
    /// base64 and opens it without caller associated data.
    pub fn descifrar_bytes(&mut self, paquete_base64: &str) -> (r: Result<Vec<u8>, Error>)
        ensures
            bytes_result_matches(r, receive_text_result(old(self)@, paquete_base64@)),
            final(self)@ == state_after_receive_text(old(self)@, paquete_base64@),
    {
        let packet = match Packet::from_base64(paquete_base64) {
            Ok(p) => p,
            Err(e) => {
                return Err(e);
            },
        };
        let no_aad: Vec<u8> = Vec::new();
        assert(no_aad@ =~= Seq::<u8>::empty());
        self.descifrar_bytes_with_aad(&packet, no_aad.as_slice())
    }

    /// Decrypts a packet, checking the expected caller associated data.
    ///
    /// For wire v2 the associated data is rebuilt from the header, the
    /// caller's data and the epoch; for wire v1 (which cannot carry caller
    /// data) it is the v1 header. Caller data that differs from what the
    /// packet was sent with gives `Autenticacion` (in particular, non-empty
    /// caller data for a packet sent without any), as does a sequence number
    /// other than the receiver's expected one or a packet that does not
    /// authenticate; none of these changes anything. Other versions give
    /// `VersionNoSoportada`.
    pub fn descifrar_bytes_with_aad(&mut self, packet: &Packet, user_aad: &[u8]) -> (r: Result<Vec<u8>, Error>)
        ensures
            bytes_result_matches(r, receive_result(old(self)@, packet@, user_aad@)),
            final(self)@ == state_after_receive(old(self)@, packet@, user_aad@),
    {
        let version = packet.version;
        if version != WIRE_VERSION_V2 && version != WIRE_VERSION_V1 {
            return Err(Error::VersionNoSoportada(version));
        }
        if version == WIRE_VERSION_V1 && user_aad.len() != 0 {
            return Err(Error::Autenticacion);
        }
        if version == WIRE_VERSION_V2 && !aad_matches_flags(packet.flags, user_aad) {
            return Err(Error::Autenticacion);
        }
        if packet.sequence != self.rx_seq {
            return Err(Error::Autenticacion);
        }
        let mut authenticated_epoch = self.epoch;
        let plaintext = if version == WIRE_VERSION_V2 {
            let internal_aad = build_internal_aad_v2_with_epoch(
                packet.flags,
                packet.sequence,
                user_aad,
                self.epoch,
            );
            match aes256gcm_decrypt(
                &self.rx_key,
                &packet.nonce,
                packet.ciphertext.as_slice(),
                internal_aad.as_slice(),
            ) {
                Ok(p) => p,
                Err(_) => {
                    if self.epoch != 0 {
                        return Err(Error::Autenticacion);
                    }
                    let next_epoch = self.epoch + 1;
                    let resumed_aad = build_internal_aad_v2_with_epoch(
                        packet.flags,
                        packet.sequence,
                        user_aad,
                        next_epoch,
                    );
                    match aes256gcm_decrypt(
                        &self.rx_key,
                        &packet.nonce,
                        packet.ciphertext.as_slice(),
                        resumed_aad.as_slice(),
                    ) {
                        Ok(p) => {
                            authenticated_epoch = next_epoch;
                            p
                        },
                        Err(_) => {
                            return Err(Error::Autenticacion);
                        },
                    }
                },
            }
        } else {
            let internal_aad = build_internal_aad_v1(packet.sequence);
            match aes256gcm_decrypt(
                &self.rx_key,
                &packet.nonce,
                packet.ciphertext.as_slice(),
                &internal_aad,
            ) {
                Ok(p) => p,
                Err(_) => {
                    return Err(Error::Autenticacion);
                },
            }
        };
        self.mutar_clave(false);
        self.rx_seq = match self.rx_seq.checked_add(1) {
            Some(next) => next,
            None => {
                return Err(Error::Autenticacion);
            },
        };
        self.epoch = authenticated_epoch;
        Ok(plaintext)
    }

    /// One ratchet step on the send key (`es_tx`) or the receive key; the old
    /// key and the temporary copy are wiped.
    fn mutar_clave(&mut self, es_tx: bool)
        ensures
            es_tx ==> final(self)@ == (NuggetState { tx_key: ratchet(old(self)@.tx_key), ..old(self)@ }),
            !es_tx ==> final(self)@ == (NuggetState { rx_key: ratchet(old(self)@.rx_key), ..old(self)@ }),
    {
        proof {
            reveal_strlit("CryptoNugget:ratchet:v1");
            reveal_strlit("ratchet-key:v1");
        }
        let mut salt: Vec<u8> = Vec::new();
        push_ascii(&mut salt, "CryptoNugget:ratchet:v1");
        assert(salt@ =~= ascii_bytes("CryptoNugget:ratchet:v1"@));
        let mut nueva_clave = if es_tx {
            derive_key32_labelled(salt.as_slice(), &self.tx_key, "ratchet-key:v1")
        } else {
            derive_key32_labelled(salt.as_slice(), &self.rx_key, "ratchet-key:v1")
        };
        if es_tx {
            wipe_key(&mut self.tx_key);
            self.tx_key = nueva_clave;
        } else {
            wipe_key(&mut self.rx_key);
            self.rx_key = nueva_clave;
        }
        wipe_key(&mut nueva_clave);
    }

    /// Diagnostic fingerprint of the ratchet state, for comparing states or
    /// spotting desynchronisation in local logs.
    ///
    /// The key parts are 4-byte one-way fingerprints (HKDF-SHA-256 under the
    /// fixed label `CryptoNugget:fingerprint:v1`); no raw key bytes appear.
    pub fn obtener_estado_adn(&self) -> (adn: String)
        ensures
            adn@ == dna_text(self@),
            adn@.len() >= 23,
            adn@.subrange(0, 3) == "TX:"@,
            adn@.subrange(3, 11) == hex_text(
                hkdf_sha256_okm(ascii_bytes("CryptoNugget:fingerprint:v1"@), self@.tx_key, ascii_bytes("fp:tx"@), 4),
            ),
            adn@.subrange(11, 15) == " RX:"@,
            adn@.subrange(15, 23) == hex_text(
                hkdf_sha256_okm(ascii_bytes("CryptoNugget:fingerprint:v1"@), self@.rx_key, ascii_bytes("fp:rx"@), 4),
            ),
            adn@.subrange(23, adn@.len() as int) == " SEQ:"@ + decimal_text(self@.tx_seq as nat) + "/"@
                + decimal_text(self@.rx_seq as nat),
    {
        proof {
            reveal_strlit("fp:tx");
            reveal_strlit("fp:rx");
            reveal_strlit("TX:");
            reveal_strlit(" RX:");
        }
        let tx_fp = fingerprint(&self.tx_key, "fp:tx");
        let rx_fp = fingerprint(&self.rx_key, "fp:rx");
        proof {
            lemma_hex_text_len(tx_fp@);
            lemma_hex_text_len(rx_fp@);
        }
        let mut out = String::new();
        out.append("TX:");
        push_hex(&mut out, &tx_fp);
        out.append(" RX:");
        push_hex(&mut out, &rx_fp);
        out.append(" SEQ:");
        push_decimal(&mut out, self.tx_seq);
        out.append("/");
        push_decimal(&mut out, self.rx_seq);
        assert(out@ =~= dna_text(self@));
        proof {
            let t = "TX:"@ + hex_text(tx_fp@);
            let r = t + " RX:"@ + hex_text(rx_fp@);
            assert(r.subrange(0, 3) =~= "TX:"@);
            assert(r.subrange(3, 11) =~= hex_text(tx_fp@));
            assert(r.subrange(11, 15) =~= " RX:"@);
            assert(r.subrange(15, 23) =~= hex_text(rx_fp@));
            assert(out@.subrange(0, 23) =~= r);
            assert(out@.subrange(23, out@.len() as int) =~= " SEQ:"@ + decimal_text(self.tx_seq as nat) + "/"@
                + decimal_text(self.rx_seq as nat));
        }
        out
    }

    /// Generates a master seed (same as [`MasterSeed::generate`]).
    pub fn generar_semilla_maestra() -> (seed: MasterSeed)
        ensures
            seed@.len() == 32,
    {
        MasterSeed::generate()
    }

    /// Packs the seed into an invitation link.
    ///
    /// The link holds the root secret: send it only over a secure, ephemeral channel.
    pub fn generar_enlace_invitacion(seed: &MasterSeed) -> (link: String)
        ensures
            link@ == link_prefix() + base64_encode_text(seed@),
            base64_decode_text(link@.subrange(link_prefix().len() as int, link@.len() as int)) == Some(
                seed@,
            ),
    {
        let mut link = String::from_str("nugget://sincronizar?v=1&semilla=");
        let token = seed.export_for_transfer();
        link.append(token.as_str());
        assert(link@.subrange(link_prefix().len() as int, link@.len() as int) =~= token@);
        link
    }

    /// Extracts the seed from an invitation link.
    pub fn extraer_semilla_de_enlace(enlace: &str) -> (r: Result<MasterSeed, Error>)
        ensures
            seed_result_matches(r, link_seed(enlace@)),
            r matches Ok(s) ==> has_prefix(enlace@, link_prefix()) && base64_decode_text(
                enlace@.subrange(link_prefix().len() as int, enlace@.len() as int),
            ) == Some(s@) && s@.len() == 32,
    {
        proof {
            reveal_strlit("nugget://sincronizar?v=1&semilla=");
        }
        match strip_prefix_chars(enlace, "nugget://sincronizar?v=1&semilla=") {
            Some(token) => match MasterSeed::from_transfer_token(token) {
                Ok(seed) => Ok(seed),
                Err(_) => Err(Error::EnlaceInvalido),
            },
            None => Err(Error::EnlaceInvalido),
        }
    }
}

/// Derives the 4-byte diagnostic fingerprint of a key.
fn fingerprint(key: &[u8; 32], label: &str) -> (fp: [u8; 4])
    requires
        label.is_ascii(),
    ensures
        fp@ == fingerprint_bytes(key@, label@),
{
    proof {
        reveal_strlit("CryptoNugget:fingerprint:v1");
    }
    let mut salt: Vec<u8> = Vec::new();
    push_ascii(&mut salt, "CryptoNugget:fingerprint:v1");
    let mut info: Vec<u8> = Vec::new();
    push_ascii(&mut info, label);
    let mut out = [0u8; 4];
    hkdf_sha256(salt.as_slice(), key, info.as_slice(), &mut out);
    out
}

/// Messages from `a` reach `b`: `b` receives with the key `a` sends with, it
/// expects the sequence `a` sends next, and both are in the same epoch.
pub open spec fn in_step(a: NuggetState, b: NuggetState) -> bool {
    a.tx_key == b.rx_key && a.tx_seq == b.rx_seq && a.epoch == b.epoch
}

/// Two channel ends are paired: in step in both directions.
pub open spec fn paired(a: NuggetState, b: NuggetState) -> bool {
    in_step(a, b) && in_step(b, a)
}

/// The initiator and the responder made from one seed and context start paired.
pub proof fn lemma_roles_start_paired(seed: Seq<u8>, context: Seq<u8>)
    ensures
        paired(initial_state(seed, Role::Initiator, context), initial_state(seed, Role::Responder, context)),
{
}

/// A packet that one end sent is received, with the same caller data, as
/// the same plaintext by an end that is in step with it, and the two stay in
/// step: by induction, messages sent in order in one direction are all
/// delivered and the ratchets never fall out of step.
pub proof fn lemma_delivery_in_step(
    a: NuggetState,
    b: NuggetState,
    plaintext: Seq<u8>,
    user_aad: Seq<u8>,
    p: PacketModel,
)
    requires
        in_step(a, b),
        can_send(a, plaintext, user_aad),
        carries(a, plaintext, user_aad, p),
    ensures
        receive_result(b, p, user_aad) == Ok::<Seq<u8>, Error>(plaintext),
        in_step(state_after_send(a, plaintext, user_aad), state_after_receive(b, p, user_aad)),
        state_after_receive(b, p, user_aad) == (NuggetState {
            rx_key: ratchet(b.rx_key),
            rx_seq: (b.rx_seq + 1) as u64,
            ..b
        }),
{
    lemma_aad_flags_consistent(user_aad);
}

/// A packet that one end of a paired channel sent is received by the other
/// end as the same plaintext, with the same caller data, and both ends stay
/// paired: by induction, the ratchets never fall out of step however many
/// messages go either way in order.
pub proof fn lemma_delivery_keeps_pair(
    a: NuggetState,
    b: NuggetState,
    plaintext: Seq<u8>,
    user_aad: Seq<u8>,
    p: PacketModel,
)
    requires
        paired(a, b),
        can_send(a, plaintext, user_aad),
        carries(a, plaintext, user_aad, p),
    ensures
        receive_result(b, p, user_aad) == Ok::<Seq<u8>, Error>(plaintext),
        paired(state_after_send(a, plaintext, user_aad), state_after_receive(b, p, user_aad)),
{
    lemma_delivery_in_step(a, b, plaintext, user_aad, p);
}

/// The base64 text that one end of a paired channel sent is received by the
/// other end as the same bytes, and both ends stay paired.
pub proof fn lemma_text_delivery_keeps_pair(
    a: NuggetState,
    b: NuggetState,
    plaintext: Seq<u8>,
    text: Seq<char>,
    p: PacketModel,
)
    requires
        paired(a, b),
        can_send(a, plaintext, Seq::empty()),
        parse_base64_wire(text) == Ok::<PacketModel, Error>(p),
        carries(a, plaintext, Seq::empty(), p),
    ensures
        receive_text_result(b, text) == Ok::<Seq<u8>, Error>(plaintext),
        paired(state_after_send(a, plaintext, Seq::empty()), state_after_receive_text(b, text)),
{
    lemma_delivery_keeps_pair(a, b, plaintext, Seq::empty(), p);
}

/// A text sent with `cifrar` by one end of a paired channel is read back by
/// the other end's `descifrar` as the same text.
pub proof fn lemma_string_delivery(a: NuggetState, b: NuggetState, message: Seq<char>, text: Seq<char>, p: PacketModel)
    requires
        paired(a, b),
        can_send(a, encode_utf8(message), Seq::empty()),
        parse_base64_wire(text) == Ok::<PacketModel, Error>(p),
        carries(a, encode_utf8(message), Seq::empty(), p),
    ensures
        receive_string_result(b, text) == Ok::<Seq<char>, Error>(message),
{
    lemma_text_delivery_keeps_pair(a, b, encode_utf8(message), text, p);
    encode_utf8_valid_utf8(message);
    encode_utf8_decode_utf8(message);
}

/// An authentic, in-order packet whose plaintext is not UTF-8 is refused by
/// `descifrar` with `Utf8`, yet the receive ratchet and counter advance, so
/// that the string and byte calls never leave the ends out of step.
pub proof fn lemma_non_utf8_delivery_advances(a: NuggetState, b: NuggetState, plaintext: Seq<u8>, text: Seq<char>, p: PacketModel)
    requires
        in_step(a, b),
        can_send(a, plaintext, Seq::empty()),
        parse_base64_wire(text) == Ok::<PacketModel, Error>(p),
        carries(a, plaintext, Seq::empty(), p),
        !valid_utf8(plaintext),
    ensures
        receive_string_result(b, text) == Err::<Seq<char>, Error>(Error::Utf8),
        state_after_receive_text(b, text) == (NuggetState {
            rx_key: ratchet(b.rx_key),
            rx_seq: (b.rx_seq + 1) as u64,
            ..b
        }),
        in_step(state_after_send(a, plaintext, Seq::empty()), state_after_receive_text(b, text)),
{
    lemma_delivery_in_step(a, b, plaintext, Seq::empty(), p);
}

/// A seed that is not all zero survives the invitation link: extracting the
/// seed from the link prefix followed by its transfer token gives it back.
pub proof fn lemma_invitation_roundtrip(seed: Seq<u8>, token: Seq<char>)
    requires
        seed.len() == 32,
        !all_zero(seed),
        base64_decode_text(token) == Some(seed),
    ensures
        link_seed(link_prefix() + token) == Ok::<Seq<u8>, Error>(seed),
{
    let link = link_prefix() + token;
    assert(link.subrange(0, link_prefix().len() as int) =~= link_prefix());
    assert(link.subrange(link_prefix().len() as int, link.len() as int) =~= token);
}

/// Whatever the packet's version, a packet that is received successfully
/// has authenticated under the receive key: the new receive key is one
/// HKDF-SHA-256 ratchet step of the old one (salt `CryptoNugget:ratchet:v1`,
/// label `ratchet-key:v1`), the counter advances by one, the send side and
/// context are untouched, and the receiver's new epoch is the epoch whose
/// associated data authenticated the packet: the old epoch, or epoch 1 when
/// the receiver was in epoch 0 (the sender resumed from a snapshot). A v1
/// packet authenticates under the v1 associated data and keeps the epoch.
pub proof fn lemma_receive_ratchets_and_adopts_epoch(st: NuggetState, p: PacketModel, user_aad: Seq<u8>)
    requires
        receive_result(st, p, user_aad) is Ok,
    ensures
        ({
            let next = state_after_receive(st, p, user_aad);
            let plaintext = receive_result(st, p, user_aad)->Ok_0;
            &&& next.rx_key == hkdf_sha256_okm(
                ascii_bytes("CryptoNugget:ratchet:v1"@),
                st.rx_key,
                ascii_bytes("ratchet-key:v1"@),
                32,
            )
            &&& next.rx_seq == st.rx_seq + 1
            &&& p.sequence == st.rx_seq
            &&& next.tx_key == st.tx_key
            &&& next.tx_seq == st.tx_seq
            &&& next.context == st.context
            &&& next.requires_resume_ack == st.requires_resume_ack
            &&& (next.epoch == st.epoch || (st.epoch == 0 && next.epoch == 1))
            &&& p.version == WIRE_VERSION_V2 ==> aes256gcm_open(
                st.rx_key,
                p.nonce,
                p.ciphertext,
                internal_aad_v2(p.flags, p.sequence, user_aad, next.epoch),
            ) == Some(plaintext)
            &&& p.version == WIRE_VERSION_V1 ==> next.epoch == st.epoch && aes256gcm_open(
                st.rx_key,
                p.nonce,
                p.ciphertext,
                internal_aad_v1(p.sequence),
            ) == Some(plaintext)
        }),
{
}

/// A receiver in epoch 0 given a packet that does not authenticate under
/// epoch 0 but does under epoch 1 (its peer resumed from a snapshot)
/// accepts it and moves to epoch 1, so that what it sends afterwards is in
/// the peer's epoch.
pub proof fn lemma_resume_epoch_adopted(st: NuggetState, p: PacketModel, user_aad: Seq<u8>, plaintext: Seq<u8>)
    requires
        st.epoch == 0,
        st.rx_seq < u64::MAX,
        p.version == WIRE_VERSION_V2,
        p.sequence == st.rx_seq,
        aad_consistent(p.flags, user_aad),
        aes256gcm_open(st.rx_key, p.nonce, p.ciphertext, internal_aad_v2(p.flags, p.sequence, user_aad, 0))
            is None,
        aes256gcm_open(st.rx_key, p.nonce, p.ciphertext, internal_aad_v2(p.flags, p.sequence, user_aad, 1))
            == Some(plaintext),
    ensures
        receive_result(st, p, user_aad) == Ok::<Seq<u8>, Error>(plaintext),
        state_after_receive(st, p, user_aad).epoch == 1,
{
    lemma_receive_ratchets_and_adopts_epoch(st, p, user_aad);
}

/// After a resume, the restored end (one epoch ahead) and its peer still in
/// epoch 0 become paired again once the peer receives a packet from the
/// restored end that only authenticates in the new epoch: replies then
/// decrypt in both directions.
pub proof fn lemma_resume_restores_pair(
    a: NuggetState,
    b: NuggetState,
    plaintext: Seq<u8>,
    user_aad: Seq<u8>,
    p: PacketModel,
)
    requires
        a.epoch == 1,
        b.epoch == 0,
        a.tx_key == b.rx_key,
        a.tx_seq == b.rx_seq,
        b.tx_key == a.rx_key,
        b.tx_seq == a.rx_seq,
        can_send(a, plaintext, user_aad),
        carries(a, plaintext, user_aad, p),
        aes256gcm_open(b.rx_key, p.nonce, p.ciphertext, internal_aad_v2(p.flags, p.sequence, user_aad, 0))
            is None,
    ensures
        receive_result(b, p, user_aad) == Ok::<Seq<u8>, Error>(plaintext),
        paired(state_after_send(a, plaintext, user_aad), state_after_receive(b, p, user_aad)),
{
    lemma_aad_flags_consistent(user_aad);
}

/// A legacy v1 peer that sends packets in order, ratcheting its key after
/// each one, is followed by the receiver: the v1 packet with the expected
/// sequence that authenticates under the receive key is received, and the
/// receiver's next key is the sender's next key, so the following packet,
/// v1 or v2, authenticates too.
pub proof fn lemma_v1_delivery_keeps_step(st: NuggetState, sender_key: Seq<u8>, p: PacketModel, plaintext: Seq<u8>)
    requires
        st.rx_key == sender_key,
        st.rx_seq < u64::MAX,
        p.version == WIRE_VERSION_V1,
        p.sequence == st.rx_seq,
        aes256gcm_open(sender_key, p.nonce, p.ciphertext, internal_aad_v1(p.sequence)) == Some(plaintext),
    ensures
        receive_result(st, p, Seq::empty()) == Ok::<Seq<u8>, Error>(plaintext),
        state_after_receive(st, p, Seq::empty()).rx_key == hkdf_sha256_okm(
            ascii_bytes("CryptoNugget:ratchet:v1"@),
            sender_key,
            ascii_bytes("ratchet-key:v1"@),
            32,
        ),
        state_after_receive(st, p, Seq::empty()).rx_seq == p.sequence + 1,
{
    lemma_receive_ratchets_and_adopts_epoch(st, p, Seq::empty());
}

/// The diagnostic text depends on the keys only through their fingerprints:
/// the send key through HKDF-SHA-256 with label `fp:tx`, the receive key
/// through label `fp:rx` (salt `CryptoNugget:fingerprint:v1`, 4 bytes). Two
/// states with the same counters whose send keys and receive keys have the
/// same fingerprints give the same text, whatever else differs.
pub proof fn lemma_dna_text_from_fingerprints(a: NuggetState, b: NuggetState)
    requires
        hkdf_sha256_okm(ascii_bytes("CryptoNugget:fingerprint:v1"@), a.tx_key, ascii_bytes("fp:tx"@), 4)
            == hkdf_sha256_okm(ascii_bytes("CryptoNugget:fingerprint:v1"@), b.tx_key, ascii_bytes("fp:tx"@), 4),
        hkdf_sha256_okm(ascii_bytes("CryptoNugget:fingerprint:v1"@), a.rx_key, ascii_bytes("fp:rx"@), 4)
            == hkdf_sha256_okm(ascii_bytes("CryptoNugget:fingerprint:v1"@), b.rx_key, ascii_bytes("fp:rx"@), 4),
        a.tx_seq == b.tx_seq,
        a.rx_seq == b.rx_seq,
    ensures
        dna_text(a) == dna_text(b),
{
}

/// A successful receive shows in the diagnostic text only in its receive
/// part: the send part is still the fingerprint (label `fp:tx`) of the
/// unchanged send key, the receive part becomes the fingerprint (label
/// `fp:rx`) of the ratcheted receive key, and the receive counter advances.
pub proof fn lemma_dna_text_after_receive(st: NuggetState, p: PacketModel, user_aad: Seq<u8>)
    requires
        receive_result(st, p, user_aad) is Ok,
    ensures
        dna_text(state_after_receive(st, p, user_aad)) == "TX:"@ + hex_text(
            hkdf_sha256_okm(ascii_bytes("CryptoNugget:fingerprint:v1"@), st.tx_key, ascii_bytes("fp:tx"@), 4),
        ) + " RX:"@ + hex_text(
            hkdf_sha256_okm(
                ascii_bytes("CryptoNugget:fingerprint:v1"@),
                hkdf_sha256_okm(
                    ascii_bytes("CryptoNugget:ratchet:v1"@),
                    st.rx_key,
                    ascii_bytes("ratchet-key:v1"@),
                    32,
                ),
                ascii_bytes("fp:rx"@),
                4,
            ),
        ) + " SEQ:"@ + decimal_text(st.tx_seq as nat) + "/"@ + decimal_text((st.rx_seq + 1) as nat),
{
    lemma_receive_ratchets_and_adopts_epoch(st, p, user_aad);
}

/// An invitation link yields a seed only when the text after the link
/// prefix is base64 of exactly 32 bytes that are not all zero, and the seed
/// is those bytes.
pub proof fn lemma_link_seed_is_decoded_token(link: Seq<char>)
    ensures
        link_seed(link) matches Ok(b) ==> {
            &&& has_prefix(link, link_prefix())
            &&& base64_decode_text(link.subrange(link_prefix().len() as int, link.len() as int)) == Some(b)
            &&& b.len() == 32
            &&& !all_zero(b)
        },
        has_prefix(link, link_prefix()) ==> ((base64_decode_text(
            link.subrange(link_prefix().len() as int, link.len() as int),
        ) matches Some(b) && b.len() != 32) ==> link_seed(link) == Err::<Seq<u8>, Error>(
            Error::EnlaceInvalido,
        )),
{
}

} // verus!
