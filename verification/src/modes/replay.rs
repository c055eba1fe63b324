//! `ReplayWindowChannel`: a channel with an anti-replay window that accepts
//! out-of-order delivery.
//!
//! This mode uses stable per-direction keys: it does not have the per-message
//! ratchet of the ordered channel. It is opt-in, for transports that may
//! reorder messages.

use crate::derive::{
    default_context_bytes, derive_key32_labelled, domain_salt, domain_salt_bytes, key32,
};
use crate::error::Error;
use crate::modes::ordered::Role;
use crate::packet::{
    aad_consistent, aad_flags, aad_matches_flags, build_internal_aad_v2, bytes_result_matches,
    lemma_aad_flags_consistent, internal_aad_v2, Packet, PacketModel, WIRE_VERSION_V2,
};
use crate::primitives::{
    aes256gcm_decrypt, aes256gcm_encrypt, aes256gcm_open, aes256gcm_seal, random_nonce,
    AEAD_MAX_LEN, AEAD_TAG_LEN,
};
use crate::seed::MasterSeed;
use crate::text::ascii_bytes;
use vstd::prelude::*;

verus! {

/// Largest anti-replay window, in sequence numbers.
pub const MAX_WINDOW: u64 = 128;

/// Channel with an anti-replay window.
pub struct ReplayWindowChannel {
    tx_key: [u8; 32],
    rx_key: [u8; 32],
    tx_seq: u64,
    highest_seen: Option<u64>,
    seen_bitmap: u128,
    window: u64,
}

/// The mathematical value of a `ReplayWindowChannel`.
///
/// Bit `d` of `seen_bitmap` records that sequence `highest_seen - d` was accepted.
pub struct ReplayWindowState {
    pub tx_key: Seq<u8>,
    pub rx_key: Seq<u8>,
    pub tx_seq: u64,
    pub highest_seen: Option<u64>,
    pub seen_bitmap: u128,
    pub window: u64,
}

impl View for ReplayWindowChannel {
    type V = ReplayWindowState;

    closed spec fn view(&self) -> ReplayWindowState {
        ReplayWindowState {
            tx_key: self.tx_key@,
            rx_key: self.rx_key@,
            tx_seq: self.tx_seq,
            highest_seen: self.highest_seen,
            seen_bitmap: self.seen_bitmap,
            window: self.window,
        }
    }
}

/// A window size that the channel accepts: 1 to 128.
pub open spec fn window_valid(window: u64) -> bool {
    1 <= window <= MAX_WINDOW
}

/// Bit `delta` of the bitmap is set.
pub open spec fn bit_set(bitmap: u128, delta: u64) -> bool {
    bitmap & (1u128 << delta) != 0
}

/// The bitmask that keeps the low `window` bits.
pub open spec fn window_mask(window: u64) -> u128 {
    if window == 128 {
        u128::MAX
    } else {
        ((1u128 << window) - 1) as u128
    }
}

/// Whether `sequence` may still be accepted: any sequence before the first
/// one accepted, and any sequence above the highest one accepted; below it,
/// `FueraDeOrden` for sequences `window` or more behind, `Repetido` for
/// sequences already recorded.
pub open spec fn sequence_check(st: ReplayWindowState, sequence: u64) -> Result<(), Error> {
    match st.highest_seen {
        None => Ok(()),
        Some(highest) => if sequence > highest {
            Ok(())
        } else if highest - sequence >= st.window {
            Err(Error::FueraDeOrden)
        } else if bit_set(st.seen_bitmap, (highest - sequence) as u64) {
            Err(Error::Repetido)
        } else {
            Ok(())
        },
    }
}

/// The window after accepting `sequence`: a new highest sequence slides the
/// bitmap (dropping what falls out of the window), an older one sets its bit.
pub open spec fn record_seen(st: ReplayWindowState, sequence: u64) -> ReplayWindowState {
    match st.highest_seen {
        None => ReplayWindowState { highest_seen: Some(sequence), seen_bitmap: 1, ..st },
        Some(highest) => if sequence > highest {
            let shift = (sequence - highest) as u64;
            let slid: u128 = if shift >= 128 {
                1
            } else {
                (st.seen_bitmap << shift) | 1
            };
            ReplayWindowState {
                highest_seen: Some(sequence),
                seen_bitmap: slid & window_mask(st.window),
                ..st
            }
        } else {
            ReplayWindowState {
                seen_bitmap: st.seen_bitmap | (1u128 << ((highest - sequence) as u64)),
                ..st
            }
        },
    }
}

proof fn lemma_bit_of_shifted(b: u128, d: u64, k: u64)
    requires
        d + k < 128,
    ensures
        bit_set(b << k, (d + k) as u64) == bit_set(b, d),
{
    let e = (d + k) as u64;
    assert(((b << k) & (1u128 << e) != 0) == (b & (1u128 << d) != 0)) by (bit_vector)
        requires
            d + k < 128,
            e == d + k,
    ;
}

proof fn lemma_bit_of_or_one(x: u128, i: u64)
    requires
        1 <= i < 128,
    ensures
        bit_set(x | 1, i) == bit_set(x, i),
{
    assert(((x | 1) & (1u128 << i) != 0) == (x & (1u128 << i) != 0)) by (bit_vector)
        requires
            1 <= i < 128,
    ;
}

proof fn lemma_bit_zero_of_or_one(x: u128, window: u64)
    requires
        window_valid(window),
    ensures
        bit_set((x | 1) & window_mask(window), 0),
{
    if window == 128 {
        assert(((x | 1) & u128::MAX) & (1u128 << 0u64) != 0) by (bit_vector);
    } else {
        assert((((x | 1) & ((1u128 << window) - 1) as u128) & (1u128 << 0u64)) != 0) by (bit_vector)
            requires
                1 <= window < 128,
        ;
    }
}

proof fn lemma_bit_of_masked(x: u128, i: u64, window: u64)
    requires
        window_valid(window),
        i < window,
    ensures
        bit_set(x & window_mask(window), i) == bit_set(x, i),
{
    if window == 128 {
        assert(((x & u128::MAX) & (1u128 << i) != 0) == (x & (1u128 << i) != 0)) by (bit_vector)
            requires
                i < 128,
        ;
    } else {
        assert(((x & ((1u128 << window) - 1) as u128) & (1u128 << i) != 0) == (x & (1u128 << i)
            != 0)) by (bit_vector)
            requires
                i < window,
                window < 128,
        ;
    }
}

proof fn lemma_bit_of_or_bit(x: u128, i: u64, j: u64)
    requires
        i < 128,
        j < 128,
    ensures
        bit_set(x | (1u128 << j), j),
        bit_set(x, i) ==> bit_set(x | (1u128 << j), i),
{
    assert(((x | (1u128 << j)) & (1u128 << j)) != 0) by (bit_vector)
        requires
            j < 128,
    ;
    assert((x & (1u128 << i) != 0) ==> ((x | (1u128 << j)) & (1u128 << i) != 0)) by (bit_vector)
        requires
            i < 128,
            j < 128,
    ;
}

proof fn lemma_bit_of_one(d: u64)
    requires
        d < 128,
    ensures
        bit_set(1u128, d) == (d == 0),
{
    assert((1u128 & (1u128 << d) != 0) == (d == 0)) by (bit_vector)
        requires
            d < 128,
    ;
}

proof fn lemma_bit_of_shift(b: u128, d: u64, k: u64)
    requires
        d < 128,
        k < 128,
    ensures
        bit_set(b << k, d) == (d >= k && bit_set(b, (d - k) as u64)),
{
    if d >= k {
        lemma_bit_of_shifted(b, (d - k) as u64, k);
    } else {
        assert((b << k) & (1u128 << d) == 0) by (bit_vector)
            requires
                d < k,
                k < 128,
        ;
    }
}

proof fn lemma_bit_of_or_bit_exact(x: u128, i: u64, j: u64)
    requires
        i < 128,
        j < 128,
    ensures
        bit_set(x | (1u128 << j), i) == (bit_set(x, i) || i == j),
{
    assert(((x | (1u128 << j)) & (1u128 << i) != 0) == ((x & (1u128 << i) != 0) || i == j))
        by (bit_vector)
        requires
            i < 128,
            j < 128,
    ;
}

proof fn lemma_bit_of_or_one_exact(x: u128, i: u64)
    requires
        i < 128,
    ensures
        bit_set(x | 1, i) == (bit_set(x, i) || i == 0),
{
    assert(((x | 1) & (1u128 << i) != 0) == ((x & (1u128 << i) != 0) || i == 0)) by (bit_vector)
        requires
            i < 128,
    ;
}

/// Sequence `t` is recorded as accepted: it is at most the highest accepted
/// sequence, within the window behind it, and its bit is set.
pub open spec fn seen(st: ReplayWindowState, t: u64) -> bool {
    match st.highest_seen {
        None => false,
        Some(h) => t <= h && h - t < st.window && bit_set(st.seen_bitmap, (h - t) as u64),
    }
}

/// The highest accepted sequence after accepting `s`.
pub open spec fn highest_after(st: ReplayWindowState, s: u64) -> u64 {
    match st.highest_seen {
        None => s,
        Some(h) => if s > h {
            s
        } else {
            h
        },
    }
}

/// What recording an accepted sequence does to the set of recorded ones:
/// `s` joins it, the highest becomes the larger of the old highest and `s`,
/// and exactly the sequences that fall `window` or more behind the new
/// highest leave it.
pub proof fn lemma_record_seen_exact(st: ReplayWindowState, s: u64, t: u64)
    requires
        window_valid(st.window),
        sequence_check(st, s) is Ok,
    ensures
        record_seen(st, s).highest_seen == Some(highest_after(st, s)),
        record_seen(st, s).window == st.window,
        seen(record_seen(st, s), t) == ((seen(st, t) || t == s) && t <= highest_after(st, s)
            && highest_after(st, s) - t < st.window),
{
    let next = record_seen(st, s);
    let h2 = highest_after(st, s);
    match st.highest_seen {
        None => {
            if t <= s && s - t < st.window {
                lemma_bit_of_one((s - t) as u64);
            }
        },
        Some(h) => {
            if s > h {
                let shift = (s - h) as u64;
                let slid: u128 = if shift >= 128 {
                    1
                } else {
                    (st.seen_bitmap << shift) | 1
                };
                if t <= s && s - t < st.window {
                    let d = (s - t) as u64;
                    lemma_bit_of_masked(slid, d, st.window);
                    if shift >= 128 {
                        lemma_bit_of_one(d);
                    } else {
                        lemma_bit_of_or_one_exact(st.seen_bitmap << shift, d);
                        lemma_bit_of_shift(st.seen_bitmap, d, shift);
                        if d >= shift {
                            assert((d - shift) as u64 == (h - t) as u64);
                        }
                    }
                }
            } else {
                let ds = (h - s) as u64;
                if t <= h && h - t < st.window {
                    lemma_bit_of_or_bit_exact(st.seen_bitmap, (h - t) as u64, ds);
                }
            }
        },
    }
}

/// A sequence number accepted by the window is never accepted again: once
/// `t` passes the check and is recorded, the check refuses `t`, and every
/// sequence that it already refused stays refused. By induction over a run
/// of accepted packets, no sequence number is ever accepted twice.
pub proof fn lemma_recorded_sequences_stay_refused(st: ReplayWindowState, t: u64, s: u64)
    requires
        window_valid(st.window),
        sequence_check(st, t) is Ok,
        s == t || sequence_check(st, s) is Err,
    ensures
        sequence_check(record_seen(st, t), s) is Err,
        record_seen(st, t).window == st.window,
{
    let next = record_seen(st, t);
    match st.highest_seen {
        None => {
            assert(s == t);
            assert(1u128 & (1u128 << 0u64) != 0) by (bit_vector);
        },
        Some(h) => {
            if t > h {
                let shift = (t - h) as u64;
                let slid: u128 = if shift >= 128 {
                    1
                } else {
                    (st.seen_bitmap << shift) | 1
                };
                assert(next.seen_bitmap == slid & window_mask(st.window));
                if s == t {
                    if shift >= 128 {
                        lemma_bit_zero_of_or_one(0u128, st.window);
                        assert(0u128 | 1 == 1u128) by (bit_vector);
                    } else {
                        lemma_bit_zero_of_or_one(st.seen_bitmap << shift, st.window);
                    }
                } else {
                    let d = (h - s) as u64;
                    let d2 = (t - s) as u64;
                    if d2 < st.window {
                        assert(d < st.window);
                        assert(bit_set(st.seen_bitmap, d));
                        assert(shift < 128);
                        lemma_bit_of_shifted(st.seen_bitmap, d, shift);
                        assert(d2 == d + shift);
                        lemma_bit_of_or_one(st.seen_bitmap << shift, d2);
                        lemma_bit_of_masked(slid, d2, st.window);
                    }
                }
            } else {
                let dt = (h - t) as u64;
                let d = (h - s) as u64;
                if s == t {
                    lemma_bit_of_or_bit(st.seen_bitmap, dt, dt);
                } else if d < st.window {
                    lemma_bit_of_or_bit(st.seen_bitmap, d, dt);
                }
            }
        },
    }
}

/// A key of the replay-window mode: HKDF-SHA-256 of the seed under the salt
/// `CryptoNugget:replay-window:v1‖0x00‖context` and the ASCII label `label`.
pub open spec fn window_key(seed: Seq<u8>, context: Seq<u8>, label: Seq<char>) -> Seq<u8> {
    key32(domain_salt("CryptoNugget:replay-window:v1"@, context), seed, ascii_bytes(label))
}

/// A fresh replay-window channel: the initiator sends with key A and receives
/// with key B, the responder the other way round; nothing sent or seen yet.
pub open spec fn initial_window_state(seed: Seq<u8>, role: Role, context: Seq<u8>, window: u64) -> ReplayWindowState {
    let a = window_key(seed, context, "window-key:a"@);
    let b = window_key(seed, context, "window-key:b"@);
    ReplayWindowState {
        tx_key: match role {
            Role::Initiator => a,
            Role::Responder => b,
        },
        rx_key: match role {
            Role::Initiator => b,
            Role::Responder => a,
        },
        tx_seq: 0,
        highest_seen: None,
        seen_bitmap: 0,
        window,
    }
}

/// Associated data of the next packet sent with caller data `user_aad`.
pub open spec fn window_seal_aad(st: ReplayWindowState, user_aad: Seq<u8>) -> Seq<u8> {
    internal_aad_v2(aad_flags(user_aad), st.tx_seq, user_aad, 0)
}

/// Sending succeeds: the plaintext and the associated data are within the
/// AEAD limits and the send counter has room for another message.
pub open spec fn window_can_seal(st: ReplayWindowState, plaintext: Seq<u8>, user_aad: Seq<u8>) -> bool {
    &&& plaintext.len() <= AEAD_MAX_LEN
    &&& window_seal_aad(st, user_aad).len() <= AEAD_MAX_LEN
    &&& st.tx_seq < u64::MAX
}

/// The packet sent for `plaintext` with `user_aad` under `nonce`.
pub open spec fn window_sealed_packet(st: ReplayWindowState, plaintext: Seq<u8>, user_aad: Seq<u8>, nonce: Seq<u8>) -> PacketModel {
    PacketModel {
        version: WIRE_VERSION_V2,
        flags: aad_flags(user_aad),
        sequence: st.tx_seq,
        nonce,
        ciphertext: aes256gcm_seal(st.tx_key, nonce, plaintext, window_seal_aad(st, user_aad)),
    }
}

/// The channel after sending one packet: the send counter advances.
pub open spec fn window_after_send(st: ReplayWindowState) -> ReplayWindowState {
    ReplayWindowState { tx_seq: (st.tx_seq + 1) as u64, ..st }
}

/// What opening packet `p` with caller data `user_aad` gives: version 2 only,
/// then the window check, then authentication under the receive key (caller
/// data for a packet sent without any does not authenticate).
pub open spec fn window_open_result(st: ReplayWindowState, p: PacketModel, user_aad: Seq<u8>) -> Result<Seq<u8>, Error> {
    if p.version != WIRE_VERSION_V2 {
        Err(Error::VersionNoSoportada(p.version))
    } else {
        match sequence_check(st, p.sequence) {
            Err(e) => Err(e),
            Ok(_) => if !aad_consistent(p.flags, user_aad) {
                Err(Error::Autenticacion)
            } else {
                match aes256gcm_open(
                    st.rx_key,
                    p.nonce,
                    p.ciphertext,
                    internal_aad_v2(p.flags, p.sequence, user_aad, 0),
                ) {
                    Some(plaintext) => Ok(plaintext),
                    None => Err(Error::Autenticacion),
                }
            },
        }
    }
}

/// The channel after opening `p`: the sequence is recorded only when the
/// packet was accepted; a refused packet leaves the channel as it was.
pub open spec fn window_opened_state(st: ReplayWindowState, p: PacketModel, user_aad: Seq<u8>) -> ReplayWindowState {
    if window_open_result(st, p, user_aad) is Ok {
        record_seen(st, p.sequence)
    } else {
        st
    }
}

impl ReplayWindowChannel {
    #[verifier::type_invariant]
    spec fn window_in_range(self) -> bool {
        window_valid(self.window)
    }

    /// Creates a channel with the default context.
    pub fn new(seed: &MasterSeed, role: Role, window: u64) -> (r: Result<Self, Error>)
        ensures
            r is Ok <==> window_valid(window),
            r matches Err(e) ==> e == Error::ModoInvalido,
            r matches Ok(c) ==> c@ == initial_window_state(
                seed@,
                role,
                crate::derive::default_context(),
                window,
            ),
    {
        Self::new_with_context(seed, role, default_context_bytes(), window)
    }

    /// Creates a channel with an explicit context and anti-replay window
    /// (1 to 128 sequence numbers); other window sizes give `ModoInvalido`.
    pub fn new_with_context(seed: &MasterSeed, role: Role, context: &[u8], window: u64) -> (r: Result<Self, Error>)
        ensures
            r is Ok <==> window_valid(window),
            r matches Err(e) ==> e == Error::ModoInvalido,
            r matches Ok(c) ==> c@ == initial_window_state(seed@, role, context@, window),
    {
        if window == 0 || window > MAX_WINDOW {
            return Err(Error::ModoInvalido);
        }
        proof {
            reveal_strlit("CryptoNugget:replay-window:v1");
            reveal_strlit("window-key:a");
            reveal_strlit("window-key:b");
        }
        let salt = domain_salt_bytes("CryptoNugget:replay-window:v1", context);
        let seed_bytes = seed.as_bytes();
        let key_a = derive_key32_labelled(salt.as_slice(), seed_bytes, "window-key:a");
        let key_b = derive_key32_labelled(salt.as_slice(), seed_bytes, "window-key:b");
        let (tx_key, rx_key) = match role {
            Role::Initiator => (key_a, key_b),
            Role::Responder => (key_b, key_a),
        };
        Ok(Self { tx_key, rx_key, tx_seq: 0, highest_seen: None, seen_bitmap: 0, window })
    }

    /// Encrypts a message under the given nonce.
    ///
    /// This is [`ReplayWindowChannel::seal`] with the nonce supplied by the
    /// caller, who must never use a nonce twice with the same key.
    pub fn seal_with_nonce(&mut self, plaintext: &[u8], aad: &[u8], nonce: [u8; 12]) -> (r: Result<Packet, Error>)
        requires
            plaintext@.len() + AEAD_TAG_LEN <= isize::MAX,
        ensures
            r is Ok <==> window_can_seal(old(self)@, plaintext@, aad@),
            r matches Ok(p) ==> p@ == window_sealed_packet(old(self)@, plaintext@, aad@, nonce@),
            r matches Ok(p) ==> p.ciphertext@.len() == plaintext@.len() + AEAD_TAG_LEN,
            r matches Ok(p) ==> aes256gcm_open(
                old(self)@.tx_key,
                nonce@,
                p.ciphertext@,
                window_seal_aad(old(self)@, aad@),
            ) == Some(plaintext@),
            r matches Err(e) ==> e == Error::Cifrado,
            r is Ok ==> final(self)@ == window_after_send(old(self)@),
            r is Err ==> final(self)@ == old(self)@,
    {
        proof {
            use_type_invariant(&*self);
        }
        let sequence = self.tx_seq;
        let flags: u8 = if aad.len() == 0 {
            0
        } else {
            crate::packet::FLAG_AAD_PRESENT
        };
        let internal_aad = build_internal_aad_v2(flags, sequence, aad);
        let ciphertext = match aes256gcm_encrypt(&self.tx_key, &nonce, plaintext, internal_aad.as_slice()) {
            Ok(c) => c,
            Err(_) => {
                return Err(Error::Cifrado);
            },
        };
        self.tx_seq = match self.tx_seq.checked_add(1) {
            Some(next) => next,
            None => {
                return Err(Error::Cifrado);
            },
        };
        Ok(Packet { version: WIRE_VERSION_V2, flags, sequence, nonce, ciphertext })
    }

    /// Encrypts a message within the anti-replay channel, under a fresh random nonce.
    pub fn seal(&mut self, plaintext: &[u8], aad: &[u8]) -> (r: Result<Packet, Error>)
        requires
            plaintext@.len() + AEAD_TAG_LEN <= isize::MAX,
        ensures
            r is Ok <==> window_can_seal(old(self)@, plaintext@, aad@),
            r matches Ok(p) ==> p@ == window_sealed_packet(old(self)@, plaintext@, aad@, p.nonce@),
            r matches Ok(p) ==> p.ciphertext@.len() == plaintext@.len() + AEAD_TAG_LEN,
            r matches Ok(p) ==> aes256gcm_open(
                old(self)@.tx_key,
                p.nonce@,
                p.ciphertext@,
                window_seal_aad(old(self)@, aad@),
            ) == Some(plaintext@),
            r matches Err(e) ==> e == Error::Cifrado,
            r is Ok ==> final(self)@ == window_after_send(old(self)@),
            r is Err ==> final(self)@ == old(self)@,
    {
        let nonce = random_nonce();
        self.seal_with_nonce(plaintext, aad, nonce)
    }

    /// Opens a packet, accepting out-of-order delivery within the window.
    ///
    /// Only wire v2 is accepted. A sequence already accepted gives `Repetido`,
    /// one that fell behind the window `FueraDeOrden`; a packet that does not
    /// authenticate gives `Autenticacion`. Only an accepted packet is recorded.
    pub fn open(&mut self, packet: &Packet, aad: &[u8]) -> (r: Result<Vec<u8>, Error>)
        ensures
            bytes_result_matches(r, window_open_result(old(self)@, packet@, aad@)),
            final(self)@ == window_opened_state(old(self)@, packet@, aad@),
    {
        if packet.version != WIRE_VERSION_V2 {
            return Err(Error::VersionNoSoportada(packet.version));
        }
        match self.ensure_sequence_is_new(packet.sequence) {
            Ok(()) => {},
            Err(e) => {
                return Err(e);
            },
        }
        if !aad_matches_flags(packet.flags, aad) {
            return Err(Error::Autenticacion);
        }
        let internal_aad = build_internal_aad_v2(packet.flags, packet.sequence, aad);
        let plaintext = match aes256gcm_decrypt(
            &self.rx_key,
            &packet.nonce,
            packet.ciphertext.as_slice(),
            internal_aad.as_slice(),
        ) {
            Ok(p) => p,
            Err(_) => {
                return Err(Error::Autenticacion);
            },
        };
        self.mark_seen(packet.sequence);
        Ok(plaintext)
    }

    /// Checks `sequence` against the anti-replay window.
    fn ensure_sequence_is_new(&self, sequence: u64) -> (r: Result<(), Error>)
        ensures
            r == sequence_check(self@, sequence),
    {
        proof {
            use_type_invariant(self);
        }
        let highest = match self.highest_seen {
            Some(h) => h,
            None => {
                return Ok(());
            },
        };
        if sequence > highest {
            return Ok(());
        }
        let delta = highest - sequence;
        if delta >= self.window {
            return Err(Error::FueraDeOrden);
        }
        if (self.seen_bitmap & (1u128 << delta)) != 0 {
            return Err(Error::Repetido);
        }
        Ok(())
    }

    /// Records `sequence` as accepted.
    fn mark_seen(&mut self, sequence: u64)
        requires
            sequence_check(old(self)@, sequence) is Ok,
        ensures
            final(self)@ == record_seen(old(self)@, sequence),
    {
        proof {
            use_type_invariant(&*self);
        }
        match self.highest_seen {
            None => {
                self.highest_seen = Some(sequence);
                self.seen_bitmap = 1;
            },
            Some(highest) => {
                if sequence > highest {
                    let shift = sequence - highest;
                    let slid: u128 = if shift >= 128 {
                        1
                    } else {
                        (self.seen_bitmap << shift) | 1
                    };
                    let mask: u128 = if self.window == 128 {
                        u128::MAX
                    } else {
                        let w = self.window;
                        assert((1u128 << w) >= 1) by (bit_vector)
                            requires
                                w < 128,
                        ;
                        (1u128 << w) - 1
                    };
                    self.seen_bitmap = slid & mask;
                    self.highest_seen = Some(sequence);
                } else {
                    let delta = highest - sequence;
                    self.seen_bitmap = self.seen_bitmap | (1u128 << delta);
                }
            },
        }
    }
}

/// The two roles of one seed and context hold matching keys: what the
/// initiator sends with, the responder receives with, and the other way round.
pub proof fn lemma_window_roles_pair(seed: Seq<u8>, context: Seq<u8>, window: u64)
    ensures
        initial_window_state(seed, Role::Initiator, context, window).tx_key == initial_window_state(
            seed,
            Role::Responder,
            context,
            window,
        ).rx_key,
        initial_window_state(seed, Role::Initiator, context, window).rx_key == initial_window_state(
            seed,
            Role::Responder,
            context,
            window,
        ).tx_key,
{
}

/// A packet that one side sealed opens on the other side to the same
/// plaintext, with the same caller data, whenever its sequence number passes
/// the receiver's window: delivery may be out of order within the window.
pub proof fn lemma_window_delivery(
    sender: ReplayWindowState,
    receiver: ReplayWindowState,
    plaintext: Seq<u8>,
    user_aad: Seq<u8>,
    nonce: Seq<u8>,
)
    requires
        sender.tx_key == receiver.rx_key,
        aes256gcm_open(
            sender.tx_key,
            nonce,
            window_sealed_packet(sender, plaintext, user_aad, nonce).ciphertext,
            window_seal_aad(sender, user_aad),
        ) == Some(plaintext),
        sequence_check(receiver, sender.tx_seq) is Ok,
    ensures
        window_open_result(receiver, window_sealed_packet(sender, plaintext, user_aad, nonce), user_aad)
            == Ok::<Seq<u8>, Error>(plaintext),
{
    lemma_aad_flags_consistent(user_aad);
}

/// Once a packet has been accepted, every packet with the same sequence
/// number is refused, whatever its contents and caller data: a version-2
/// packet with `Repetido`, and the channel stays as it was.
pub proof fn lemma_window_replay_refused(
    st: ReplayWindowState,
    p: PacketModel,
    user_aad: Seq<u8>,
    q: PacketModel,
    other_aad: Seq<u8>,
)
    requires
        window_valid(st.window),
        window_open_result(st, p, user_aad) is Ok,
        q.sequence == p.sequence,
    ensures
        window_open_result(window_opened_state(st, p, user_aad), q, other_aad) is Err,
        q.version == WIRE_VERSION_V2 ==> window_open_result(window_opened_state(st, p, user_aad), q, other_aad)
            == Err::<Seq<u8>, Error>(Error::Repetido),
        window_opened_state(window_opened_state(st, p, user_aad), q, other_aad)
            == window_opened_state(st, p, user_aad),
{
    lemma_recorded_sequences_stay_refused(st, p.sequence, p.sequence);
    lemma_record_seen_exact(st, p.sequence, p.sequence);
}

/// The channel after opening, in order, the packets of `run`, each with its
/// caller data.
pub open spec fn open_run(st: ReplayWindowState, run: Seq<(PacketModel, Seq<u8>)>) -> ReplayWindowState
    decreases run.len(),
{
    if run.len() == 0 {
        st
    } else {
        window_opened_state(open_run(st, run.drop_last()), run.last().0, run.last().1)
    }
}

/// Packet `i` of `run` is accepted when the run is opened in order.
pub open spec fn accepted_in_run(st: ReplayWindowState, run: Seq<(PacketModel, Seq<u8>)>, i: int) -> bool {
    window_open_result(open_run(st, run.take(i)), run[i].0, run[i].1) is Ok
}

proof fn lemma_run_keeps_window(st: ReplayWindowState, run: Seq<(PacketModel, Seq<u8>)>)
    ensures
        open_run(st, run).window == st.window,
    decreases run.len(),
{
    if run.len() > 0 {
        lemma_run_keeps_window(st, run.drop_last());
    }
}

proof fn lemma_run_step(st: ReplayWindowState, run: Seq<(PacketModel, Seq<u8>)>, k: int)
    requires
        0 < k <= run.len(),
    ensures
        open_run(st, run.take(k)) == window_opened_state(
            open_run(st, run.take(k - 1)),
            run[k - 1].0,
            run[k - 1].1,
        ),
{
    assert(run.take(k).drop_last() =~= run.take(k - 1));
    assert(run.take(k).last() == run[k - 1]);
}

proof fn lemma_accepted_stays_refused(st: ReplayWindowState, run: Seq<(PacketModel, Seq<u8>)>, i: int, k: int)
    requires
        window_valid(st.window),
        0 <= i < k <= run.len(),
        accepted_in_run(st, run, i),
    ensures
        sequence_check(open_run(st, run.take(k)), run[i].0.sequence) is Err,
    decreases k - i,
{
    let s = run[i].0.sequence;
    lemma_run_step(st, run, k);
    let prev = open_run(st, run.take(k - 1));
    lemma_run_keeps_window(st, run.take(k - 1));
    if k == i + 1 {
        lemma_recorded_sequences_stay_refused(prev, s, s);
    } else {
        lemma_accepted_stays_refused(st, run, i, k - 1);
        if window_open_result(prev, run[k - 1].0, run[k - 1].1) is Ok {
            lemma_recorded_sequences_stay_refused(prev, run[k - 1].0.sequence, s);
        }
    }
}

/// However the packets arrive (reordered, repeated, forged or tampered), no
/// sequence number is accepted twice: of any two packets that a run of opens
/// accepts, the sequence numbers differ.
pub proof fn lemma_no_sequence_accepted_twice(st: ReplayWindowState, run: Seq<(PacketModel, Seq<u8>)>, i: int, j: int)
    requires
        window_valid(st.window),
        0 <= i < j < run.len(),
        accepted_in_run(st, run, i),
        accepted_in_run(st, run, j),
    ensures
        run[i].0.sequence != run[j].0.sequence,
{
    lemma_accepted_stays_refused(st, run, i, j);
}

} // verus!
