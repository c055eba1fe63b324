//! Encrypted state snapshots of the ordered channel.
//!
//! Snapshot layout: `CNST‖version(1)=1‖nonce(12)‖ciphertext+tag`, where the
//! plaintext is the encoded state
//! `tx_key(32)‖rx_key(32)‖tx_seq(8 BE)‖rx_seq(8 BE)‖epoch(8 BE)‖len(4 BE)‖context`
//! and the associated data is `CNST‖1‖len(4 BE)‖context`, so a snapshot only
//! opens under the wrap key and the context it was made with.

use crate::error::{same_error, Error};
use crate::modes::ordered::{can_send, lemma_view_fields, CryptoNugget, NuggetState};
use crate::primitives::{
    aes256gcm_decrypt, aes256gcm_encrypt, aes256gcm_open, aes256gcm_seal, random_nonce, wipe_vec,
    AEAD_MAX_LEN, AEAD_TAG_LEN,
};
use crate::text::{
    array12, array32, ascii_bytes, be_u32_bytes, be_u32_value, be_u64_bytes, be_u64_value, bytes_equal,
    lemma_be_u32_value_of_bytes, lemma_be_u64_value_of_bytes, push_ascii, push_be_u32, push_be_u64,
    push_bytes, read_be_u32, read_be_u64,
};
use vstd::prelude::*;
use vstd::slice::{slice_subrange, slice_to_vec};

verus! {

/// Snapshot format version.
pub const SNAPSHOT_VERSION: u8 = 1;

/// Nonce length of a snapshot.
pub const SNAPSHOT_NONCE_LEN: usize = 12;

/// Shortest snapshot: magic(4) + version(1) + nonce(12) + tag(16).
pub const MIN_SNAPSHOT_LEN: usize = 4 + 1 + SNAPSHOT_NONCE_LEN + 16;

/// Length of the fixed part of the encoded state: two keys, three counters
/// and the context length.
pub const STATE_FIXED_LEN: usize = 32 + 32 + 8 + 8 + 8 + 4;

/// ASCII bytes of the snapshot magic, `CNST`.
pub open spec fn snapshot_magic() -> Seq<u8> {
    ascii_bytes("CNST"@)
}

/// Associated data of a snapshot: `CNST‖1‖len(u32 BE)‖context`, the length
/// truncated to 32 bits.
pub open spec fn snapshot_aad_of(context: Seq<u8>) -> Seq<u8> {
    snapshot_magic() + seq![SNAPSHOT_VERSION] + be_u32_bytes(context.len() as u32) + context
}

/// The encoded state that a snapshot encrypts.
pub open spec fn encoded_state(st: NuggetState) -> Seq<u8> {
    st.tx_key + st.rx_key + be_u64_bytes(st.tx_seq) + be_u64_bytes(st.rx_seq) + be_u64_bytes(st.epoch)
        + be_u32_bytes(st.context.len() as u32) + st.context
}

/// What decoding an encoded state for `expected_context` gives: the state,
/// blocked until resumption; `PaqueteCorrupto` when the layout is wrong;
/// `Autenticacion` when it belongs to another context.
pub open spec fn decoded_state(b: Seq<u8>, expected_context: Seq<u8>) -> Result<NuggetState, Error> {
    if b.len() < STATE_FIXED_LEN {
        Err(Error::PaqueteCorrupto)
    } else if b.len() != STATE_FIXED_LEN + be_u32_value(b.subrange(88, 92)) {
        Err(Error::PaqueteCorrupto)
    } else if b.subrange(STATE_FIXED_LEN as int, b.len() as int) != expected_context {
        Err(Error::Autenticacion)
    } else {
        Ok(
            NuggetState {
                tx_key: b.subrange(0, 32),
                rx_key: b.subrange(32, 64),
                tx_seq: be_u64_value(b.subrange(64, 72)),
                rx_seq: be_u64_value(b.subrange(72, 80)),
                epoch: be_u64_value(b.subrange(80, 88)),
                context: b.subrange(STATE_FIXED_LEN as int, b.len() as int),
                requires_resume_ack: true,
            },
        )
    }
}

/// The state recorded by an export: the epoch advances, so that packets
/// sent after resuming cannot be confused with packets sent before.
pub open spec fn exported_state(st: NuggetState) -> NuggetState {
    NuggetState { epoch: (st.epoch + 1) as u64, ..st }
}

/// The snapshot's encryption is within the AEAD limits.
pub open spec fn export_fits(st: NuggetState) -> bool {
    encoded_state(st).len() <= AEAD_MAX_LEN && snapshot_aad_of(st.context).len() <= AEAD_MAX_LEN
}

/// The snapshot bytes of state `st` under `wrap` and `nonce`.
pub open spec fn snapshot_bytes(st: NuggetState, wrap: Seq<u8>, nonce: Seq<u8>) -> Seq<u8> {
    snapshot_magic() + seq![SNAPSHOT_VERSION] + nonce + aes256gcm_seal(
        wrap,
        nonce,
        encoded_state(st),
        snapshot_aad_of(st.context),
    )
}

/// What importing snapshot `b` with `wrap` for `context` gives.
pub open spec fn import_result(b: Seq<u8>, wrap: Seq<u8>, context: Seq<u8>) -> Result<NuggetState, Error> {
    if b.len() < MIN_SNAPSHOT_LEN || b.subrange(0, 4) != snapshot_magic() || b[4] != SNAPSHOT_VERSION {
        Err(Error::PaqueteCorrupto)
    } else {
        match aes256gcm_open(
            wrap,
            b.subrange(5, 5 + SNAPSHOT_NONCE_LEN),
            b.subrange(5 + SNAPSHOT_NONCE_LEN, b.len() as int),
            snapshot_aad_of(context),
        ) {
            None => Err(Error::Autenticacion),
            Some(plaintext) => decoded_state(plaintext, context),
        }
    }
}

/// A channel result that agrees with `expected`.
pub open spec fn nugget_result_matches(r: Result<CryptoNugget, Error>, expected: Result<NuggetState, Error>) -> bool {
    match (r, expected) {
        (Ok(n), Ok(st)) => n@ == st,
        (Err(e), Err(f)) => same_error(e, f),
        _ => false,
    }
}

/// Builds the snapshot associated data for `context`.
fn snapshot_aad(context: &[u8]) -> (aad: Vec<u8>)
    ensures
        aad@ == snapshot_aad_of(context@),
{
    proof {
        reveal_strlit("CNST");
    }
    let mut aad: Vec<u8> = Vec::new();
    push_ascii(&mut aad, "CNST");
    aad.push(SNAPSHOT_VERSION);
    push_be_u32(&mut aad, context.len() as u32);
    push_bytes(&mut aad, context);
    assert(aad@ =~= snapshot_aad_of(context@));
    aad
}

/// Encodes the state of a channel end.
fn encode_state(nugget: &CryptoNugget) -> (state: Vec<u8>)
    ensures
        state@ == encoded_state(nugget@),
{
    proof {
        lemma_view_fields(nugget);
    }
    let mut state: Vec<u8> = Vec::new();
    push_bytes(&mut state, &nugget.tx_key);
    push_bytes(&mut state, &nugget.rx_key);
    push_be_u64(&mut state, nugget.tx_seq);
    push_be_u64(&mut state, nugget.rx_seq);
    push_be_u64(&mut state, nugget.epoch);
    push_be_u32(&mut state, nugget.context.len() as u32);
    push_bytes(&mut state, nugget.context.as_slice());
    assert(state@ =~= encoded_state(nugget@));
    state
}

/// Decodes an encoded state for `expected_context`.
fn decode_state(bytes: &[u8], expected_context: &[u8]) -> (r: Result<CryptoNugget, Error>)
    ensures
        nugget_result_matches(r, decoded_state(bytes@, expected_context@)),
{
    if bytes.len() < STATE_FIXED_LEN {
        return Err(Error::PaqueteCorrupto);
    }
    let tx_key = array32(slice_subrange(bytes, 0, 32));
    let rx_key = array32(slice_subrange(bytes, 32, 64));
    let tx_seq = read_be_u64(bytes, 64);
    let rx_seq = read_be_u64(bytes, 72);
    let epoch = read_be_u64(bytes, 80);
    let context_len = read_be_u32(bytes, 88) as usize;
    let context_end = match STATE_FIXED_LEN.checked_add(context_len) {
        Some(end) => end,
        None => {
            return Err(Error::PaqueteCorrupto);
        },
    };
    if bytes.len() != context_end {
        return Err(Error::PaqueteCorrupto);
    }
    let context = slice_to_vec(slice_subrange(bytes, STATE_FIXED_LEN, context_end));
    if !bytes_equal(context.as_slice(), expected_context) {
        return Err(Error::Autenticacion);
    }
    Ok(CryptoNugget::from_persisted_state(tx_key, rx_key, tx_seq, rx_seq, epoch, context))
}

impl CryptoNugget {
    /// Exports an encrypted, authenticated snapshot of the ordered channel
    /// under a fresh random nonce.
    ///
    /// `wrap` must be a random 32-byte key; the crate does not derive it from
    /// passphrases. The export advances the epoch (also when the encryption
    /// then fails); an epoch that cannot advance gives `Cifrado`.
    pub fn export_state(&mut self, wrap: &[u8; 32]) -> (r: Result<Vec<u8>, Error>)
        requires
            old(self)@.context.len() + STATE_FIXED_LEN + AEAD_TAG_LEN <= isize::MAX,
        ensures
            r is Ok <==> (old(self)@.epoch < u64::MAX && export_fits(exported_state(old(self)@))),
            r matches Err(e) ==> e == Error::Cifrado,
            old(self)@.epoch < u64::MAX ==> final(self)@ == exported_state(old(self)@),
            old(self)@.epoch == u64::MAX ==> final(self)@ == old(self)@,
            r matches Ok(b) ==> b@.len() == MIN_SNAPSHOT_LEN + STATE_FIXED_LEN + old(self)@.context.len(),
            r matches Ok(b) ==> b@.len() >= MIN_SNAPSHOT_LEN && b@ == snapshot_bytes(
                exported_state(old(self)@),
                wrap@,
                b@.subrange(5, 5 + SNAPSHOT_NONCE_LEN),
            ),
            r matches Ok(b) ==> aes256gcm_open(
                wrap@,
                b@.subrange(5, 5 + SNAPSHOT_NONCE_LEN),
                b@.subrange(5 + SNAPSHOT_NONCE_LEN, b@.len() as int),
                snapshot_aad_of(old(self)@.context),
            ) == Some(encoded_state(exported_state(old(self)@))),
    {
        let nonce = random_nonce();
        let r = self.export_state_with_nonce(wrap, nonce);
        proof {
            reveal_strlit("CNST");
            if r is Ok {
                let b = r->Ok_0;
                let ct = aes256gcm_seal(
                    wrap@,
                    nonce@,
                    encoded_state(exported_state(old(self)@)),
                    snapshot_aad_of(old(self)@.context),
                );
                assert(b@.subrange(5, 5 + SNAPSHOT_NONCE_LEN) =~= nonce@);
                assert(b@.subrange(5 + SNAPSHOT_NONCE_LEN, b@.len() as int) =~= ct);
            }
        }
        r
    }

    /// [`CryptoNugget::export_state`] with the nonce supplied by the caller,
    /// who must never use a nonce twice with the same wrap key.
    pub fn export_state_with_nonce(&mut self, wrap: &[u8; 32], nonce: [u8; 12]) -> (r: Result<Vec<u8>, Error>)
        requires
            old(self)@.context.len() + STATE_FIXED_LEN + AEAD_TAG_LEN <= isize::MAX,
        ensures
            r is Ok <==> (old(self)@.epoch < u64::MAX && export_fits(exported_state(old(self)@))),
            r matches Err(e) ==> e == Error::Cifrado,
            old(self)@.epoch < u64::MAX ==> final(self)@ == exported_state(old(self)@),
            old(self)@.epoch == u64::MAX ==> final(self)@ == old(self)@,
            r matches Ok(b) ==> b@ == snapshot_bytes(exported_state(old(self)@), wrap@, nonce@),
            r matches Ok(b) ==> b@.len() >= MIN_SNAPSHOT_LEN,
            r matches Ok(b) ==> b@.len() == MIN_SNAPSHOT_LEN + STATE_FIXED_LEN + old(self)@.context.len(),
            r matches Ok(b) ==> aes256gcm_open(
                wrap@,
                nonce@,
                aes256gcm_seal(
                    wrap@,
                    nonce@,
                    encoded_state(exported_state(old(self)@)),
                    snapshot_aad_of(old(self)@.context),
                ),
                snapshot_aad_of(old(self)@.context),
            ) == Some(encoded_state(exported_state(old(self)@))),
    {
        proof {
            lemma_view_fields(self);
        }
        self.epoch = match self.epoch.checked_add(1) {
            Some(next) => next,
            None => {
                return Err(Error::Cifrado);
            },
        };
        proof {
            lemma_view_fields(self);
        }
        let mut state = encode_state(self);
        let aad = snapshot_aad(self.context.as_slice());
        let sealed = aes256gcm_encrypt(wrap, &nonce, state.as_slice(), aad.as_slice());
        wipe_vec(&mut state);
        let ciphertext = match sealed {
            Ok(c) => c,
            Err(_) => {
                return Err(Error::Cifrado);
            },
        };
        proof {
            reveal_strlit("CNST");
        }
        let mut out: Vec<u8> = Vec::new();
        push_ascii(&mut out, "CNST");
        out.push(SNAPSHOT_VERSION);
        push_bytes(&mut out, &nonce);
        push_bytes(&mut out, ciphertext.as_slice());
        assert(out@ =~= snapshot_bytes(exported_state(old(self)@), wrap@, nonce@));
        Ok(out)
    }

    /// Imports an encrypted snapshot; the channel end cannot send until
    /// [`CryptoNugget::mark_resumed`] is called.
    ///
    /// A wrong layout gives `PaqueteCorrupto`; a wrong wrap key, a wrong
    /// context or a tampered snapshot gives `Autenticacion`.
    pub fn import_state(bytes: &[u8], wrap: &[u8; 32], context: &[u8]) -> (r: Result<Self, Error>)
        ensures
            nugget_result_matches(r, import_result(bytes@, wrap@, context@)),
    {
        proof {
            reveal_strlit("CNST");
        }
        if bytes.len() < MIN_SNAPSHOT_LEN || bytes[0] != 0x43 || bytes[1] != 0x4e || bytes[2] != 0x53
            || bytes[3] != 0x54 || bytes[4] != SNAPSHOT_VERSION {
            proof {
                if bytes@.len() >= MIN_SNAPSHOT_LEN && bytes@.subrange(0, 4) == snapshot_magic() {
                    assert(bytes@[0] == bytes@.subrange(0, 4)[0]);
                    assert(bytes@[1] == bytes@.subrange(0, 4)[1]);
                    assert(bytes@[2] == bytes@.subrange(0, 4)[2]);
                    assert(bytes@[3] == bytes@.subrange(0, 4)[3]);
                }
            }
            return Err(Error::PaqueteCorrupto);
        }
        assert(bytes@.subrange(0, 4) =~= snapshot_magic());
        let nonce = array12(slice_subrange(bytes, 5, 5 + SNAPSHOT_NONCE_LEN));
        let ciphertext = slice_subrange(bytes, 5 + SNAPSHOT_NONCE_LEN, bytes.len());
        let aad = snapshot_aad(context);
        let mut plaintext = match aes256gcm_decrypt(wrap, &nonce, ciphertext, aad.as_slice()) {
            Ok(p) => p,
            Err(_) => {
                return Err(Error::Autenticacion);
            },
        };
        let decoded = decode_state(plaintext.as_slice(), context);
        wipe_vec(&mut plaintext);
        decoded
    }

    /// Acknowledges that the operator accepts resuming from the snapshot.
    pub fn mark_resumed(&mut self)
        ensures
            final(self)@ == (NuggetState { requires_resume_ack: false, ..old(self)@ }),
    {
        proof {
            lemma_view_fields(self);
        }
        self.requires_resume_ack = false;
        proof {
            lemma_view_fields(self);
        }
    }
}

/// Decoding the encoding of a state for its own context gives the state back,
/// blocked until resumption.
pub proof fn lemma_state_codec_roundtrip(st: NuggetState)
    requires
        st.tx_key.len() == 32,
        st.rx_key.len() == 32,
        st.context.len() < 0x1_0000_0000,
    ensures
        decoded_state(encoded_state(st), st.context) == Ok::<NuggetState, Error>(
            NuggetState { requires_resume_ack: true, ..st },
        ),
{
    let b = encoded_state(st);
    lemma_be_u64_value_of_bytes(st.tx_seq);
    lemma_be_u64_value_of_bytes(st.rx_seq);
    lemma_be_u64_value_of_bytes(st.epoch);
    lemma_be_u32_value_of_bytes(st.context.len() as u32);
    assert(b.subrange(0, 32) =~= st.tx_key);
    assert(b.subrange(32, 64) =~= st.rx_key);
    assert(b.subrange(64, 72) =~= be_u64_bytes(st.tx_seq));
    assert(b.subrange(72, 80) =~= be_u64_bytes(st.rx_seq));
    assert(b.subrange(80, 88) =~= be_u64_bytes(st.epoch));
    assert(b.subrange(88, 92) =~= be_u32_bytes(st.context.len() as u32));
    assert(b.subrange(STATE_FIXED_LEN as int, b.len() as int) =~= st.context);
}

/// An encoded state only decodes for its own context: for any other context
/// the decoder answers `Autenticacion`.
pub proof fn lemma_state_codec_rejects_other_context(st: NuggetState, other: Seq<u8>)
    requires
        st.tx_key.len() == 32,
        st.rx_key.len() == 32,
        st.context.len() < 0x1_0000_0000,
        other != st.context,
    ensures
        decoded_state(encoded_state(st), other) == Err::<NuggetState, Error>(Error::Autenticacion),
{
    let b = encoded_state(st);
    lemma_be_u32_value_of_bytes(st.context.len() as u32);
    assert(b.subrange(88, 92) =~= be_u32_bytes(st.context.len() as u32));
    assert(b.subrange(STATE_FIXED_LEN as int, b.len() as int) =~= st.context);
}

/// The state of any channel end whose context is shorter than 2^32 bytes
/// decodes from its own encoding, for its own context, to the same state,
/// blocked until resumption.
pub proof fn lemma_nugget_codec_roundtrip(n: &CryptoNugget)
    requires
        n@.context.len() < 0x1_0000_0000,
    ensures
        decoded_state(encoded_state(n@), n@.context) == Ok::<NuggetState, Error>(
            NuggetState { requires_resume_ack: true, ..n@ },
        ),
{
    lemma_view_fields(n);
    lemma_state_codec_roundtrip(n@);
}

/// A snapshot made under a wrap key imports, under the same wrap key and
/// context, to the exported state, blocked until resumption.
pub proof fn lemma_snapshot_roundtrip(st: NuggetState, wrap: Seq<u8>, nonce: Seq<u8>)
    requires
        snapshot_bytes(st, wrap, nonce).len() >= MIN_SNAPSHOT_LEN,
        st.tx_key.len() == 32,
        st.rx_key.len() == 32,
        st.context.len() < 0x1_0000_0000,
        nonce.len() == SNAPSHOT_NONCE_LEN,
        aes256gcm_open(
            wrap,
            nonce,
            aes256gcm_seal(wrap, nonce, encoded_state(st), snapshot_aad_of(st.context)),
            snapshot_aad_of(st.context),
        ) == Some(encoded_state(st)),
    ensures
        import_result(snapshot_bytes(st, wrap, nonce), wrap, st.context) == Ok::<NuggetState, Error>(
            NuggetState { requires_resume_ack: true, ..st },
        ),
{
    let b = snapshot_bytes(st, wrap, nonce);
    let ct = aes256gcm_seal(wrap, nonce, encoded_state(st), snapshot_aad_of(st.context));
    reveal_strlit("CNST");
    assert(b.subrange(0, 4) =~= snapshot_magic());
    assert(b.subrange(5, 5 + SNAPSHOT_NONCE_LEN) =~= nonce);
    assert(b.subrange(5 + SNAPSHOT_NONCE_LEN, b.len() as int) =~= ct);
    lemma_state_codec_roundtrip(st);
}

/// A channel end restored from a snapshot cannot send: every send gives
/// `EstadoSinReanudar` until the operator acknowledges resumption.
pub proof fn lemma_imported_state_blocks_sending(b: Seq<u8>, wrap: Seq<u8>, context: Seq<u8>, plaintext: Seq<u8>, user_aad: Seq<u8>)
    requires
        import_result(b, wrap, context) is Ok,
    ensures
        import_result(b, wrap, context)->Ok_0.requires_resume_ack,
        !can_send(import_result(b, wrap, context)->Ok_0, plaintext, user_aad),
{
}

} // verus!
