//! The wire format: the typed `Packet`, its binary and base64 codecs, and the
//! associated data that binds the header into the AEAD tag.
//!
//! Wire v2 (every packet sent by this library):
//!
//! ```text
//!   version(1) ‖ flags(1) ‖ sequence(8 BE) ‖ nonce(12) ‖ ciphertext+tag
//! ```
//!
//! Wire v1 (accepted inbound by the ordered channel only):
//!
//! ```text
//!   version(1)=1 ‖ sequence(8 BE) ‖ nonce(12) ‖ ciphertext+tag
//! ```
//!
//! Bit 0 of `flags` records that caller-supplied associated data was bound
//! into the tag; the associated data itself is not carried in the packet.

use crate::error::{same_error, Error};
use crate::primitives::{base64_decode, base64_decode_text, base64_encode, base64_encode_text};
use crate::text::{
    array12, ascii_bytes, be_u32_bytes, be_u64_bytes, be_u64_value, lemma_be_u32_value_of_bytes,
    lemma_be_u64_bytes_of_value, lemma_be_u64_value_of_bytes, push_ascii, push_be_u32, push_be_u64,
    push_bytes, read_be_u64,
};
use vstd::prelude::*;
use vstd::slice::{slice_subrange, slice_to_vec};

verus! {

/// Current outbound wire version.
pub const WIRE_VERSION_V2: u8 = 2;

/// Legacy inbound wire version (accepted by the ordered channel).
pub const WIRE_VERSION_V1: u8 = 1;

/// Bit 0 of `flags`: caller associated data was bound into the tag.
pub const FLAG_AAD_PRESENT: u8 = 0x01;

/// Length of an AES-GCM nonce.
pub const NONCE_LEN: usize = 12;

/// Length of an AES-GCM tag.
pub const TAG_LEN: usize = 16;

/// v2 header: version(1) + flags(1) + sequence(8) + nonce(12).
pub const V2_HEADER_LEN: usize = 1 + 1 + 8 + NONCE_LEN;

/// v1 header: version(1) + sequence(8) + nonce(12).
pub const V1_HEADER_LEN: usize = 1 + 8 + NONCE_LEN;

/// Typed wire-format packet: one encrypted message.
///
/// It carries no key material and no plaintext.
#[derive(Debug, Clone, PartialEq, Eq)]
pub struct Packet {
    /// Wire-format version: 2 for packets sent by this library, 1 for legacy peers.
    pub version: u8,
    /// Bit-packed flags; bit 0 records bound caller associated data.
    pub flags: u8,
    /// Per-message sequence number, authenticated through the associated data.
    pub sequence: u64,
    /// 96-bit AES-GCM nonce.
    pub nonce: [u8; NONCE_LEN],
    /// Ciphertext followed by the 128-bit GCM tag.
    pub ciphertext: Vec<u8>,
}

/// The mathematical value of a `Packet`.
pub struct PacketModel {
    pub version: u8,
    pub flags: u8,
    pub sequence: u64,
    pub nonce: Seq<u8>,
    pub ciphertext: Seq<u8>,
}

impl View for Packet {
    type V = PacketModel;

    open spec fn view(&self) -> PacketModel {
        PacketModel {
            version: self.version,
            flags: self.flags,
            sequence: self.sequence,
            nonce: self.nonce@,
            ciphertext: self.ciphertext@,
        }
    }
}

/// The binary wire form of a packet: v1 layout (no flags byte) for version 1,
/// v2 layout for every other version, which keeps its own version byte.
pub open spec fn packet_wire(p: PacketModel) -> Seq<u8> {
    if p.version == WIRE_VERSION_V1 {
        seq![WIRE_VERSION_V1] + be_u64_bytes(p.sequence) + p.nonce + p.ciphertext
    } else {
        seq![p.version, p.flags] + be_u64_bytes(p.sequence) + p.nonce + p.ciphertext
    }
}

/// What parsing `b` as a wire packet gives: the packet, or the error that the
/// parser reports.
pub open spec fn parse_wire(b: Seq<u8>) -> Result<PacketModel, Error> {
    if b.len() < V1_HEADER_LEN + TAG_LEN {
        Err(Error::PaqueteCorrupto)
    } else if b[0] == WIRE_VERSION_V2 {
        if b.len() < V2_HEADER_LEN + TAG_LEN {
            Err(Error::PaqueteCorrupto)
        } else {
            Ok(
                PacketModel {
                    version: WIRE_VERSION_V2,
                    flags: b[1],
                    sequence: be_u64_value(b.subrange(2, 10)),
                    nonce: b.subrange(10, V2_HEADER_LEN as int),
                    ciphertext: b.subrange(V2_HEADER_LEN as int, b.len() as int),
                },
            )
        }
    } else if b[0] == WIRE_VERSION_V1 {
        Ok(
            PacketModel {
                version: WIRE_VERSION_V1,
                flags: 0,
                sequence: be_u64_value(b.subrange(1, 9)),
                nonce: b.subrange(9, V1_HEADER_LEN as int),
                ciphertext: b.subrange(V1_HEADER_LEN as int, b.len() as int),
            },
        )
    } else {
        Err(Error::VersionNoSoportada(b[0]))
    }
}

/// What decoding base64 `text` as a packet gives. A base64 failure is reported
/// as `Error::Base64` with the decoder's message, which this function does not fix.
pub open spec fn parse_base64_wire(text: Seq<char>) -> Result<PacketModel, Error> {
    match base64_decode_text(text) {
        Some(b) => parse_wire(b),
        None => Err(Error::Base64(arbitrary())),
    }
}

/// A result of parsing that agrees with `expected`: the same packet, or an
/// error of the same kind (for `Base64`, whatever message came with it).
pub open spec fn parse_result_matches(r: Result<Packet, Error>, expected: Result<PacketModel, Error>) -> bool {
    match (r, expected) {
        (Ok(p), Ok(m)) => p@ == m,
        (Err(e), Err(f)) => same_error(e, f),
        _ => false,
    }
}

/// A byte result that agrees with `expected`: the same bytes, or an error of
/// the same kind (for `Base64`, whatever message came with it).
pub open spec fn bytes_result_matches(r: Result<Vec<u8>, Error>, expected: Result<Seq<u8>, Error>) -> bool {
    match (r, expected) {
        (Ok(v), Ok(b)) => v@ == b,
        (Err(e), Err(f)) => same_error(e, f),
        _ => false,
    }
}

/// A packet that the parser accepts again after serialisation: version 2, or
/// version 1 with clear flags (the v1 layout has no flags byte), with at
/// least a tag's worth of ciphertext.
pub open spec fn wire_roundtrips(p: PacketModel) -> bool {
    &&& (p.version == WIRE_VERSION_V2 || (p.version == WIRE_VERSION_V1 && p.flags == 0))
    &&& p.nonce.len() == NONCE_LEN
    &&& p.ciphertext.len() >= TAG_LEN
}

/// The flags of a packet sent with caller associated data `user_aad`: bit 0
/// set exactly when the data is not empty.
pub open spec fn aad_flags(user_aad: Seq<u8>) -> u8 {
    if user_aad.len() == 0 {
        0
    } else {
        FLAG_AAD_PRESENT
    }
}

/// The receiver's caller data agrees with what the packet's flags say was
/// bound: a packet sent without caller data (flag bit 0 clear) is only
/// opened with empty caller data.
pub open spec fn aad_consistent(flags: u8, user_aad: Seq<u8>) -> bool {
    flags & FLAG_AAD_PRESENT != 0 || user_aad.len() == 0
}

/// The flags of a packet sent with caller data `user_aad` agree with that data.
pub proof fn lemma_aad_flags_consistent(user_aad: Seq<u8>)
    ensures
        aad_consistent(aad_flags(user_aad), user_aad),
{
    assert(FLAG_AAD_PRESENT & FLAG_AAD_PRESENT != 0) by (bit_vector);
}

/// Checks that the receiver's caller data agrees with the packet's flags.
pub fn aad_matches_flags(flags: u8, user_aad: &[u8]) -> (ok: bool)
    ensures
        ok == aad_consistent(flags, user_aad@),
{
    flags & FLAG_AAD_PRESENT != 0 || user_aad.len() == 0
}

/// ASCII bytes of the label that precedes a non-zero epoch in the associated data.
pub open spec fn epoch_label() -> Seq<u8> {
    ascii_bytes("epoch"@)
}

/// Associated data bound into a v2 packet's tag:
/// `version‖flags‖sequence‖["epoch"‖epoch if epoch ≠ 0]‖[len(u32 BE)‖user_aad if flags bit 0]`.
/// The length is the caller data's length truncated to 32 bits.
pub open spec fn internal_aad_v2(flags: u8, sequence: u64, user_aad: Seq<u8>, epoch: u64) -> Seq<u8> {
    seq![WIRE_VERSION_V2, flags] + be_u64_bytes(sequence) + (if epoch != 0 {
        epoch_label() + be_u64_bytes(epoch)
    } else {
        Seq::empty()
    }) + (if flags & FLAG_AAD_PRESENT != 0 {
        be_u32_bytes(user_aad.len() as u32) + user_aad
    } else {
        Seq::empty()
    })
}

/// Associated data bound into a v1 packet's tag: `version(1)=1‖sequence(8 BE)`.
pub open spec fn internal_aad_v1(sequence: u64) -> Seq<u8> {
    seq![WIRE_VERSION_V1] + be_u64_bytes(sequence)
}

impl Packet {
    /// Serialise this packet to its binary wire form.
    ///
    /// A version-1 packet is written in the v1 layout (no flags byte), so that
    /// the bytes of a parsed v1 packet come back exactly; every other version
    /// is written in the v2 layout with its own version byte.
    pub fn to_bytes(&self) -> (out: Vec<u8>)
        ensures
            out@ == packet_wire(self@),
    {
        if self.version == WIRE_VERSION_V1 {
            let mut out: Vec<u8> = Vec::new();
            out.push(WIRE_VERSION_V1);
            push_be_u64(&mut out, self.sequence);
            push_bytes(&mut out, &self.nonce);
            push_bytes(&mut out, self.ciphertext.as_slice());
            out
        } else {
            let mut out: Vec<u8> = Vec::new();
            out.push(self.version);
            out.push(self.flags);
            push_be_u64(&mut out, self.sequence);
            push_bytes(&mut out, &self.nonce);
            push_bytes(&mut out, self.ciphertext.as_slice());
            assert(out@ =~= packet_wire(self@));
            out
        }
    }

    /// Parse a packet from its binary wire form.
    ///
    /// Accepts the v2 and v1 layouts; a v1 packet gets `flags = 0`. Buffers
    /// shorter than a v1 header plus a tag, and v2 buffers shorter than a v2
    /// header plus a tag, give `PaqueteCorrupto`; any other version gives
    /// `VersionNoSoportada`.
    pub fn from_bytes(bytes: &[u8]) -> (r: Result<Packet, Error>)
        ensures
            parse_result_matches(r, parse_wire(bytes@)),
    {
        if bytes.len() < V1_HEADER_LEN + TAG_LEN {
            return Err(Error::PaqueteCorrupto);
        }
        let version = bytes[0];
        if version == WIRE_VERSION_V2 {
            if bytes.len() < V2_HEADER_LEN + TAG_LEN {
                return Err(Error::PaqueteCorrupto);
            }
            let flags = bytes[1];
            let sequence = read_be_u64(bytes, 2);
            let nonce = array12(slice_subrange(bytes, 10, V2_HEADER_LEN));
            let ciphertext = slice_to_vec(slice_subrange(bytes, V2_HEADER_LEN, bytes.len()));
            Ok(Packet { version, flags, sequence, nonce, ciphertext })
        } else if version == WIRE_VERSION_V1 {
            if bytes.len() < V1_HEADER_LEN + TAG_LEN {
                return Err(Error::PaqueteCorrupto);
            }
            let sequence = read_be_u64(bytes, 1);
            let nonce = array12(slice_subrange(bytes, 9, V1_HEADER_LEN));
            let ciphertext = slice_to_vec(slice_subrange(bytes, V1_HEADER_LEN, bytes.len()));
            Ok(Packet { version, flags: 0, sequence, nonce, ciphertext })
        } else {
            Err(Error::VersionNoSoportada(version))
        }
    }

    /// Encode this packet as standard base64 text of its wire form.
    pub fn to_base64(&self) -> (text: String)
        requires
            self.ciphertext@.len() + V2_HEADER_LEN <= usize::MAX / 4 * 3,
        ensures
            text@ == base64_encode_text(packet_wire(self@)),
            base64_decode_text(text@) == Some(packet_wire(self@)),
    {
        let bytes = self.to_bytes();
        base64_encode(bytes.as_slice())
    }

    /// Decode a packet from standard base64 text of its wire form.
    ///
    /// Text that is not base64 gives `Error::Base64` with the decoder's message.
    pub fn from_base64(s: &str) -> (r: Result<Packet, Error>)
        ensures
            parse_result_matches(r, parse_base64_wire(s@)),
    {
        match base64_decode(s) {
            Ok(bytes) => Self::from_bytes(bytes.as_slice()),
            Err(e) => Err(Error::Base64(e.to_string())),
        }
    }
}

/// Builds the associated data of a v2 packet with epoch 0.
pub fn build_internal_aad_v2(flags: u8, sequence: u64, user_aad: &[u8]) -> (aad: Vec<u8>)
    ensures
        aad@ == internal_aad_v2(flags, sequence, user_aad@, 0),
{
    build_internal_aad_v2_with_epoch(flags, sequence, user_aad, 0)
}

/// Builds the associated data of a v2 packet (see `internal_aad_v2`).
pub fn build_internal_aad_v2_with_epoch(flags: u8, sequence: u64, user_aad: &[u8], epoch: u64) -> (aad: Vec<u8>)
    ensures
        aad@ == internal_aad_v2(flags, sequence, user_aad@, epoch),
{
    let mut aad: Vec<u8> = Vec::new();
    aad.push(WIRE_VERSION_V2);
    aad.push(flags);
    push_be_u64(&mut aad, sequence);
    if epoch != 0 {
        proof {
            reveal_strlit("epoch");
        }
        push_ascii(&mut aad, "epoch");
        push_be_u64(&mut aad, epoch);
    }
    if flags & FLAG_AAD_PRESENT != 0 {
        let len = user_aad.len() as u32;
        push_be_u32(&mut aad, len);
        push_bytes(&mut aad, user_aad);
    }
    assert(aad@ =~= internal_aad_v2(flags, sequence, user_aad@, epoch));
    aad
}

/// Builds the associated data of a v1 packet: `1‖sequence(8 BE)`.
pub fn build_internal_aad_v1(sequence: u64) -> (aad: [u8; 9])
    ensures
        aad@ == internal_aad_v1(sequence),
{
    let mut aad = [0u8; 9];
    aad[0] = WIRE_VERSION_V1;
    aad[1] = ((sequence >> 56u64) & 0xff) as u8;
    aad[2] = ((sequence >> 48u64) & 0xff) as u8;
    aad[3] = ((sequence >> 40u64) & 0xff) as u8;
    aad[4] = ((sequence >> 32u64) & 0xff) as u8;
    aad[5] = ((sequence >> 24u64) & 0xff) as u8;
    aad[6] = ((sequence >> 16u64) & 0xff) as u8;
    aad[7] = ((sequence >> 8u64) & 0xff) as u8;
    aad[8] = (sequence & 0xff) as u8;
    assert(aad@ =~= internal_aad_v1(sequence));
    aad
}

/// Serialising a packet that the parser accepts, then parsing, gives the packet back.
pub proof fn lemma_wire_roundtrip(p: PacketModel)
    requires
        wire_roundtrips(p),
    ensures
        parse_wire(packet_wire(p)) == Ok::<PacketModel, Error>(p),
{
    let b = packet_wire(p);
    lemma_be_u64_value_of_bytes(p.sequence);
    if p.version == WIRE_VERSION_V2 {
        assert(b.subrange(2, 10) =~= be_u64_bytes(p.sequence));
        assert(b.subrange(10, V2_HEADER_LEN as int) =~= p.nonce);
        assert(b.subrange(V2_HEADER_LEN as int, b.len() as int) =~= p.ciphertext);
    } else {
        assert(b.subrange(1, 9) =~= be_u64_bytes(p.sequence));
        assert(b.subrange(9, V1_HEADER_LEN as int) =~= p.nonce);
        assert(b.subrange(V1_HEADER_LEN as int, b.len() as int) =~= p.ciphertext);
    }
}

/// Parsing bytes, then serialising the packet, gives the same bytes back.
pub proof fn lemma_parse_then_serialise(b: Seq<u8>)
    requires
        parse_wire(b) is Ok,
    ensures
        packet_wire(parse_wire(b)->Ok_0) == b,
{
    let p = parse_wire(b)->Ok_0;
    if b[0] == WIRE_VERSION_V2 {
        lemma_be_u64_bytes_of_value(b.subrange(2, 10));
        assert(packet_wire(p) =~= b);
    } else {
        lemma_be_u64_bytes_of_value(b.subrange(1, 9));
        assert(packet_wire(p) =~= b);
    }
}

/// Sending a packet through its base64 text (text that decodes to its wire
/// form, as `to_base64` produces) and parsing it gives the packet back when
/// its wire form roundtrips.
pub proof fn lemma_base64_roundtrip(p: PacketModel, text: Seq<char>)
    requires
        wire_roundtrips(p),
        base64_decode_text(text) == Some(packet_wire(p)),
    ensures
        parse_base64_wire(text) == Ok::<PacketModel, Error>(p),
{
    lemma_wire_roundtrip(p);
}

/// Decoding a packet from base64 text of its wire form gives exactly what
/// decoding the wire bytes gives, whatever the packet: `from_base64` of
/// `to_base64` agrees with `from_bytes` of `to_bytes`.
pub proof fn lemma_base64_agrees_with_bytes(p: PacketModel, text: Seq<char>)
    requires
        base64_decode_text(text) == Some(packet_wire(p)),
    ensures
        parse_base64_wire(text) == parse_wire(packet_wire(p)),
{
}

/// The length prefix makes the bound caller data unambiguous: two different
/// caller data of fewer than 2^32 bytes never give the same associated data.
pub proof fn lemma_internal_aad_v2_injective(flags: u8, sequence: u64, epoch: u64, a: Seq<u8>, b: Seq<u8>)
    requires
        flags & FLAG_AAD_PRESENT != 0,
        a.len() < 0x1_0000_0000,
        b.len() < 0x1_0000_0000,
        internal_aad_v2(flags, sequence, a, epoch) == internal_aad_v2(flags, sequence, b, epoch),
    ensures
        a == b,
{
    let head = seq![WIRE_VERSION_V2, flags] + be_u64_bytes(sequence) + (if epoch != 0 {
        epoch_label() + be_u64_bytes(epoch)
    } else {
        Seq::empty()
    });
    let x = internal_aad_v2(flags, sequence, a, epoch);
    let y = internal_aad_v2(flags, sequence, b, epoch);
    assert(x =~= head + be_u32_bytes(a.len() as u32) + a);
    assert(y =~= head + be_u32_bytes(b.len() as u32) + b);
    let h = head.len() as int;
    assert(x.subrange(h, h + 4) =~= be_u32_bytes(a.len() as u32));
    assert(y.subrange(h, h + 4) =~= be_u32_bytes(b.len() as u32));
    lemma_be_u32_value_of_bytes(a.len() as u32);
    lemma_be_u32_value_of_bytes(b.len() as u32);
    assert(a.len() == b.len());
    assert(x.subrange(h + 4, x.len() as int) =~= a);
    assert(y.subrange(h + 4, y.len() as int) =~= b);
}

} // verus!
