//! Byte and text helpers shared by the wire format, the key derivations and
//! the diagnostics: ASCII labels, big-endian integers, hex and decimal text.

use vstd::prelude::*;
use vstd::string::*;

verus! {

/// The bytes of an ASCII character sequence, one byte per character.
pub open spec fn ascii_bytes(s: Seq<char>) -> Seq<u8> {
    Seq::new(s.len(), |i: int| s[i] as u8)
}

/// Appends the bytes of the ASCII text `s` to `out`.
pub fn push_ascii(out: &mut Vec<u8>, s: &str)
    requires
        s.is_ascii(),
    ensures
        final(out)@ == old(out)@ + ascii_bytes(s@),
{
    let bytes = s.as_bytes();
    proof {
        is_ascii_spec_bytes(s);
    }
    out.extend_from_slice(bytes);
    assert(out@ =~= old(out)@ + ascii_bytes(s@));
}

/// Appends the bytes of `bytes` to `out`.
pub fn push_bytes(out: &mut Vec<u8>, bytes: &[u8])
    ensures
        final(out)@ == old(out)@ + bytes@,
{
    out.extend_from_slice(bytes);
    assert(out@ =~= old(out)@ + bytes@);
}

/// Copies 32 bytes out of a slice of exactly that length.
pub fn array32(bytes: &[u8]) -> (out: [u8; 32])
    requires
        bytes@.len() == 32,
    ensures
        out@ == bytes@,
{
    let mut out = [0u8; 32];
    let mut i: usize = 0;
    while i < 32
        invariant
            i <= 32,
            bytes@.len() == 32,
            out@.len() == 32,
            forall|j: int| 0 <= j < i ==> out@[j] == bytes@[j],
        decreases 32 - i,
    {
        out[i] = bytes[i];
        i = i + 1;
    }
    assert(out@ =~= bytes@);
    out
}

/// Copies 12 bytes out of a slice of exactly that length.
pub fn array12(bytes: &[u8]) -> (out: [u8; 12])
    requires
        bytes@.len() == 12,
    ensures
        out@ == bytes@,
{
    let mut out = [0u8; 12];
    let mut i: usize = 0;
    while i < 12
        invariant
            i <= 12,
            bytes@.len() == 12,
            out@.len() == 12,
            forall|j: int| 0 <= j < i ==> out@[j] == bytes@[j],
        decreases 12 - i,
    {
        out[i] = bytes[i];
        i = i + 1;
    }
    assert(out@ =~= bytes@);
    out
}

/// Compares two byte slices for equality.
pub fn bytes_equal(a: &[u8], b: &[u8]) -> (eq: bool)
    ensures
        eq == (a@ == b@),
{
    if a.len() != b.len() {
        return false;
    }
    let mut i: usize = 0;
    while i < a.len()
        invariant
            i <= a@.len(),
            a@.len() == b@.len(),
            forall|j: int| 0 <= j < i ==> a@[j] == b@[j],
        decreases a@.len() - i,
    {
        if a[i] != b[i] {
            return false;
        }
        i = i + 1;
    }
    assert(a@ =~= b@);
    true
}

/// Big-endian encoding of a 64-bit integer.
pub open spec fn be_u64_bytes(n: u64) -> Seq<u8> {
    seq![
        ((n >> 56u64) & 0xff) as u8,
        ((n >> 48u64) & 0xff) as u8,
        ((n >> 40u64) & 0xff) as u8,
        ((n >> 32u64) & 0xff) as u8,
        ((n >> 24u64) & 0xff) as u8,
        ((n >> 16u64) & 0xff) as u8,
        ((n >> 8u64) & 0xff) as u8,
        (n & 0xff) as u8,
    ]
}

/// The 64-bit integer whose big-endian encoding is the first eight bytes of `b`.
pub open spec fn be_u64_value(b: Seq<u8>) -> u64 {
    (b[0] as u64) << 56u64 | (b[1] as u64) << 48u64 | (b[2] as u64) << 40u64 | (b[3] as u64)
        << 32u64 | (b[4] as u64) << 24u64 | (b[5] as u64) << 16u64 | (b[6] as u64) << 8u64 | (
    b[7] as u64)
}

/// Big-endian encoding of a 32-bit integer.
pub open spec fn be_u32_bytes(n: u32) -> Seq<u8> {
    seq![
        ((n >> 24u32) & 0xff) as u8,
        ((n >> 16u32) & 0xff) as u8,
        ((n >> 8u32) & 0xff) as u8,
        (n & 0xff) as u8,
    ]
}

/// The 32-bit integer whose big-endian encoding is the first four bytes of `b`.
pub open spec fn be_u32_value(b: Seq<u8>) -> u32 {
    (b[0] as u32) << 24u32 | (b[1] as u32) << 16u32 | (b[2] as u32) << 8u32 | (b[3] as u32)
}

/// Decoding a big-endian 64-bit encoding gives the integer back.
pub proof fn lemma_be_u64_value_of_bytes(n: u64)
    ensures
        be_u64_value(be_u64_bytes(n)) == n,
{
    let b = be_u64_bytes(n);
    let b0 = ((n >> 56u64) & 0xff) as u8;
    let b1 = ((n >> 48u64) & 0xff) as u8;
    let b2 = ((n >> 40u64) & 0xff) as u8;
    let b3 = ((n >> 32u64) & 0xff) as u8;
    let b4 = ((n >> 24u64) & 0xff) as u8;
    let b5 = ((n >> 16u64) & 0xff) as u8;
    let b6 = ((n >> 8u64) & 0xff) as u8;
    let b7 = (n & 0xff) as u8;
    assert(b[0] == b0 && b[1] == b1 && b[2] == b2 && b[3] == b3);
    assert(b[4] == b4 && b[5] == b5 && b[6] == b6 && b[7] == b7);
    assert((b0 as u64) << 56u64 | (b1 as u64) << 48u64 | (b2 as u64) << 40u64 | (b3 as u64)
        << 32u64 | (b4 as u64) << 24u64 | (b5 as u64) << 16u64 | (b6 as u64) << 8u64 | (b7 as u64)
        == n) by (bit_vector)
        requires
            b0 == ((n >> 56u64) & 0xff) as u8,
            b1 == ((n >> 48u64) & 0xff) as u8,
            b2 == ((n >> 40u64) & 0xff) as u8,
            b3 == ((n >> 32u64) & 0xff) as u8,
            b4 == ((n >> 24u64) & 0xff) as u8,
            b5 == ((n >> 16u64) & 0xff) as u8,
            b6 == ((n >> 8u64) & 0xff) as u8,
            b7 == (n & 0xff) as u8,
    ;
}

/// Encoding the integer read from eight bytes gives those bytes back.
pub proof fn lemma_be_u64_bytes_of_value(b: Seq<u8>)
    requires
        b.len() == 8,
    ensures
        be_u64_bytes(be_u64_value(b)) == b,
{
    let b0 = b[0];
    let b1 = b[1];
    let b2 = b[2];
    let b3 = b[3];
    let b4 = b[4];
    let b5 = b[5];
    let b6 = b[6];
    let b7 = b[7];
    let n = be_u64_value(b);
    assert(n == (b0 as u64) << 56u64 | (b1 as u64) << 48u64 | (b2 as u64) << 40u64 | (b3 as u64)
        << 32u64 | (b4 as u64) << 24u64 | (b5 as u64) << 16u64 | (b6 as u64) << 8u64 | (b7 as u64));
    assert(((n >> 56u64) & 0xff) as u8 == b0 && ((n >> 48u64) & 0xff) as u8 == b1 && ((n
        >> 40u64) & 0xff) as u8 == b2 && ((n >> 32u64) & 0xff) as u8 == b3 && ((n >> 24u64)
        & 0xff) as u8 == b4 && ((n >> 16u64) & 0xff) as u8 == b5 && ((n >> 8u64) & 0xff) as u8
        == b6 && (n & 0xff) as u8 == b7) by (bit_vector)
        requires
            n == (b0 as u64) << 56u64 | (b1 as u64) << 48u64 | (b2 as u64) << 40u64 | (b3 as u64)
                << 32u64 | (b4 as u64) << 24u64 | (b5 as u64) << 16u64 | (b6 as u64) << 8u64 | (
            b7 as u64),
    ;
    assert(be_u64_bytes(n) =~= b);
}

/// Decoding a big-endian 32-bit encoding gives the integer back.
pub proof fn lemma_be_u32_value_of_bytes(n: u32)
    ensures
        be_u32_value(be_u32_bytes(n)) == n,
{
    let b = be_u32_bytes(n);
    let b0 = ((n >> 24u32) & 0xff) as u8;
    let b1 = ((n >> 16u32) & 0xff) as u8;
    let b2 = ((n >> 8u32) & 0xff) as u8;
    let b3 = (n & 0xff) as u8;
    assert(b[0] == b0 && b[1] == b1 && b[2] == b2 && b[3] == b3);
    assert((b0 as u32) << 24u32 | (b1 as u32) << 16u32 | (b2 as u32) << 8u32 | (b3 as u32) == n)
        by (bit_vector)
        requires
            b0 == ((n >> 24u32) & 0xff) as u8,
            b1 == ((n >> 16u32) & 0xff) as u8,
            b2 == ((n >> 8u32) & 0xff) as u8,
            b3 == (n & 0xff) as u8,
    ;
}

/// Appends the big-endian encoding of `n` to `out`.
pub fn push_be_u64(out: &mut Vec<u8>, n: u64)
    ensures
        final(out)@ == old(out)@ + be_u64_bytes(n),
{
    out.push(((n >> 56u64) & 0xff) as u8);
    out.push(((n >> 48u64) & 0xff) as u8);
    out.push(((n >> 40u64) & 0xff) as u8);
    out.push(((n >> 32u64) & 0xff) as u8);
    out.push(((n >> 24u64) & 0xff) as u8);
    out.push(((n >> 16u64) & 0xff) as u8);
    out.push(((n >> 8u64) & 0xff) as u8);
    out.push((n & 0xff) as u8);
    assert(out@ =~= old(out)@ + be_u64_bytes(n));
}

/// Appends the big-endian encoding of `n` to `out`.
pub fn push_be_u32(out: &mut Vec<u8>, n: u32)
    ensures
        final(out)@ == old(out)@ + be_u32_bytes(n),
{
    out.push(((n >> 24u32) & 0xff) as u8);
    out.push(((n >> 16u32) & 0xff) as u8);
    out.push(((n >> 8u32) & 0xff) as u8);
    out.push((n & 0xff) as u8);
    assert(out@ =~= old(out)@ + be_u32_bytes(n));
}

/// Reads the big-endian 64-bit integer stored at `bytes[at..at + 8]`.
pub fn read_be_u64(bytes: &[u8], at: usize) -> (n: u64)
    requires
        at + 8 <= bytes@.len(),
    ensures
        n == be_u64_value(bytes@.subrange(at as int, at + 8)),
{
    (bytes[at] as u64) << 56u64 | (bytes[at + 1] as u64) << 48u64 | (bytes[at + 2] as u64)
        << 40u64 | (bytes[at + 3] as u64) << 32u64 | (bytes[at + 4] as u64) << 24u64 | (bytes[at
        + 5] as u64) << 16u64 | (bytes[at + 6] as u64) << 8u64 | (bytes[at + 7] as u64)
}

/// Reads the big-endian 32-bit integer stored at `bytes[at..at + 4]`.
pub fn read_be_u32(bytes: &[u8], at: usize) -> (n: u32)
    requires
        at + 4 <= bytes@.len(),
    ensures
        n == be_u32_value(bytes@.subrange(at as int, at + 4)),
{
    (bytes[at] as u32) << 24u32 | (bytes[at + 1] as u32) << 16u32 | (bytes[at + 2] as u32) << 8u32
        | (bytes[at + 3] as u32)
}

/// The sixteen upper-case hexadecimal digits, in order.
pub open spec fn hex_digits() -> Seq<char> {
    "0123456789ABCDEF"@
}

/// Two upper-case hexadecimal digits of a byte, most significant first.
pub open spec fn hex_byte(b: u8) -> Seq<char> {
    seq![hex_digits()[(b / 16) as int], hex_digits()[(b % 16) as int]]
}

/// Upper-case hexadecimal text of a byte sequence, two digits per byte.
pub open spec fn hex_text(bytes: Seq<u8>) -> Seq<char>
    decreases bytes.len(),
{
    if bytes.len() == 0 {
        Seq::empty()
    } else {
        hex_text(bytes.drop_last()) + hex_byte(bytes.last())
    }
}

/// Hexadecimal text has two digits per byte.
pub proof fn lemma_hex_text_len(bytes: Seq<u8>)
    ensures
        hex_text(bytes).len() == 2 * bytes.len(),
    decreases bytes.len(),
{
    if bytes.len() > 0 {
        lemma_hex_text_len(bytes.drop_last());
    }
}

/// The ten decimal digits, in order.
pub open spec fn decimal_digits() -> Seq<char> {
    "0123456789"@
}

/// Decimal text of a natural number, without leading zeros.
pub open spec fn decimal_text(n: nat) -> Seq<char>
    decreases n,
{
    if n < 10 {
        seq![decimal_digits()[n as int]]
    } else {
        decimal_text(n / 10) + seq![decimal_digits()[(n % 10) as int]]
    }
}

/// Appends the two hexadecimal digits of `b` to `out`.
pub fn push_hex_byte(out: &mut String, b: u8)
    ensures
        final(out)@ == old(out)@ + hex_byte(b),
{
    let digits = "0123456789ABCDEF";
    proof {
        reveal_strlit("0123456789ABCDEF");
    }
    let hi = (b / 16) as usize;
    let lo = (b % 16) as usize;
    out.append(digits.substring_char(hi, hi + 1));
    out.append(digits.substring_char(lo, lo + 1));
    assert(out@ =~= old(out)@ + hex_byte(b));
}

/// Appends the hexadecimal text of `bytes` to `out`.
pub fn push_hex(out: &mut String, bytes: &[u8])
    ensures
        final(out)@ == old(out)@ + hex_text(bytes@),
{
    let mut i: usize = 0;
    while i < bytes.len()
        invariant
            i <= bytes@.len(),
            out@ == old(out)@ + hex_text(bytes@.subrange(0, i as int)),
        decreases bytes@.len() - i,
    {
        push_hex_byte(out, bytes[i]);
        proof {
            let next = bytes@.subrange(0, i + 1);
            assert(next.drop_last() =~= bytes@.subrange(0, i as int));
            assert(next.last() == bytes@[i as int]);
        }
        i = i + 1;
    }
    assert(bytes@.subrange(0, bytes@.len() as int) =~= bytes@);
}

/// Appends the decimal text of `n` to `out`.
pub fn push_decimal(out: &mut String, n: u64)
    ensures
        final(out)@ == old(out)@ + decimal_text(n as nat),
    decreases n,
{
    let digits = "0123456789";
    proof {
        reveal_strlit("0123456789");
    }
    if n >= 10 {
        push_decimal(out, n / 10);
    }
    let d = (n % 10) as usize;
    out.append(digits.substring_char(d, d + 1));
    assert(digits@.subrange(d as int, d + 1) =~= seq![decimal_digits()[d as int]]);
    assert(out@ =~= old(out)@ + decimal_text(n as nat));
}

/// `text` begins with `prefix`.
pub open spec fn has_prefix(text: Seq<char>, prefix: Seq<char>) -> bool {
    text.len() >= prefix.len() && text.subrange(0, prefix.len() as int) == prefix
}

/// The rest of `text` after `prefix`, when `text` begins with `prefix`.
pub fn strip_prefix_chars<'a>(text: &'a str, prefix: &str) -> (rest: Option<&'a str>)
    ensures
        rest is Some <==> has_prefix(text@, prefix@),
        rest matches Some(r) ==> r@ == text@.subrange(prefix@.len() as int, text@.len() as int),
{
    let prefix_len = prefix.unicode_len();
    let len = text.unicode_len();
    if len < prefix_len {
        return None;
    }
    let mut i: usize = 0;
    while i < prefix_len
        invariant
            i <= prefix_len,
            prefix_len == prefix@.len(),
            prefix_len <= len,
            len == text@.len(),
            forall|j: int| 0 <= j < i ==> text@[j] == prefix@[j],
        decreases prefix_len - i,
    {
        if text.get_char(i) != prefix.get_char(i) {
            assert(text@.subrange(0, prefix_len as int)[i as int] != prefix@[i as int]);
            return None;
        }
        i = i + 1;
    }
    assert(text@.subrange(0, prefix_len as int) =~= prefix@);
    Some(text.substring_char(prefix_len, len))
}

} // verus!
