//! The quality-test payload: eight bytes that carry a sequence number, the
//! sender's clock offset, a test identifier and a checksum.

use vstd::prelude::*;

verus! {

/// First byte of the magic marker.
pub const QT_MAGIC0: u8 = 0xCA;

/// Second byte of the magic marker.
pub const QT_MAGIC1: u8 = 0xFE;

/// Length of the payload in bytes.
pub const QT_LEN: usize = 8;

/// How a frame's data reads as a quality-test payload.
#[derive(Clone, Copy, Debug, PartialEq, Eq, Structural)]
pub enum QualityParse {
    /// Too short, or the magic marker is absent.
    NotQuality,
    /// The marker is there and the checksum is wrong.
    Invalid,
    /// A well-formed payload.
    Valid { seq: u16, sender_offset_ms: u16 },
}

/// The XOR of the first seven bytes.
pub open spec fn checksum7(d: Seq<u8>) -> u8
    recommends
        d.len() >= 7,
{
    d[0] ^ d[1] ^ d[2] ^ d[3] ^ d[4] ^ d[5] ^ d[6]
}

/// The sender's clock offset as the payload carries it.
pub open spec fn offset_ms(elapsed_ms: u64) -> u16 {
    (elapsed_ms % 65536) as u16
}

/// The first seven bytes of an encoded payload.
pub open spec fn encoded_head(seq: u16, elapsed_ms: u64, test_id: u8) -> Seq<u8> {
    seq![
        QT_MAGIC0,
        QT_MAGIC1,
        (seq / 256) as u8,
        (seq % 256) as u8,
        (offset_ms(elapsed_ms) / 256) as u8,
        (offset_ms(elapsed_ms) % 256) as u8,
        test_id,
    ]
}

/// The eight bytes of an encoded payload.
pub open spec fn encoded(seq: u16, elapsed_ms: u64, test_id: u8) -> Seq<u8> {
    encoded_head(seq, elapsed_ms, test_id).push(checksum7(encoded_head(seq, elapsed_ms, test_id)))
}

/// How a sequence of data bytes reads as a quality-test payload.
pub open spec fn decoded(d: Seq<u8>) -> QualityParse {
    if d.len() < 8 || d[0] != QT_MAGIC0 || d[1] != QT_MAGIC1 {
        QualityParse::NotQuality
    } else if checksum7(d) != d[7] {
        QualityParse::Invalid
    } else {
        QualityParse::Valid {
            seq: (d[2] as int * 256 + d[3] as int) as u16,
            sender_offset_ms: (d[4] as int * 256 + d[5] as int) as u16,
        }
    }
}

/// Whether a receiver that expects `expected` takes a payload whose
/// test-identifier byte is `d[6]`.
pub open spec fn test_id_matches(d: Seq<u8>, expected: Option<u8>) -> bool
    recommends
        d.len() >= 8,
{
    match expected {
        None => true,
        Some(t) => d[6] == t,
    }
}

/// Writes the payload into the first eight bytes of `buf`. A buffer shorter
/// than eight bytes is left as it is.
pub fn fill_quality_test_payload(buf: &mut Vec<u8>, seq: u16, elapsed_ms: u64, test_id: u8)
    ensures
        old(buf)@.len() < 8 ==> final(buf)@ == old(buf)@,
        old(buf)@.len() >= 8 ==> final(buf)@ == encoded(seq, elapsed_ms, test_id) + old(buf)@.skip(8),
{
    if buf.len() < 8 {
        return ;
    }
    let ts_offset: u16 = (elapsed_ms % 65536) as u16;
    buf[0] = QT_MAGIC0;
    buf[1] = QT_MAGIC1;
    buf[2] = (seq / 256) as u8;
    buf[3] = (seq % 256) as u8;
    buf[4] = (ts_offset / 256) as u8;
    buf[5] = (ts_offset % 256) as u8;
    buf[6] = test_id;
    let mut checksum: u8 = 0;
    let mut i: usize = 0;
    while i < 7
        invariant
            i <= 7,
            buf@.len() >= 8,
            checksum == xor_prefix(buf@, i as int),
        decreases 7 - i,
    {
        checksum = checksum ^ buf[i];
        i = i + 1;
    }
    proof {
        lemma_xor_prefix_seven(buf@);
    }
    buf[7] = checksum;
    assert(buf@ =~= encoded(seq, elapsed_ms, test_id) + old(buf)@.skip(8));
}

/// Reads `data` as a quality-test payload.
pub fn parse_quality_test(data: &[u8]) -> (r: QualityParse)
    ensures
        r == decoded(data@),
{
    if data.len() < 8 {
        return QualityParse::NotQuality;
    }
    if data[0] != QT_MAGIC0 || data[1] != QT_MAGIC1 {
        return QualityParse::NotQuality;
    }
    let mut checksum: u8 = 0;
    let mut i: usize = 0;
    while i < 7
        invariant
            i <= 7,
            data@.len() >= 8,
            checksum == xor_prefix(data@, i as int),
        decreases 7 - i,
    {
        checksum = checksum ^ data[i];
        i = i + 1;
    }
    proof {
        lemma_xor_prefix_seven(data@);
    }
    if checksum != data[7] {
        return QualityParse::Invalid;
    }
    let seq: u16 = (data[2] as u16) * 256 + (data[3] as u16);
    let sender_offset_ms: u16 = (data[4] as u16) * 256 + (data[5] as u16);
    QualityParse::Valid { seq, sender_offset_ms }
}

/// Whether a receiver that expects `expected` takes the payload in `data`.
pub fn accepts_test_id(data: &[u8], expected: Option<u8>) -> (r: bool)
    requires
        data@.len() >= 8,
    ensures
        r == test_id_matches(data@, expected),
{
    match expected {
        None => true,
        Some(t) => data[6] == t,
    }
}

/// The XOR of the first `n` bytes.
pub open spec fn xor_prefix(d: Seq<u8>, n: int) -> u8
    recommends
        0 <= n <= d.len(),
    decreases n,
{
    if n <= 0 {
        0u8
    } else {
        xor_prefix(d, n - 1) ^ d[n - 1]
    }
}

/// The XOR of the first seven bytes, taken one by one, is the checksum.
pub proof fn lemma_xor_prefix_seven(d: Seq<u8>)
    requires
        d.len() >= 7,
    ensures
        xor_prefix(d, 7) == checksum7(d),
{
    reveal_with_fuel(xor_prefix, 8);
    let (a, b, c, e, f, g, h) = (d[0], d[1], d[2], d[3], d[4], d[5], d[6]);
    assert(((((((0u8 ^ a) ^ b) ^ c) ^ e) ^ f) ^ g) ^ h == a ^ b ^ c ^ e ^ f ^ g ^ h)
        by (bit_vector);
}

/// Decoding an encoded payload gives back the sequence number and the clock
/// offset modulo 65536, whatever follows the eight bytes.
pub proof fn lemma_round_trip(seq: u16, elapsed_ms: u64, test_id: u8, tail: Seq<u8>)
    ensures
        decoded(encoded(seq, elapsed_ms, test_id) + tail) == (QualityParse::Valid {
            seq,
            sender_offset_ms: offset_ms(elapsed_ms),
        }),
        test_id_matches(encoded(seq, elapsed_ms, test_id) + tail, Some(test_id)),
        forall|other: u8|
            other != test_id ==> !test_id_matches(
                encoded(seq, elapsed_ms, test_id) + tail,
                Some(other),
            ),
{
    let e = encoded(seq, elapsed_ms, test_id);
    let d = e + tail;
    assert(e.len() == 8);
    assert(forall|i: int| 0 <= i < 8 ==> d[i] == e[i]);
    assert(checksum7(d) == checksum7(encoded_head(seq, elapsed_ms, test_id)));
}

/// The payload with bit `bit` of byte `index` inverted.
pub open spec fn flip_bit(d: Seq<u8>, index: int, bit: u8) -> Seq<u8>
    recommends
        0 <= index < d.len(),
        bit < 8,
{
    d.update(index, d[index] ^ (1u8 << bit))
}

/// Inverting one bit of a well-formed payload is always detected: in the
/// magic marker the data no longer reads as a payload at all, anywhere else
/// among the eight bytes the checksum fails.
pub proof fn lemma_single_bit_flip_detected(d: Seq<u8>, index: int, bit: u8)
    requires
        decoded(d) is Valid,
        0 <= index < 8,
        bit < 8,
    ensures
        index < 2 ==> decoded(flip_bit(d, index, bit)) == QualityParse::NotQuality,
        index >= 2 ==> decoded(flip_bit(d, index, bit)) == QualityParse::Invalid,
{
    let m: u8 = 1u8 << bit;
    let f = flip_bit(d, index, bit);
    assert(m != 0) by (bit_vector)
        requires
            m == 1u8 << bit,
            bit < 8,
    ;
    let x = d[index];
    assert(x ^ m != x) by (bit_vector)
        requires
            m != 0,
    ;
    let (a, b, c, e, g, h, k) = (d[0], d[1], d[2], d[3], d[4], d[5], d[6]);
    assert(a ^ b ^ (c ^ m) ^ e ^ g ^ h ^ k != a ^ b ^ c ^ e ^ g ^ h ^ k) by (bit_vector)
        requires
            m != 0,
    ;
    assert(a ^ b ^ c ^ (e ^ m) ^ g ^ h ^ k != a ^ b ^ c ^ e ^ g ^ h ^ k) by (bit_vector)
        requires
            m != 0,
    ;
    assert(a ^ b ^ c ^ e ^ (g ^ m) ^ h ^ k != a ^ b ^ c ^ e ^ g ^ h ^ k) by (bit_vector)
        requires
            m != 0,
    ;
    assert(a ^ b ^ c ^ e ^ g ^ (h ^ m) ^ k != a ^ b ^ c ^ e ^ g ^ h ^ k) by (bit_vector)
        requires
            m != 0,
    ;
    assert(a ^ b ^ c ^ e ^ g ^ h ^ (k ^ m) != a ^ b ^ c ^ e ^ g ^ h ^ k) by (bit_vector)
        requires
            m != 0,
    ;
}

} // verus!
