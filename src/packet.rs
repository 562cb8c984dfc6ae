//! The wire packet: `[counter bytes, little-endian] [0x00] [CRC byte]`.
use crate::counter::{
    all_nonzero, bytes_of_index, index_of_bytes, lemma_bytes_determine_counter, lemma_bytes_nonzero,
    lemma_pow255_positive, pow255, valid_width, Counter,
};
use vstd::arithmetic::div_mod::lemma_div_denominator;
use vstd::prelude::*;

verus! {

/// Capacity of a packet buffer: eight counter bytes, the sentinel and the CRC.
pub const MAX_PACKET_SIZE: usize = 10;

/// A fixed-capacity byte buffer that holds at most one packet.
pub type PacketBuf = heapless::Vec<u8, MAX_PACKET_SIZE>;

#[verifier::external_type_specification]
#[verifier::external_body]
#[verifier::reject_recursive_types(T)]
pub struct ExHeaplessVec<T, const N: usize>(heapless::Vec<T, N>);

/// The bytes that a packet buffer holds, in order.
pub uninterp spec fn buf_contents(v: heapless::Vec<u8, 10>) -> Seq<u8>;

/// CRC-8/AUTOSAR of a byte sequence.
pub uninterp spec fn crc8_autosar(data: Seq<u8>) -> u8;

/// Relies on `heapless::Vec::new`: a new vector is empty.
#[verifier::external_body]
pub(crate) fn buf_new() -> (r: PacketBuf)
    ensures
        buf_contents(r) == Seq::<u8>::empty(),
{
    heapless::Vec::new()
}

/// Relies on `heapless::Vec::push`: below the capacity the byte is appended and
/// `Ok` returned; at the capacity the vector is unchanged and the byte handed back.
#[verifier::external_body]
pub(crate) fn buf_push(v: &mut PacketBuf, b: u8) -> (r: Result<(), u8>)
    ensures
        r == (if buf_contents(*old(v)).len() < MAX_PACKET_SIZE {
            Ok::<(), u8>(())
        } else {
            Err::<(), u8>(b)
        }),
        buf_contents(*final(v)) == (if buf_contents(*old(v)).len() < MAX_PACKET_SIZE {
            buf_contents(*old(v)).push(b)
        } else {
            buf_contents(*old(v))
        }),
{
    v.push(b)
}

/// Relies on `heapless::Vec::clear`: the vector is left empty.
#[verifier::external_body]
pub(crate) fn buf_clear(v: &mut PacketBuf)
    ensures
        buf_contents(*final(v)) == Seq::<u8>::empty(),
{
    v.clear()
}

/// Relies on `heapless::Vec::as_slice`: the slice holds the vector's bytes in order.
#[verifier::external_body]
pub(crate) fn buf_as_slice(v: &PacketBuf) -> (r: &[u8])
    ensures
        r@ == buf_contents(*v),
{
    v.as_slice()
}

/// Relies on `crc::Crc::<u8>::checksum` with the `crc::CRC_8_AUTOSAR` parameters
/// (polynomial 0x2F, init 0xFF, xor-out 0xFF, no reflection); the result
/// depends on the bytes alone.
#[verifier::external_body]
fn checksum(data: &[u8]) -> (r: u8)
    ensures
        r == crc8_autosar(data@),
{
    crc::Crc::<u8>::new(&crc::CRC_8_AUTOSAR).checksum(data)
}

/// The byte that follows the sentinel: the CRC of the counter bytes when
/// checksums are enabled, otherwise the first counter byte (or zero).
pub open spec fn crc_field(counter_bytes: Seq<u8>, checksum_enabled: bool) -> u8 {
    if checksum_enabled {
        crc8_autosar(counter_bytes)
    } else if counter_bytes.len() > 0 {
        counter_bytes[0]
    } else {
        0
    }
}

/// The wire packet for the given counter bytes.
pub open spec fn packet_of(counter_bytes: Seq<u8>, checksum_enabled: bool) -> Seq<u8> {
    counter_bytes.push(0).push(crc_field(counter_bytes, checksum_enabled))
}

/// Whether `counter_bytes` and the received CRC field `crc` decode as the
/// bytes of a counter of width `width`: the length matches, and so does the CRC
/// when one is given.
pub open spec fn decodes(width: nat, counter_bytes: Seq<u8>, crc: Option<u8>) -> bool {
    &&& counter_bytes.len() == width
    &&& (crc matches Some(v) ==> crc8_autosar(counter_bytes) == v)
}

/// A packet buffer holding `bytes`.
fn buf_from_slice(bytes: &[u8]) -> (r: PacketBuf)
    requires
        bytes@.len() <= MAX_PACKET_SIZE,
    ensures
        buf_contents(r) == bytes@,
{
    let mut out = buf_new();
    let mut i: usize = 0;
    while i < bytes.len()
        invariant
            i <= bytes@.len() <= MAX_PACKET_SIZE,
            buf_contents(out) == bytes@.subrange(0, i as int),
        decreases bytes@.len() - i,
    {
        let _ = buf_push(&mut out, bytes[i]);
        assert(buf_contents(out) =~= bytes@.subrange(0, i + 1));
        i = i + 1;
    }
    assert(bytes@.subrange(0, i as int) =~= bytes@);
    out
}

/// Appends the sentinel and the CRC field to a buffer that holds counter bytes.
fn frame(out: &mut PacketBuf, checksum_enabled: bool)
    requires
        1 <= buf_contents(*old(out)).len() <= 8,
    ensures
        buf_contents(*final(out)) == packet_of(buf_contents(*old(out)), checksum_enabled),
{
    let crc = if checksum_enabled {
        checksum(buf_as_slice(out))
    } else {
        buf_as_slice(out)[0]
    };
    let _ = buf_push(out, 0);
    let _ = buf_push(out, crc);
}

/// The wire packet of the counter bytes `counter_bytes`: the bytes, the zero
/// sentinel and the CRC field.
pub fn encode_bytes(counter_bytes: &[u8], checksum_enabled: bool) -> (r: PacketBuf)
    requires
        1 <= counter_bytes@.len() <= 8,
    ensures
        buf_contents(r) == packet_of(counter_bytes@, checksum_enabled),
{
    let mut out = buf_from_slice(counter_bytes);
    frame(&mut out, checksum_enabled);
    out
}

/// CRC-8/AUTOSAR of `data`.
pub fn crc8(data: &[u8]) -> (r: u8)
    ensures
        r == crc8_autosar(data@),
{
    checksum(data)
}

/// The wire packet of `counter`: its little-endian bytes, the zero sentinel and
/// the CRC field.
pub fn encode_packet(counter: &Counter, checksum_enabled: bool) -> (r: PacketBuf)
    requires
        counter.wf(),
    ensures
        buf_contents(r) == packet_of(counter.bytes(), checksum_enabled),
        buf_contents(r).len() == counter.width_spec() + 2,
{
    let width = counter.width();
    let k = counter.index();
    let ghost bytes = counter.bytes();
    let mut out = buf_new();
    let mut x: u64 = k;
    let mut i: usize = 0;
    assert(pow255(0) == 1);
    assert(k as nat / 1 == k as nat);
    while i < width
        invariant
            i <= width,
            width == counter.width_spec(),
            valid_width(width as nat),
            k == counter.index_spec(),
            bytes == bytes_of_index(width as nat, k as nat),
            x as nat == k as nat / pow255(i as nat),
            buf_contents(out) == bytes.subrange(0, i as int),
        decreases width - i,
    {
        proof {
            lemma_pow255_positive(i as nat);
            lemma_div_denominator(k as int, pow255(i as nat) as int, 255);
            assert(pow255((i + 1) as nat) == pow255(i as nat) * 255);
        }
        let _ = buf_push(&mut out, (x % 255 + 1) as u8);
        assert(buf_contents(out) =~= bytes.subrange(0, i + 1));
        x = x / 255;
        i = i + 1;
    }
    assert(buf_contents(out) =~= bytes);
    frame(&mut out, checksum_enabled);
    out
}

/// The counter bytes of a received packet, checked against the received CRC
/// field when `crc` is `Some`; `None` when their number is not `width` or the
/// CRC does not match. `Counter::from_le_bytes` turns them into a counter.
pub fn decode_packet(width: usize, counter_bytes: &[u8], crc: Option<u8>) -> (r: Option<PacketBuf>)
    requires
        valid_width(width as nat),
    ensures
        r is Some <==> decodes(width as nat, counter_bytes@, crc),
        r matches Some(b) ==> buf_contents(b) == counter_bytes@,
{
    if counter_bytes.len() != width {
        return None;
    }
    if let Some(v) = crc {
        if checksum(counter_bytes) != v {
            return None;
        }
    }
    Some(buf_from_slice(counter_bytes))
}

/// The counter bytes and CRC field of a checksummed packet decode, and to no
/// counter other than the one encoded.
pub proof fn lemma_packet_round_trip(c: Counter)
    requires
        c.wf(),
    ensures
        ({
            let p = packet_of(c.bytes(), true);
            let w = c.width_spec();
            &&& decodes(w, p.subrange(0, w as int), Some(p[w + 1int]))
            &&& p.subrange(0, w as int) == c.bytes()
            &&& forall|d: Counter|
                d.wf() && d.width_spec() == w && d.bytes() == p.subrange(0, w as int) ==> d == c
        }),
{
    let p = packet_of(c.bytes(), true);
    let w = c.width_spec();
    assert(p.subrange(0, w as int) =~= c.bytes());
    lemma_bytes_nonzero(w, c.index_spec());
    assert forall|d: Counter|
        d.wf() && d.width_spec() == w && d.bytes() == p.subrange(0, w as int) implies d == c by {
        lemma_bytes_determine_counter(c, d);
    }
}

} // verus!
