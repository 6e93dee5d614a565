//! Length-prefixed framing of packets on a TCP stream.
//!
//! Every packet is sent as an 8-byte big-endian length header, followed by
//! exactly that many bytes of payload.

use vstd::prelude::*;
use byteorder::{BigEndian, ByteOrder};

verus! {

/// The 8 big-endian bytes of `n`.
pub open spec fn be_bytes(n: u64) -> Seq<u8> {
    seq![
        (n >> 56u64) as u8, (n >> 48u64) as u8, (n >> 40u64) as u8, (n >> 32u64) as u8,
        (n >> 24u64) as u8, (n >> 16u64) as u8, (n >> 8u64) as u8, n as u8,
    ]
}

/// The number whose big-endian bytes are the first 8 bytes of `s`.
pub open spec fn be_value(s: Seq<u8>) -> u64
    recommends s.len() >= 8,
{
    ((s[0] as u64) << 56u64) | ((s[1] as u64) << 48u64) | ((s[2] as u64) << 40u64)
        | ((s[3] as u64) << 32u64) | ((s[4] as u64) << 24u64) | ((s[5] as u64) << 16u64)
        | ((s[6] as u64) << 8u64) | (s[7] as u64)
}

/// `BigEndian::write_u64` of byteorder: overwrites the first 8 bytes of `buf`
/// with the big-endian bytes of `n` and leaves the rest as it was.
#[verifier::external_body]
fn be_write_u64(buf: &mut Vec<u8>, n: u64)
    requires
        old(buf).len() >= 8,
    ensures
        final(buf)@ == be_bytes(n) + old(buf)@.skip(8),
{
    BigEndian::write_u64(buf, n)
}

/// `BigEndian::read_u64` of byteorder: the number whose big-endian bytes are
/// the first 8 bytes of `buf`.
#[verifier::external_body]
fn be_read_u64(buf: &[u8]) -> (n: u64)
    requires
        buf@.len() >= 8,
    ensures
        n == be_value(buf@),
{
    BigEndian::read_u64(buf)
}

/// Reading back the bytes of a number gives the number.
pub proof fn lemma_be_value_of_bytes(n: u64)
    ensures
        be_value(be_bytes(n)) == n,
{
    let s = be_bytes(n);
    assert(((((n >> 56u64) as u8) as u64) << 56u64) | ((((n >> 48u64) as u8) as u64) << 48u64)
        | ((((n >> 40u64) as u8) as u64) << 40u64) | ((((n >> 32u64) as u8) as u64) << 32u64)
        | ((((n >> 24u64) as u8) as u64) << 24u64) | ((((n >> 16u64) as u8) as u64) << 16u64)
        | ((((n >> 8u64) as u8) as u64) << 8u64) | ((n as u8) as u64) == n) by (bit_vector);
}

/// Header and payload of a frame: the payload's length as 8 big-endian bytes,
/// then the payload.
pub fn encode_frame(payload: &[u8]) -> (frame: Vec<u8>)
    ensures
        frame@ == be_bytes(payload@.len() as u64) + payload@,
{
    let mut buf: Vec<u8> = vec![0u8, 0u8, 0u8, 0u8, 0u8, 0u8, 0u8, 0u8];
    be_write_u64(&mut buf, payload.len() as u64);
    assert(buf@ =~= be_bytes(payload@.len() as u64));
    let mut i: usize = 0;
    while i < payload.len()
        invariant
            i <= payload@.len(),
            buf@ == be_bytes(payload@.len() as u64) + payload@.take(i as int),
        decreases payload@.len() - i,
    {
        buf.push(payload[i]);
        assert(payload@.take(i as int + 1) =~= payload@.take(i as int).push(payload@[i as int]));
        i = i + 1;
    }
    assert(payload@.take(i as int) =~= payload@);
    buf
}

/// The payload length that an 8-byte frame header announces.
pub fn frame_len(header: &[u8]) -> (len: u64)
    requires
        header@.len() >= 8,
    ensures
        len == be_value(header@),
{
    be_read_u64(header)
}

/// What reading one frame from the start of `bytes` yields: the payload and
/// the number of bytes the frame takes, or `None` when `bytes` ends before
/// the header or before the announced payload.
pub open spec fn spec_parse_frame(bytes: Seq<u8>) -> Option<(Seq<u8>, int)> {
    if bytes.len() < 8 {
        None
    } else {
        let len = be_value(bytes) as int;
        if bytes.len() - 8 < len {
            None
        } else {
            Some((bytes.subrange(8, 8 + len), 8 + len))
        }
    }
}

/// Reads one frame from the start of `bytes`.
pub fn parse_frame(bytes: &[u8]) -> (res: Option<(Vec<u8>, usize)>)
    ensures
        match spec_parse_frame(bytes@) {
            None => res is None,
            Some((payload, used)) => res matches Some((p, u)) && p@ == payload && u == used,
        },
        match res {
            Some((p, u)) => bytes@.len() >= 8 && u == 8 + be_value(bytes@) && u <= bytes@.len()
                && p@.len() == be_value(bytes@) && p@ == bytes@.subrange(8, u as int),
            None => bytes@.len() < 8 || bytes@.len() < 8 + be_value(bytes@),
        },
{
    if bytes.len() < 8 {
        return None;
    }
    let len = frame_len(bytes);
    let avail: usize = bytes.len() - 8;
    if (avail as u64) < len {
        return None;
    }
    let end: usize = 8 + len as usize;
    let mut payload: Vec<u8> = Vec::new();
    let mut i: usize = 8;
    while i < end
        invariant
            8 <= i <= end,
            end as int == 8 + len,
            end <= bytes@.len(),
            payload@ == bytes@.subrange(8, i as int),
        decreases end - i,
    {
        payload.push(bytes[i]);
        assert(bytes@.subrange(8, i as int + 1) =~= bytes@.subrange(8, i as int).push(bytes@[i as int]));
        i = i + 1;
    }
    Some((payload, end))
}

/// A frame is read exactly when the bytes hold its header and the whole
/// payload the header announces; the payload is then those announced bytes
/// after the header, and the frame takes the header and them.
pub proof fn lemma_parse_frame_complete(bytes: Seq<u8>)
    ensures
        match spec_parse_frame(bytes) {
            Some((p, u)) => bytes.len() >= 8 && u == 8 + be_value(bytes) && u <= bytes.len()
                && p.len() == be_value(bytes) && p == bytes.subrange(8, u),
            None => bytes.len() < 8 || bytes.len() < 8 + be_value(bytes),
        },
{
}

/// A frame read back from the bytes written for a payload, whatever follows
/// it, gives the payload and the frame's length.
pub proof fn lemma_frame_roundtrip(payload: Seq<u8>, rest: Seq<u8>)
    requires
        payload.len() <= u64::MAX,
    ensures
        spec_parse_frame(be_bytes(payload.len() as u64) + payload + rest)
            == Some((payload, 8 + payload.len() as int)),
{
    let n = payload.len() as u64;
    let bytes = be_bytes(n) + payload + rest;
    lemma_be_value_of_bytes(n);
    assert(bytes.take(8) =~= be_bytes(n));
    assert(be_value(bytes) == be_value(be_bytes(n)));
    assert(bytes.subrange(8, 8 + payload.len() as int) =~= payload);
}

} // verus!
