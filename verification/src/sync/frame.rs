//! Length-prefixed framing of sync messages: a frame is the payload length
//! as a big-endian `u32`, then the payload. Payloads above `MAX_FRAME_SIZE`
//! are refused on both sides.

use vstd::prelude::*;
use crate::sync::protocol::{IoErrorKind, SyncError, MAX_FRAME_SIZE};

verus! {

/// The four big-endian bytes of `n`.
pub open spec fn be_bytes(n: u32) -> Seq<u8> {
    seq![(n >> 24u32) as u8, ((n >> 16u32) & 0xffu32) as u8, ((n >> 8u32) & 0xffu32) as u8, (n & 0xffu32) as u8]
}

/// The `u32` whose big-endian bytes are `b0 b1 b2 b3`.
pub open spec fn be_value(b0: u8, b1: u8, b2: u8, b3: u8) -> u32 {
    ((b0 as u32) << 24u32) | ((b1 as u32) << 16u32) | ((b2 as u32) << 8u32) | (b3 as u32)
}

/// The frame that carries `payload`, or the error when it is too large.
pub open spec fn spec_encode_frame(payload: Seq<u8>) -> Result<Seq<u8>, SyncError> {
    if payload.len() > MAX_FRAME_SIZE {
        Err(SyncError::Io(IoErrorKind::InvalidInput))
    } else {
        Ok(be_bytes(payload.len() as u32) + payload)
    }
}

/// The payload of the frame at the front of `bytes` and the number of bytes
/// the frame takes, or why no frame can be read there.
pub open spec fn spec_decode_frame(bytes: Seq<u8>) -> Result<(Seq<u8>, nat), SyncError> {
    if bytes.len() < 4 {
        Err(SyncError::Io(IoErrorKind::UnexpectedEof))
    } else {
        let len = be_value(bytes[0], bytes[1], bytes[2], bytes[3]) as nat;
        if len > MAX_FRAME_SIZE {
            Err(SyncError::Io(IoErrorKind::InvalidData))
        } else if bytes.len() < 4 + len {
            Err(SyncError::Io(IoErrorKind::UnexpectedEof))
        } else {
            Ok((bytes.subrange(4, 4 + len as int), 4 + len))
        }
    }
}

proof fn lemma_be_roundtrip(n: u32)
    ensures
        be_value((n >> 24u32) as u8, ((n >> 16u32) & 0xffu32) as u8, ((n >> 8u32) & 0xffu32) as u8, (n & 0xffu32) as u8) == n,
{
    assert(((((n >> 24u32) as u8) as u32) << 24u32) | (((((n >> 16u32) & 0xffu32) as u8) as u32) << 16u32)
        | (((((n >> 8u32) & 0xffu32) as u8) as u32) << 8u32) | (((n & 0xffu32) as u8) as u32) == n) by (bit_vector);
}

/// Framing law: a frame read back from the front of any byte stream that
/// starts with an encoded frame yields the same payload and consumes
/// exactly that frame, whatever follows it.
pub proof fn lemma_frame_roundtrip(payload: Seq<u8>, rest: Seq<u8>)
    requires
        payload.len() <= MAX_FRAME_SIZE,
    ensures
        spec_encode_frame(payload) is Ok,
        spec_decode_frame(spec_encode_frame(payload)->Ok_0 + rest) == Ok::<(Seq<u8>, nat), SyncError>((payload, 4 + payload.len())),
{
    let f = spec_encode_frame(payload)->Ok_0;
    let bytes = f + rest;
    let n = payload.len() as u32;
    lemma_be_roundtrip(n);
    assert(bytes[0] == be_bytes(n)[0]);
    assert(bytes[1] == be_bytes(n)[1]);
    assert(bytes[2] == be_bytes(n)[2]);
    assert(bytes[3] == be_bytes(n)[3]);
    assert(bytes.subrange(4, 4 + payload.len() as int) =~= payload);
}

/// Builds the frame that carries `payload`.
pub fn encode_frame(payload: &[u8]) -> (r: Result<Vec<u8>, SyncError>)
    ensures
        match r {
            Ok(f) => Ok::<Seq<u8>, SyncError>(f@) == spec_encode_frame(payload@),
            Err(e) => Err::<Seq<u8>, SyncError>(e) == spec_encode_frame(payload@),
        },
{
    if payload.len() > MAX_FRAME_SIZE {
        return Err(SyncError::Io(IoErrorKind::InvalidInput));
    }
    let n = payload.len() as u32;
    let mut out: Vec<u8> = Vec::with_capacity(payload.len() + 4);
    out.push((n >> 24u32) as u8);
    out.push(((n >> 16u32) & 0xffu32) as u8);
    out.push(((n >> 8u32) & 0xffu32) as u8);
    out.push((n & 0xffu32) as u8);
    let mut i: usize = 0;
    while i < payload.len()
        invariant
            i <= payload.len(),
            n == payload@.len(),
            out@ =~= be_bytes(n) + payload@.take(i as int),
        decreases payload.len() - i,
    {
        out.push(payload[i]);
        i = i + 1;
    }
    assert(payload@.take(payload.len() as int) =~= payload@);
    Ok(out)
}

/// The payload length announced by a frame header.
pub fn frame_length(header: [u8; 4]) -> (r: Result<usize, SyncError>)
    ensures
        match r {
            Ok(len) => len == be_value(header[0], header[1], header[2], header[3]) && len <= MAX_FRAME_SIZE,
            Err(e) => e == SyncError::Io(IoErrorKind::InvalidData)
                && be_value(header[0], header[1], header[2], header[3]) > MAX_FRAME_SIZE,
        },
{
    let len: u32 = ((header[0] as u32) << 24u32) | ((header[1] as u32) << 16u32) | ((header[2] as u32) << 8u32)
        | (header[3] as u32);
    if len as usize > MAX_FRAME_SIZE {
        Err(SyncError::Io(IoErrorKind::InvalidData))
    } else {
        Ok(len as usize)
    }
}

/// Reads the frame at the front of `bytes`: its payload and the number of
/// bytes it takes.
pub fn decode_frame(bytes: &[u8]) -> (r: Result<(Vec<u8>, usize), SyncError>)
    ensures
        match r {
            Ok((p, used)) => spec_decode_frame(bytes@) == Ok::<(Seq<u8>, nat), SyncError>((p@, used as nat)),
            Err(e) => spec_decode_frame(bytes@) == Err::<(Seq<u8>, nat), SyncError>(e),
        },
{
    if bytes.len() < 4 {
        return Err(SyncError::Io(IoErrorKind::UnexpectedEof));
    }
    let header: [u8; 4] = [bytes[0], bytes[1], bytes[2], bytes[3]];
    let len = match frame_length(header) {
        Ok(len) => len,
        Err(e) => return Err(e),
    };
    if bytes.len() - 4 < len {
        return Err(SyncError::Io(IoErrorKind::UnexpectedEof));
    }
    let mut payload: Vec<u8> = Vec::with_capacity(len);
    let mut i: usize = 0;
    while i < len
        invariant
            i <= len,
            4 + len <= bytes.len(),
            payload@ =~= bytes@.subrange(4, 4 + i),
        decreases len - i,
    {
        payload.push(bytes[4 + i]);
        i = i + 1;
    }
    Ok((payload, len + 4))
}

} // verus!
