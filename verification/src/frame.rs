//! The wire format: an 8-byte little-endian length followed by that many
//! payload bytes.

use vstd::prelude::*;
use vstd::slice::{slice_subrange, slice_to_vec};
use crate::error::TransportError;

verus! {

/// The longest payload a frame may declare, in bytes (16 MiB).
pub const MAX_PACKET_SIZE: usize = 16777216;

/// The number that a little-endian byte string denotes: the first byte is the
/// least significant.
pub open spec fn le_value(bytes: Seq<u8>) -> nat
    decreases bytes.len(),
{
    if bytes.len() == 0 {
        0
    } else {
        bytes[0] as nat + 256 * le_value(bytes.drop_first())
    }
}

/// The `width` least significant bytes of `value`, least significant first.
pub open spec fn le_bytes(value: nat, width: nat) -> Seq<u8>
    decreases width,
{
    if width == 0 {
        Seq::empty()
    } else {
        seq![(value % 256) as u8] + le_bytes(value / 256, (width - 1) as nat)
    }
}

/// The number of values that `width` bytes can tell apart: 256 to the `width`.
pub open spec fn radix(width: nat) -> nat
    decreases width,
{
    if width == 0 {
        1
    } else {
        256 * radix((width - 1) as nat)
    }
}

/// The frame that carries `payload`: its length in 8 little-endian bytes, then
/// the payload itself.
pub open spec fn frame_of(payload: Seq<u8>) -> Seq<u8> {
    le_bytes(payload.len(), 8) + payload
}

/// The length that the first 8 bytes of `bytes` declare.
pub open spec fn declared_length(bytes: Seq<u8>) -> nat
    recommends
        bytes.len() >= 8,
{
    le_value(bytes.subrange(0, 8))
}

/// What reading one frame from the front of `bytes` gives: the payload and the
/// number of bytes that the frame took, or the reason why there is none.
///
/// A declared length above the maximum is refused on the prefix alone,
/// whatever follows it and however much of it is there.
pub open spec fn parse_frame(bytes: Seq<u8>) -> Result<(Seq<u8>, nat), TransportError> {
    if bytes.len() < 8 {
        Err(TransportError::UnexpectedEof)
    } else if declared_length(bytes) > MAX_PACKET_SIZE {
        Err(TransportError::Oversized)
    } else if bytes.len() < 8 + declared_length(bytes) {
        Err(TransportError::UnexpectedEof)
    } else {
        Ok((bytes.subrange(8, 8 + declared_length(bytes) as int), 8 + declared_length(bytes)))
    }
}

/// `le_bytes` gives exactly `width` bytes.
pub proof fn lemma_le_bytes_len(value: nat, width: nat)
    ensures
        le_bytes(value, width).len() == width,
    decreases width,
{
    if width > 0 {
        lemma_le_bytes_len(value / 256, (width - 1) as nat);
    }
}

/// A value that fits in `width` bytes is read back from its little-endian
/// bytes unchanged.
pub proof fn lemma_le_value_of_bytes(value: nat, width: nat)
    requires
        value < radix(width),
    ensures
        le_value(le_bytes(value, width)) == value,
    decreases width,
{
    if width > 0 {
        let rest = le_bytes(value / 256, (width - 1) as nat);
        let all = le_bytes(value, width);
        assert(value / 256 < radix((width - 1) as nat)) by (nonlinear_arith)
            requires
                value < 256 * radix((width - 1) as nat),
        ;
        lemma_le_value_of_bytes(value / 256, (width - 1) as nat);
        lemma_le_bytes_len(value / 256, (width - 1) as nat);
        assert(all.drop_first() =~= rest);
        assert(all[0] == (value % 256) as u8);
    } else {
        assert(le_bytes(value, width).len() == 0);
    }
}

/// A byte string is the little-endian form of the number it denotes, and that
/// number fits in as many bytes.
pub proof fn lemma_le_bytes_of_value(bytes: Seq<u8>)
    ensures
        le_value(bytes) < radix(bytes.len()),
        le_bytes(le_value(bytes), bytes.len()) == bytes,
    decreases bytes.len(),
{
    if bytes.len() > 0 {
        let tail = bytes.drop_first();
        lemma_le_bytes_of_value(tail);
        let v = le_value(bytes);
        let t = le_value(tail);
        assert(v == bytes[0] as nat + 256 * t);
        assert(v % 256 == bytes[0] as nat && v / 256 == t) by (nonlinear_arith)
            requires
                v == bytes[0] as nat + 256 * t,
                (bytes[0] as nat) < 256,
        ;
        assert(v < 256 * radix(tail.len())) by (nonlinear_arith)
            requires
                v == bytes[0] as nat + 256 * t,
                (bytes[0] as nat) < 256,
                t < radix(tail.len()),
        ;
        assert(le_bytes(v, bytes.len()) =~= bytes);
    } else {
        assert(le_bytes(le_value(bytes), bytes.len()) =~= bytes);
    }
}

/// Eight bytes tell apart exactly the values of a `u64`.
pub proof fn lemma_radix_8()
    ensures
        radix(8) == 0x1_0000_0000_0000_0000,
{
    reveal_with_fuel(radix, 9);
}

/// Decoding the frame that encodes a payload gives the payload back, and takes
/// exactly the frame's bytes, whatever follows the frame on the stream.
pub proof fn lemma_frame_round_trip(payload: Seq<u8>, following: Seq<u8>)
    requires
        payload.len() <= MAX_PACKET_SIZE,
    ensures
        parse_frame(frame_of(payload) + following) == Ok::<(Seq<u8>, nat), TransportError>(
            (payload, 8 + payload.len()),
        ),
{
    let n = payload.len();
    let bytes = frame_of(payload) + following;
    lemma_le_bytes_len(n, 8);
    lemma_radix_8();
    lemma_le_value_of_bytes(n, 8);
    assert(bytes.subrange(0, 8) =~= le_bytes(n, 8));
    assert(bytes.subrange(8, 8 + n as int) =~= payload);
}

/// A frame whose prefix declares more than the maximum is refused as oversized
/// for every content and every amount of bytes after the prefix.
pub proof fn lemma_oversized_rejected(prefix: Seq<u8>, body: Seq<u8>)
    requires
        prefix.len() == 8,
        le_value(prefix) > MAX_PACKET_SIZE,
    ensures
        parse_frame(prefix + body) == Err::<(Seq<u8>, nat), TransportError>(
            TransportError::Oversized,
        ),
{
    assert((prefix + body).subrange(0, 8) =~= prefix);
}

/// The 8-byte little-endian prefix that announces a payload of `len` bytes.
pub fn length_prefix(len: u64) -> (prefix: [u8; 8])
    ensures
        prefix@ == le_bytes(len as nat, 8),
        le_value(prefix@) == len,
{
    let b0: u8 = (len % 256) as u8;
    let r1: u64 = len / 256;
    let b1: u8 = (r1 % 256) as u8;
    let r2: u64 = r1 / 256;
    let b2: u8 = (r2 % 256) as u8;
    let r3: u64 = r2 / 256;
    let b3: u8 = (r3 % 256) as u8;
    let r4: u64 = r3 / 256;
    let b4: u8 = (r4 % 256) as u8;
    let r5: u64 = r4 / 256;
    let b5: u8 = (r5 % 256) as u8;
    let r6: u64 = r5 / 256;
    let b6: u8 = (r6 % 256) as u8;
    let r7: u64 = r6 / 256;
    let b7: u8 = (r7 % 256) as u8;
    let prefix: [u8; 8] = [b0, b1, b2, b3, b4, b5, b6, b7];
    proof {
        reveal_with_fuel(le_bytes, 9);
        assert(prefix@ =~= le_bytes(len as nat, 8));
        lemma_radix_8();
        lemma_le_value_of_bytes(len as nat, 8);
    }
    prefix
}

/// Reads the length that a frame's prefix declares and refuses it when it
/// exceeds the maximum. Nothing but the prefix is looked at, so an oversized
/// frame is refused before any of its payload is read.
pub fn decode_length(prefix: &[u8; 8]) -> (result: Result<usize, TransportError>)
    ensures
        le_value(prefix@) <= MAX_PACKET_SIZE ==> result == Ok::<usize, TransportError>(
            le_value(prefix@) as usize,
        ),
        le_value(prefix@) > MAX_PACKET_SIZE ==> result == Err::<usize, TransportError>(
            TransportError::Oversized,
        ),
{
    let v7: u64 = prefix[7] as u64;
    let v6: u64 = prefix[6] as u64 + 256 * v7;
    let v5: u64 = prefix[5] as u64 + 256 * v6;
    let v4: u64 = prefix[4] as u64 + 256 * v5;
    let v3: u64 = prefix[3] as u64 + 256 * v4;
    let v2: u64 = prefix[2] as u64 + 256 * v3;
    let v1: u64 = prefix[1] as u64 + 256 * v2;
    let v0: u64 = prefix[0] as u64 + 256 * v1;
    proof {
        lemma_le_value_unfold_8(prefix@);
    }
    if v0 > MAX_PACKET_SIZE as u64 {
        Err(TransportError::Oversized)
    } else {
        Ok(v0 as usize)
    }
}

/// The value of 8 little-endian bytes, written out byte by byte.
pub proof fn lemma_le_value_unfold_8(s: Seq<u8>)
    requires
        s.len() == 8,
    ensures
        le_value(s) == s[0] as nat + 256 * (s[1] as nat + 256 * (s[2] as nat + 256 * (s[3] as nat
            + 256 * (s[4] as nat + 256 * (s[5] as nat + 256 * (s[6] as nat + 256 * (
        s[7] as nat))))))),
{
    let s1 = s.drop_first();
    let s2 = s1.drop_first();
    let s3 = s2.drop_first();
    let s4 = s3.drop_first();
    let s5 = s4.drop_first();
    let s6 = s5.drop_first();
    let s7 = s6.drop_first();
    let s8 = s7.drop_first();
    assert(le_value(s8) == 0);
    assert(le_value(s7) == s[7] as nat + 256 * le_value(s8));
    assert(le_value(s6) == s[6] as nat + 256 * le_value(s7));
    assert(le_value(s5) == s[5] as nat + 256 * le_value(s6));
    assert(le_value(s4) == s[4] as nat + 256 * le_value(s5));
    assert(le_value(s3) == s[3] as nat + 256 * le_value(s4));
    assert(le_value(s2) == s[2] as nat + 256 * le_value(s3));
    assert(le_value(s1) == s[1] as nat + 256 * le_value(s2));
    assert(le_value(s) == s[0] as nat + 256 * le_value(s1));
}

/// Whether `result` is what `parse_frame` says of `bytes`.
pub open spec fn is_parse_of(result: Result<(Vec<u8>, usize), TransportError>, bytes: Seq<u8>) -> bool {
    match (result, parse_frame(bytes)) {
        (Ok((payload, taken)), Ok((spec_payload, spec_taken))) => payload@ == spec_payload
            && taken == spec_taken,
        (Err(error), Err(spec_error)) => error == spec_error,
        _ => false,
    }
}

/// Builds the frame that carries `payload`: the length prefix, then the
/// payload. The length is not held against the maximum here: a receiver
/// refuses a frame that is too long.
pub fn encode_frame(payload: &[u8]) -> (frame: Vec<u8>)
    ensures
        frame@ == frame_of(payload@),
{
    let prefix = length_prefix(payload.len() as u64);
    let mut frame: Vec<u8> = Vec::new();
    let mut i: usize = 0;
    while i < 8
        invariant
            i <= 8,
            frame@ == prefix@.subrange(0, i as int),
        decreases 8 - i,
    {
        frame.push(prefix[i]);
        i = i + 1;
        assert(frame@ =~= prefix@.subrange(0, i as int));
    }
    assert(frame@ =~= prefix@);
    let mut j: usize = 0;
    while j < payload.len()
        invariant
            j <= payload@.len(),
            frame@ == prefix@ + payload@.subrange(0, j as int),
        decreases payload@.len() - j,
    {
        frame.push(payload[j]);
        j = j + 1;
        assert(frame@ =~= prefix@ + payload@.subrange(0, j as int));
    }
    assert(payload@.subrange(0, j as int) =~= payload@);
    frame
}

/// The frame to write for a message, given the outcome of encoding it: the
/// frame around the payload, or an encoding failure when there is no payload.
pub fn frame_encoded(encoded: Option<Vec<u8>>) -> (result: Result<Vec<u8>, TransportError>)
    ensures
        match encoded {
            Some(payload) => result is Ok && result->Ok_0@ == frame_of(payload@),
            None => result == Err::<Vec<u8>, TransportError>(TransportError::Encoding),
        },
{
    match encoded {
        Some(payload) => Ok(encode_frame(payload.as_slice())),
        None => Err(TransportError::Encoding),
    }
}

/// Reads one frame from the front of `bytes`: gives its payload and the number
/// of bytes the frame took, so that the next frame starts there.
///
/// Fails with `UnexpectedEof` when `bytes` ends before the prefix or the
/// declared payload is complete, and with `Oversized` when the prefix declares
/// more than the maximum, in which case nothing after the prefix is looked at.
pub fn decode_frame(bytes: &[u8]) -> (result: Result<(Vec<u8>, usize), TransportError>)
    ensures
        is_parse_of(result, bytes@),
{
    if bytes.len() < 8 {
        return Err(TransportError::UnexpectedEof);
    }
    let prefix: [u8; 8] = [
        bytes[0],
        bytes[1],
        bytes[2],
        bytes[3],
        bytes[4],
        bytes[5],
        bytes[6],
        bytes[7],
    ];
    assert(prefix@ =~= bytes@.subrange(0, 8));
    match decode_length(&prefix) {
        Err(error) => Err(error),
        Ok(len) => {
            if bytes.len() - 8 < len {
                Err(TransportError::UnexpectedEof)
            } else {
                let payload = slice_to_vec(slice_subrange(bytes, 8, 8 + len));
                Ok((payload, 8 + len))
            }
        },
    }
}

} // verus!
