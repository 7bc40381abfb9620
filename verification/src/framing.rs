use vstd::prelude::*;

use crate::channel::ChannelRegistry;
use crate::errors::FrameError;

verus! {

/// The little-endian bytes of a 32-bit word, least significant first.
pub open spec fn u32_le_bytes(n: u32) -> Seq<u8> {
    seq![
        (n & 0xff) as u8,
        ((n >> 8) & 0xff) as u8,
        ((n >> 16) & 0xff) as u8,
        ((n >> 24) & 0xff) as u8,
    ]
}

/// The 32-bit word whose little-endian bytes are `b0`, `b1`, `b2`, `b3`.
pub open spec fn u32_from_le_bytes(b0: u8, b1: u8, b2: u8, b3: u8) -> u32 {
    (b0 as u32) | ((b1 as u32) << 8) | ((b2 as u32) << 16) | ((b3 as u32) << 24)
}

/// Reassembling the little-endian bytes of a word yields the word.
pub proof fn lemma_u32_le_round_trip(n: u32)
    ensures
        u32_from_le_bytes(
            (n & 0xff) as u8,
            ((n >> 8) & 0xff) as u8,
            ((n >> 16) & 0xff) as u8,
            ((n >> 24) & 0xff) as u8,
        ) == n,
{
    assert((((n & 0xff) as u8) as u32) | (((((n >> 8) & 0xff) as u8) as u32) << 8) | (((((n >> 16)
        & 0xff) as u8) as u32) << 16) | (((((n >> 24) & 0xff) as u8) as u32) << 24) == n)
        by (bit_vector);
}

/// The wire envelope for one message: the channel id, then the payload
/// length, both as little-endian 32-bit words, then the payload bytes.
pub open spec fn spec_encode(channel_id: u32, payload: Seq<u8>) -> Seq<u8> {
    u32_le_bytes(channel_id) + u32_le_bytes(payload.len() as u32) + payload
}

/// The (channel id, payload) pair an envelope carries, or `None` when the
/// envelope is truncated or its declared length disagrees with its size.
pub open spec fn spec_decode(bytes: Seq<u8>) -> Option<(u32, Seq<u8>)> {
    if bytes.len() < 8 {
        None
    } else {
        let c = u32_from_le_bytes(bytes[0], bytes[1], bytes[2], bytes[3]);
        let n = u32_from_le_bytes(bytes[4], bytes[5], bytes[6], bytes[7]);
        if bytes.len() - 8 == n as int {
            Some((c, bytes.skip(8)))
        } else {
            None
        }
    }
}

/// Law: decoding an encoded envelope yields the channel id and payload
/// that were encoded, for every payload the wire format can carry.
pub proof fn lemma_frame_round_trip(channel_id: u32, payload: Seq<u8>)
    requires
        payload.len() <= u32::MAX,
    ensures
        spec_decode(spec_encode(channel_id, payload)) == Some((channel_id, payload)),
{
    let w = spec_encode(channel_id, payload);
    let n = payload.len() as u32;
    lemma_u32_le_round_trip(channel_id);
    lemma_u32_le_round_trip(n);
    assert(w.len() == 8 + payload.len());
    assert(u32_from_le_bytes(w[0], w[1], w[2], w[3]) == channel_id);
    assert(u32_from_le_bytes(w[4], w[5], w[6], w[7]) == n);
    assert(w.skip(8) =~= payload);
}

/// Append the little-endian bytes of `n` to `w`.
fn push_u32_le(w: &mut Vec<u8>, n: u32)
    ensures
        final(w)@ == old(w)@ + u32_le_bytes(n),
{
    proof {
        assert(n & 0xff < 256 && (n >> 8) & 0xff < 256 && (n >> 16) & 0xff < 256 && (n >> 24)
            & 0xff < 256) by (bit_vector);
    }
    w.push((n & 0xff) as u8);
    w.push(((n >> 8) & 0xff) as u8);
    w.push(((n >> 16) & 0xff) as u8);
    w.push(((n >> 24) & 0xff) as u8);
    proof {
        assert(w@ =~= old(w)@ + u32_le_bytes(n));
    }
}

/// Read the little-endian 32-bit word at position `off`.
fn read_u32_le(bytes: &Vec<u8>, off: usize) -> (r: u32)
    requires
        off + 4 <= bytes@.len(),
        bytes@.len() <= usize::MAX,
    ensures
        r == u32_from_le_bytes(
            bytes@[off as int],
            bytes@[off as int + 1],
            bytes@[off as int + 2],
            bytes@[off as int + 3],
        ),
{
    (bytes[off] as u32) | ((bytes[off + 1] as u32) << 8) | ((bytes[off + 2] as u32) << 16) | ((
    bytes[off + 3] as u32) << 24)
}

/// Encode `payload` for transmission on channel `channel_id`, whose
/// configured maximum payload size is `max_len`. Payloads over `max_len`,
/// or too long for the wire format's length word, are rejected with
/// `PayloadTooLarge` before any transmission attempt.
pub fn encode_frame(channel_id: u32, payload: &Vec<u8>, max_len: usize) -> (r: Result<
    Vec<u8>,
    FrameError,
>)
    ensures
        payload@.len() <= max_len && payload@.len() <= u32::MAX ==> (r matches Ok(w) && w@
            == spec_encode(channel_id, payload@)),
        payload@.len() > max_len || payload@.len() > u32::MAX ==> r == Err::<Vec<u8>, FrameError>(
            FrameError::PayloadTooLarge,
        ),
{
    if payload.len() > max_len {
        return Err(FrameError::PayloadTooLarge);
    }
    if payload.len() > u32::MAX as usize {
        return Err(FrameError::PayloadTooLarge);
    }
    let mut w: Vec<u8> = Vec::new();
    push_u32_le(&mut w, channel_id);
    push_u32_le(&mut w, payload.len() as u32);
    w.extend_from_slice(payload.as_slice());
    proof {
        assert(w@ =~= spec_encode(channel_id, payload@));
    }
    Ok(w)
}

/// Decode a wire envelope and look its channel up in `registry`. A
/// truncated or length-inconsistent envelope is `MalformedFrame`; a
/// well-formed envelope for an unregistered channel is `UnknownChannel`.
pub fn decode_frame(bytes: &Vec<u8>, registry: &ChannelRegistry) -> (r: Result<
    (u32, Vec<u8>),
    FrameError,
>)
    ensures
        match spec_decode(bytes@) {
            Option::None => r == Err::<(u32, Vec<u8>), FrameError>(FrameError::MalformedFrame),
            Option::Some(cp) => if registry.is_registered(cp.0) {
                r matches Ok(p) && p.0 == cp.0 && p.1@ == cp.1
            } else {
                r == Err::<(u32, Vec<u8>), FrameError>(FrameError::UnknownChannel)
            },
        },
{
    if bytes.len() < 8 {
        return Err(FrameError::MalformedFrame);
    }
    let c = read_u32_le(bytes, 0);
    let n = read_u32_le(bytes, 4);
    if bytes.len() - 8 != n as usize {
        return Err(FrameError::MalformedFrame);
    }
    if registry.find_index(c).is_none() {
        return Err(FrameError::UnknownChannel);
    }
    let total = bytes.len();
    let mut payload: Vec<u8> = Vec::new();
    let mut i: usize = 8;
    while i < total
        invariant
            8 <= i <= total,
            total == bytes@.len(),
            payload@ == bytes@.subrange(8, i as int),
        decreases total - i,
    {
        payload.push(bytes[i]);
        proof {
            assert(payload@ =~= bytes@.subrange(8, i as int + 1));
        }
        i += 1;
    }
    proof {
        assert(payload@ =~= bytes@.skip(8));
    }
    Ok((c, payload))
}

} // verus!
