//! The wire frame: one length-prefixed byte payload.
//!
//! A frame is `[ len: u64 little-endian | payload bytes[len] ]`; the
//! handles that accompany the payload travel out-of-band and are not part
//! of the byte stream. End-of-stream exactly at a frame boundary is the
//! "peer closed" signal; end-of-stream anywhere inside a frame is an
//! error.

use vstd::bytes::*;
use vstd::prelude::*;

verus! {

/// Payload lengths are carried as a `u64`; a frame this long can never
/// arise on a machine whose `usize` is at most 64 bits wide.
pub open spec fn frame_len_ok(payload: Seq<u8>) -> bool {
    payload.len() <= u64::MAX
}

/// The byte image of a frame carrying `payload`.
pub open spec fn spec_frame(payload: Seq<u8>) -> Seq<u8> {
    spec_u64_to_le_bytes(payload.len() as u64) + payload
}

/// What a reader can make of the bytes gathered so far.
pub enum FrameStep {
    /// The bytes gathered so far are a proper prefix of a frame: nothing
    /// of the frame is visible yet, and more bytes are needed.
    Incomplete,
    /// A whole frame has arrived: its payload, and the bytes that follow
    /// it on the stream.
    Ready { payload: Seq<u8>, rest: Seq<u8> },
}

/// Parse the front of a byte stream as a frame. The payload becomes
/// visible only once every one of its bytes has arrived.
pub open spec fn spec_parse_frame(raw: Seq<u8>) -> FrameStep {
    if raw.len() < 8 {
        FrameStep::Incomplete
    } else {
        let n = spec_u64_from_le_bytes(raw.take(8)) as int;
        if raw.len() - 8 < n {
            FrameStep::Incomplete
        } else {
            FrameStep::Ready { payload: raw.subrange(8, 8 + n), rest: raw.skip(8 + n) }
        }
    }
}

/// Frame atomicity, completeness: once exactly the bytes of a frame (and
/// possibly more) have arrived, the reader sees the entire payload, and
/// the following bytes are untouched.
pub proof fn lemma_frame_complete(payload: Seq<u8>, rest: Seq<u8>)
    requires
        frame_len_ok(payload),
    ensures
        spec_parse_frame(spec_frame(payload) + rest) == (FrameStep::Ready {
            payload,
            rest,
        }),
{
    lemma_auto_spec_u64_to_from_le_bytes();
    let raw = spec_frame(payload) + rest;
    assert(raw.take(8) =~= spec_u64_to_le_bytes(payload.len() as u64));
    assert(raw.subrange(8, 8 + payload.len() as int) =~= payload);
    assert(raw.skip(8 + payload.len() as int) =~= rest);
}

/// Frame atomicity, exclusion: while even one byte of the frame is still
/// missing, nothing of the payload is visible.
pub proof fn lemma_frame_partial(payload: Seq<u8>, k: int)
    requires
        frame_len_ok(payload),
        0 <= k < 8 + payload.len(),
    ensures
        spec_parse_frame(spec_frame(payload).take(k)) == FrameStep::Incomplete,
{
    lemma_auto_spec_u64_to_from_le_bytes();
    let raw = spec_frame(payload).take(k);
    if k >= 8 {
        assert(raw.take(8) =~= spec_u64_to_le_bytes(payload.len() as u64));
    }
}

/// Build the byte image of a frame.
pub fn make_frame(payload: &Vec<u8>) -> (raw: Vec<u8>)
    ensures
        raw@ == spec_frame(payload@),
        raw@.len() == 8 + payload@.len(),
{
    proof {
        lemma_auto_spec_u64_to_from_le_bytes();
    }
    let mut raw = u64_to_le_bytes(payload.len() as u64);
    let mut i: usize = 0;
    while i < payload.len()
        invariant
            i <= payload@.len(),
            raw@ == spec_u64_to_le_bytes(payload@.len() as u64) + payload@.take(i as int),
        decreases payload@.len() - i,
    {
        raw.push(payload[i]);
        i = i + 1;
        proof {
            assert(raw@ =~= spec_u64_to_le_bytes(payload@.len() as u64) + payload@.take(i as int));
        }
    }
    proof {
        assert(payload@.take(payload@.len() as int) =~= payload@);
    }
    raw
}

/// Read a frame's length prefix.
pub fn parse_frame_len(prefix: &Vec<u8>) -> (n: u64)
    requires
        prefix@.len() == 8,
    ensures
        n == spec_u64_from_le_bytes(prefix@),
{
    u64_from_le_bytes(prefix.as_slice())
}

} // verus!
