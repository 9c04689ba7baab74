//! Relocatable code pointers.
//!
//! A code address is stored on the wire as its signed offset from a fixed
//! image-wide anchor, computed with wrapping arithmetic so that negative
//! offsets round-trip through an unsigned machine word. Both processes
//! resolve the anchor locally (it must be one singleton symbol of the
//! executable image) and add the offset back. This survives address-space
//! randomization as long as the two processes share one executable image.
//!
//! The anchor's address and the cast between a function pointer and a
//! machine word are supplied by the embedding program; this module holds
//! the arithmetic, which is exact.

use vstd::prelude::*;

verus! {

/// The wire form of the address `addr` relative to `anchor`.
pub open spec fn spec_encode_offset(addr: usize, anchor: usize) -> usize {
    vstd::wrapping::usize_specs::wrapping_sub(addr, anchor)
}

/// The address recovered from the wire form `offset` relative to `anchor`.
pub open spec fn spec_decode_offset(offset: usize, anchor: usize) -> usize {
    vstd::wrapping::usize_specs::wrapping_add(offset, anchor)
}

/// Turn a code address into its relocatable wire offset.
pub fn encode_code_addr(addr: usize, anchor: usize) -> (offset: usize)
    ensures
        offset == spec_encode_offset(addr, anchor),
{
    addr.wrapping_sub(anchor)
}

/// Turn a wire offset back into a code address.
pub fn decode_code_addr(offset: usize, anchor: usize) -> (addr: usize)
    ensures
        addr == spec_decode_offset(offset, anchor),
{
    offset.wrapping_add(anchor)
}

/// Relocation identity: decoding an encoded address against the same
/// anchor yields the address unchanged, for every address and every
/// anchor. Across processes this is identity of the code pointed to,
/// provided both anchors name the same singleton symbol of one image.
pub proof fn lemma_relocation_identity(addr: usize, anchor: usize)
    ensures
        spec_decode_offset(spec_encode_offset(addr, anchor), anchor) == addr,
{
}

} // verus!
