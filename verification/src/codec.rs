//! The input-frame codec: a `PongInputState` is one tick's worth of input
//! from one player, and it travels between peers as exactly 8 bytes with no
//! padding and no framing envelope: the frame number as a little-endian
//! unsigned 32-bit integer, then the analog input as an IEEE-754 binary32
//! value, also little-endian. The analog payload is held here as its raw bit
//! pattern, so encoding and decoding are bit-identical round trips.

use vstd::prelude::*;
use vstd::bytes::*;

verus! {

/// The number of bytes of one encoded input frame on the wire.
pub const INPUT_STATE_BYTES: usize = 8;

/// One player's input for one simulation frame.
///
/// `input` is the raw IEEE-754 binary32 bit pattern of the analog axis value
/// in `[-1, 1]`; the simulation reads it through `num::axis_q16`.
#[derive(Clone, Copy, PartialEq, Eq, Structural, Debug)]
pub struct PongInputState {
    pub frame: u32,
    pub input: u32,
}

/// The exact 8-byte wire image of an input frame.
pub open spec fn spec_encode(s: PongInputState) -> Seq<u8> {
    spec_u32_to_le_bytes(s.frame) + spec_u32_to_le_bytes(s.input)
}

/// The input frame that an 8-byte wire image denotes.
pub open spec fn spec_decode(b: Seq<u8>) -> PongInputState
    recommends
        b.len() == 8,
{
    PongInputState {
        frame: spec_u32_from_le_bytes(b.subrange(0, 4)),
        input: spec_u32_from_le_bytes(b.subrange(4, 8)),
    }
}

impl PongInputState {
    /// The zero input frame: frame 0, analog value +0.0 (all bits clear).
    pub fn new() -> (r: Self)
        ensures
            r == (PongInputState { frame: 0u32, input: 0u32 }),
    {
        PongInputState { frame: 0, input: 0 }
    }

    /// An input frame for frame 0 carrying the given analog bit pattern.
    pub fn from_input(input: u32) -> (r: Self)
        ensures
            r == (PongInputState { frame: 0u32, input: input }),
    {
        PongInputState { frame: 0, input: input }
    }

    /// Encode this frame as its 8-byte wire image.
    pub fn into_u8(self) -> (r: Vec<u8>)
        ensures
            r@ == spec_encode(self),
            r@.len() == 8,
    {
        proof {
            lemma_auto_spec_u32_to_from_le_bytes();
        }
        let mut r = u32_to_le_bytes(self.frame);
        let mut tail = u32_to_le_bytes(self.input);
        r.append(&mut tail);
        r
    }

    /// Decode an 8-byte wire image back into an input frame.
    pub fn from_u8(b: &[u8]) -> (r: Self)
        requires
            b@.len() == 8,
        ensures
            r == spec_decode(b@),
    {
        let frame = u32_from_le_bytes(vstd::slice::slice_subrange(b, 0, 4));
        let input = u32_from_le_bytes(vstd::slice::slice_subrange(b, 4, 8));
        PongInputState { frame, input }
    }
}

/// Codec round trip: every input frame survives encoding bit-for-bit, the
/// encoding is exactly 8 bytes, and every 8-byte image survives decoding.
pub proof fn lemma_codec_round_trip(s: PongInputState, b: Seq<u8>)
    requires
        b.len() == 8,
    ensures
        spec_encode(s).len() == 8,
        spec_decode(spec_encode(s)) == s,
        spec_encode(spec_decode(b)) == b,
{
    lemma_auto_spec_u32_to_from_le_bytes();
    assert(spec_encode(s).subrange(0, 4) =~= spec_u32_to_le_bytes(s.frame));
    assert(spec_encode(s).subrange(4, 8) =~= spec_u32_to_le_bytes(s.input));
    assert(spec_encode(spec_decode(b)) =~= b);
}

} // verus!
