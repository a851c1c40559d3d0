//! Received voice frames.

use vstd::prelude::*;

verus! {

/// Represents the bit vectors u<sub>0</sub>, ..., u<sub>7</sub>, in that order.
pub type Chunks = [u32; 8];

/// Represents the number of detected Hamming/Golay bit errors,
/// ϵ<sub>0</sub>, ..., ϵ<sub>6</sub>, corresponding to the chunks
/// u<sub>0</sub>, ..., u<sub>6</sub>.
pub type Errors = [usize; 7];

/// The chunk widths are respected: the first four chunks hold at most 12 bits,
/// the next three at most 11 bits, and the final chunk at most 7 bits.
pub open spec fn chunks_valid(chunks: Chunks) -> bool {
    &&& chunks[0] < 4096
    &&& chunks[1] < 4096
    &&& chunks[2] < 4096
    &&& chunks[3] < 4096
    &&& chunks[4] < 2048
    &&& chunks[5] < 2048
    &&& chunks[6] < 2048
    &&& chunks[7] < 128
}

/// Check the chunk widths at run time, for callers that receive chunks from an
/// unvalidated source.
pub fn chunks_are_valid(chunks: &Chunks) -> (r: bool)
    ensures
        r == chunks_valid(*chunks),
{
    chunks[0] < 4096 && chunks[1] < 4096 && chunks[2] < 4096 && chunks[3] < 4096 && chunks[4]
        < 2048 && chunks[5] < 2048 && chunks[6] < 2048 && chunks[7] < 128
}

/// A received IMBE voice frame.
pub struct ReceivedFrame {
    /// Prioritized bit vector chunks, u<sub>0</sub>, ..., u<sub>7</sub>.
    pub chunks: Chunks,
    /// Error correction counts, ϵ<sub>0</sub>, ..., ϵ<sub>6</sub>.
    pub errors: Errors,
}

impl ReceivedFrame {
    /// Create a new `ReceivedFrame` from the given chunks u<sub>0</sub>, ...,
    /// u<sub>7</sub> and error counts ϵ<sub>0</sub>, ..., ϵ<sub>6</sub>.
    pub fn new(chunks: Chunks, errors: Errors) -> (r: ReceivedFrame)
        requires
            chunks_valid(chunks),
        ensures
            r.chunks == chunks,
            r.errors == errors,
    {
        ReceivedFrame { chunks, errors }
    }
}

} // verus!
