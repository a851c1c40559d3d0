//! Decoding of the 22-bit vector between the two scanning procedures.

use vstd::prelude::*;
use vstd::arithmetic::power2::pow2;
use crate::frame::{Chunks, chunks_valid};
use crate::params::BaseParams;
use crate::scan::{ScanSep, voiced_of, idx_part_of, scanned_of};

verus! {

/// Decodes voiced/unvoiced decisions and the quantized gain index fragment
/// from prioritized chunks.
///
/// Between the chunks created by the two scanning procedures, there is a
/// 22-bit vector made up of u<sub>4</sub> and u<sub>5</sub> that contains the
/// voiced/unvoiced vector, part of the quantized gain index, and the initial
/// bits in the second scanning procedure.
#[derive(Clone, Copy)]
pub struct ChunkParts {
    /// Voiced/Unvoiced Boolean bit vector, b<sub>1</sub>.
    pub voiced: u32,
    /// Bits 1 and 2 of the 6-bit quantized gain index, b<sub>2</sub>.
    pub idx_part: u32,
    /// Chunk of some b<sub>m</sub> bits used in the scanning procedure.
    pub scanned: u32,
}

impl ChunkParts {
    /// Create a new `ChunkParts` decoder from the given chunks and frame
    /// parameters.
    pub fn new(chunks: &Chunks, params: &BaseParams) -> (r: ChunkParts)
        requires
            chunks_valid(*chunks),
            params.wf(),
        ensures
            r.voiced == voiced_of(*chunks, params.bands as int),
            r.voiced < pow2(params.bands as nat),
            r.idx_part == idx_part_of(*chunks, params.bands as int),
            r.idx_part < 4,
            r.scanned == scanned_of(*chunks, params.bands as int),
            r.scanned < pow2((20 - params.bands) as nat),
    {
        let sep = ScanSep::new(chunks, params);
        ChunkParts { voiced: sep.voiced, idx_part: sep.idx_part, scanned: sep.scanned }
    }
}

} // verus!
