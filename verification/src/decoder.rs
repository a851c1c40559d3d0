//! Frame-level decoding decisions.
//!
//! Per frame the decoder takes one of three paths: synthesize voice from the
//! frame's parameters, repeat the previous frame, or emit silence. Which path
//! is taken depends only on the bootstrap classification and on the two
//! error-metric conditions, which the sample-synthesis stage evaluates and
//! hands in as plain booleans. `frame_path` is that decision, in the order the
//! decoder applies its rules.

use vstd::prelude::*;
use crate::descramble::Bootstrap;

verus! {

/// A received frame handed to the decoder: the eight prioritized chunks and
/// the seven error counts from the outer FEC.
pub struct CAIFrame {
    chunks: [u32; 8],
    errors: [usize; 7],
}

impl CAIFrame {
    /// Create a new `CAIFrame` from the given chunks u<sub>0</sub>, ...,
    /// u<sub>7</sub> and error counts ϵ<sub>0</sub>, ..., ϵ<sub>6</sub>.
    pub fn new(chunks: [u32; 8], errors: [usize; 7]) -> (r: CAIFrame)
        ensures
            r.chunks() == chunks,
            r.errors() == errors,
    {
        CAIFrame { chunks, errors }
    }

    /// The frame's prioritized chunks.
    pub closed spec fn chunks(self) -> [u32; 8] {
        self.chunks
    }

    /// The frame's error counts.
    pub closed spec fn errors(self) -> [usize; 7] {
        self.errors
    }

    /// Retrieve the frame's prioritized chunks.
    pub fn get_chunks(&self) -> (r: [u32; 8])
        ensures
            r == self.chunks(),
    {
        self.chunks
    }

    /// Retrieve the frame's error counts.
    pub fn get_errors(&self) -> (r: [usize; 7])
        ensures
            r == self.errors(),
    {
        self.errors
    }
}

/// The synthesis path a frame takes.
#[derive(Clone, Copy, PartialEq, Eq, Structural, Debug)]
pub enum FramePath {
    /// Synthesize voice from the enclosed period.
    Voice(u8),
    /// Repeat the previous frame's parameters.
    Repeat,
    /// Emit a frame of silence.
    Silence,
}

/// Decide the frame path, in the decoder's rule order: an invalid bootstrap
/// repeats the previous frame and a silence bootstrap emits silence, both
/// before the error metrics are consulted; then the repeat condition
/// (ϵ₀ ≥ 2 and ϵ_T ≥ 10 + 40·ϵ_R) forces a repeat, the mute condition
/// (ϵ_R > 0.0875) forces silence, and otherwise the frame's voice parameters
/// are synthesized.
pub fn frame_path(bootstrap: Bootstrap, should_repeat: bool, should_mute: bool) -> (r: FramePath)
    ensures
        r == (match bootstrap {
            Bootstrap::Invalid => FramePath::Repeat,
            Bootstrap::Silence => FramePath::Silence,
            Bootstrap::Period(p) => if should_repeat {
                FramePath::Repeat
            } else if should_mute {
                FramePath::Silence
            } else {
                FramePath::Voice(p)
            },
        }),
{
    match bootstrap {
        Bootstrap::Invalid => FramePath::Repeat,
        Bootstrap::Silence => FramePath::Silence,
        Bootstrap::Period(p) => {
            if should_repeat {
                FramePath::Repeat
            } else if should_mute {
                FramePath::Silence
            } else {
                FramePath::Voice(p)
            }
        },
    }
}

} // verus!
