//! The bit scanning procedure that serializes the quantized-amplitude bits
//! spread over the prioritized chunks into one fixed-order stream.

use vstd::prelude::*;
use vstd::arithmetic::power2::pow2;
use crate::arith::pow2_u32;
use crate::frame::{Chunks, chunks_valid};
use crate::params::BaseParams;

verus! {

/// Bit j (0 = most significant) of the low `w` bits of `c`.
pub open spec fn word_bit(c: nat, w: nat, j: int) -> u32 {
    (((c / pow2((w - 1 - j) as nat)) % 2) as u32)
}

/// The low `w` bits of `c` as a sequence, most significant first.
pub open spec fn word_bits(c: nat, w: nat) -> Seq<u32> {
    Seq::new(w, |j: int| word_bit(c, w, j))
}

/// The 22-bit vector made up of u<sub>4</sub> and u<sub>5</sub>.
pub open spec fn sep_word(chunks: Chunks) -> nat {
    (chunks[4] * 2048 + chunks[5]) as nat
}

/// The voiced/unvoiced band vector b<sub>1</sub>: the top K bits of the
/// 22-bit vector.
pub open spec fn voiced_of(chunks: Chunks, bands: int) -> nat {
    sep_word(chunks) / pow2((22 - bands) as nat)
}

/// Bits 1 and 2 of the quantized gain index b<sub>2</sub>: the next 2 bits of
/// the 22-bit vector.
pub open spec fn idx_part_of(chunks: Chunks, bands: int) -> nat {
    (sep_word(chunks) / pow2((20 - bands) as nat)) % 4
}

/// The scanned remainder: the low 20 − K bits of the 22-bit vector.
pub open spec fn scanned_of(chunks: Chunks, bands: int) -> nat {
    sep_word(chunks) % pow2((20 - bands) as nat)
}

/// Decodes the voiced/unvoiced vector and the quantized gain index fragment
/// from the 22-bit vector in between the two scanned regions.
#[derive(Clone, Copy)]
pub struct ScanSep {
    /// Voiced/Unvoiced Boolean bit vector, b<sub>1</sub>.
    pub voiced: u32,
    /// Bits 1 and 2 of the 6-bit quantized gain index, b<sub>2</sub>.
    pub idx_part: u32,
    /// Chunk of some b<sub>m</sub> bits used in the scanning procedure.
    pub scanned: u32,
}

impl ScanSep {
    /// Create a new `ScanSep` decoder from the given chunks and frame parameters.
    pub fn new(chunks: &Chunks, params: &BaseParams) -> (r: ScanSep)
        requires
            chunks_valid(*chunks),
            params.wf(),
        ensures
            r.voiced == voiced_of(*chunks, params.bands as int),
            r.voiced < pow2(params.bands as nat),
            r.idx_part == idx_part_of(*chunks, params.bands as int),
            r.idx_part < 4,
            r.scanned == scanned_of(*chunks, params.bands as int),
            r.scanned < pow2((20 - params.bands) as nat),
    {
        let parts: u32 = chunks[4] * 2048 + chunks[5];
        let hi = pow2_u32(22 - params.bands);
        let lo = pow2_u32(20 - params.bands);
        proof {
            vstd::arithmetic::power2::lemma_pow2_adds((22 - params.bands) as nat, params.bands as nat);
            vstd::arithmetic::power2::lemma2_to64();
            assert(pow2((22 - params.bands) as nat) * pow2(params.bands as nat) == pow2(22));
            vstd::arithmetic::div_mod::lemma_multiply_divide_lt(
                parts as int,
                pow2((22 - params.bands) as nat) as int,
                pow2(params.bands as nat) as int,
            );
        }
        ScanSep {
            voiced: parts / hi,
            idx_part: (parts / lo) % 4,
            scanned: parts % lo,
        }
    }
}

/// One scanned region: a value and the number of its low bits that belong to
/// the scan, the n-th of the seven regions visited in fixed order.
pub open spec fn scan_entry(chunks: Chunks, sep: nat, sep_width: nat, n: int) -> (nat, nat) {
    if n == 0 {
        ((chunks[0] % 8) as nat, 3)
    } else if n == 1 {
        (chunks[1] as nat, 12)
    } else if n == 2 {
        (chunks[2] as nat, 12)
    } else if n == 3 {
        (chunks[3] as nat, 12)
    } else if n == 4 {
        (sep, sep_width)
    } else if n == 5 {
        (chunks[6] as nat, 11)
    } else {
        ((chunks[7] / 16) as nat, 3)
    }
}

/// The scanned bit stream contributed by regions n, n + 1, ..., 6.
pub open spec fn scan_bits_from(chunks: Chunks, sep: nat, sep_width: nat, n: int) -> Seq<u32>
    decreases 7 - n,
{
    if n < 0 || n >= 7 {
        Seq::empty()
    } else {
        let e = scan_entry(chunks, sep, sep_width, n);
        word_bits(e.0, e.1) + scan_bits_from(chunks, sep, sep_width, n + 1)
    }
}

/// The whole scanned bit stream of a frame, in scanning order: the low 3 bits
/// of u<sub>0</sub>, all bits of u<sub>1</sub>, u<sub>2</sub>, u<sub>3</sub>,
/// the (20 − K)-bit scanned remainder, all bits of u<sub>6</sub>, and the high
/// 3 bits of u<sub>7</sub>.
pub open spec fn scan_sequence(chunks: Chunks, bands: int) -> Seq<u32> {
    scan_bits_from(chunks, scanned_of(chunks, bands), (20 - bands) as nat, 0)
}

/// The scan yields exactly 73 − K bits.
pub proof fn lemma_scan_sequence_len(chunks: Chunks, bands: int)
    requires
        3 <= bands <= 12,
    ensures
        scan_sequence(chunks, bands).len() == 73 - bands,
{
    reveal_with_fuel(scan_bits_from, 8);
}

/// Iterates over the seven regions covered in the scanning procedure.
#[derive(Clone, Copy)]
pub struct ScanChunks {
    /// Chunks to scan.
    pub chunks: Chunks,
    /// Separator region value and its width in bits.
    pub sep: (u32, u8),
    /// Next region in the scan, 0 ..= 7.
    pub pos: u8,
}

impl ScanChunks {
    /// Every region the iterator can yield holds fewer bits than its stated
    /// width allows, widths lie in [3, 17], and the position is in range.
    pub open spec fn wf(self) -> bool {
        &&& chunks_valid(self.chunks)
        &&& self.sep.0 < pow2(self.sep.1 as nat)
        &&& 8 <= self.sep.1 <= 17
        &&& 0 <= self.pos <= 7
    }

    /// The bits this iterator has yet to yield.
    pub open spec fn bits(self) -> Seq<u32> {
        scan_bits_from(self.chunks, self.sep.0 as nat, self.sep.1 as nat, self.pos as int)
    }

    /// Create a new `ScanChunks` iterator over the given chunks, where `sep` is
    /// the scanned remainder of the 22-bit vector.
    pub fn new(chunks: &Chunks, sep: u32, params: &BaseParams) -> (r: ScanChunks)
        requires
            chunks_valid(*chunks),
            params.wf(),
            sep < pow2((20 - params.bands) as nat),
        ensures
            r.wf(),
            r.bits() == scan_bits_from(
                *chunks,
                sep as nat,
                (20 - params.bands) as nat,
                0,
            ),
            r.sep.0 == sep,
            r.sep.1 == 20 - params.bands,
    {
        ScanChunks { chunks: *chunks, sep: (sep, (20 - params.bands) as u8), pos: 0 }
    }

    /// Yield the next region of the scan: its value and the number of its low
    /// bits to use, or `None` once all seven regions are exhausted.
    pub fn next(&mut self) -> (r: Option<(u32, u8)>)
        requires
            old(self).wf(),
        ensures
            final(self).wf(),
            final(self).chunks == old(self).chunks,
            final(self).sep == old(self).sep,
            match r {
                Some(e) => {
                    &&& old(self).pos < 7
                    &&& final(self).pos == old(self).pos + 1
                    &&& (e.0 as nat, e.1 as nat) == scan_entry(
                        old(self).chunks,
                        old(self).sep.0 as nat,
                        old(self).sep.1 as nat,
                        old(self).pos as int,
                    )
                    &&& e.0 < pow2(e.1 as nat)
                    &&& 3 <= e.1 <= 17
                },
                None => old(self).pos >= 7 && *final(self) == *old(self),
            },
    {
        if self.pos >= 7 {
            return None;
        }
        let n = self.pos;
        self.pos = self.pos + 1;
        proof {
            vstd::arithmetic::power2::lemma2_to64();
        }
        Some(
            match n {
                0 => (self.chunks[0] % 8, 3),
                1 => (self.chunks[1], 12),
                2 => (self.chunks[2], 12),
                3 => (self.chunks[3], 12),
                4 => self.sep,
                5 => (self.chunks[6], 11),
                _ => (self.chunks[7] / 16, 3),
            },
        )
    }
}

/// The leading bit of a `w`-bit word is its quotient by 2<sup>w−1</sup>.
pub proof fn lemma_word_bits_first(c: nat, w: nat)
    requires
        w > 0,
        c < pow2(w),
    ensures
        c / pow2((w - 1) as nat) < 2,
        word_bits(c, w)[0] == c / pow2((w - 1) as nat),
{
    vstd::arithmetic::power2::lemma_pow2_unfold(w);
    assert(pow2(w) == 2 * pow2((w - 1) as nat));
    vstd::arithmetic::power2::lemma_pow2_pos((w - 1) as nat);
    vstd::arithmetic::div_mod::lemma_multiply_divide_lt(
        c as int,
        pow2((w - 1) as nat) as int,
        2,
    );
    vstd::arithmetic::div_mod::lemma_small_mod(
        (c / pow2((w - 1) as nat)) as nat,
        2,
    );
}

/// Dropping the leading bit of a `w`-bit word leaves the (w−1)-bit word given
/// by its remainder modulo 2<sup>w−1</sup>.
pub proof fn lemma_word_bits_rest(c: nat, w: nat)
    requires
        w > 0,
        c < pow2(w),
    ensures
        word_bits(c, w).skip(1) =~= word_bits(c % pow2((w - 1) as nat), (w - 1) as nat),
{
    let r = c % pow2((w - 1) as nat);
    let q = c / pow2((w - 1) as nat);
    vstd::arithmetic::power2::lemma_pow2_pos((w - 1) as nat);
    vstd::arithmetic::div_mod::lemma_fundamental_div_mod(c as int, pow2((w - 1) as nat) as int);
    assert forall|j: int| 0 <= j < w - 1 implies word_bits(c, w).skip(1)[j] == word_bits(
        r,
        (w - 1) as nat,
    )[j] by {
        let i = (w - 2 - j) as nat;
        let t = ((w - 1) - i) as nat;
        // c = q·2^(w−1) + r: both bits read position i, and the q·2^(w−1) part
        // contributes an even term 2·(q·2^(t−1)) to the quotient by 2^i.
        vstd::arithmetic::power2::lemma_pow2_adds(i, t);
        vstd::arithmetic::power2::lemma_pow2_pos(i);
        vstd::arithmetic::power2::lemma_pow2_pos(t);
        vstd::arithmetic::power2::lemma_pow2_pos((t - 1) as nat);
        assert(q * pow2((w - 1) as nat) == (q * pow2(t)) * pow2(i)) by {
            vstd::arithmetic::mul::lemma_mul_is_associative(
                q as int,
                pow2(t) as int,
                pow2(i) as int,
            );
        }
        assert(c == r + (q * pow2(t)) * pow2(i));
        vstd::arithmetic::div_mod::lemma_hoist_over_denominator(
            r as int,
            (q * pow2(t)) as int,
            pow2(i),
        );
        assert(c / pow2(i) == r / pow2(i) + q * pow2(t));
        vstd::arithmetic::power2::lemma_pow2_unfold(t);
        assert(q * pow2(t) == 2 * (q * pow2((t - 1) as nat))) by {
            vstd::arithmetic::mul::lemma_mul_is_associative(2, q as int, pow2((t - 1) as nat) as int);
            vstd::arithmetic::mul::lemma_mul_is_commutative(q as int, 2);
            vstd::arithmetic::mul::lemma_mul_is_associative(q as int, 2, pow2((t - 1) as nat) as int);
        }
        assert((2 * (q * pow2((t - 1) as nat)) + r / pow2(i)) % 2 == (r / pow2(i)) % 2) by {
            vstd::arithmetic::div_mod::lemma_mod_multiples_vanish(
                (q * pow2((t - 1) as nat)) as int,
                (r / pow2(i)) as int,
                2,
            );
        }
    }
}

/// Sequentially extracts the bits scanned into prioritized chunks.
#[derive(Clone, Copy)]
pub struct ScanBits {
    /// Regions remaining in the scan.
    pub chunks: ScanChunks,
    /// Value whose low `remain` bits are the pending part of the current region.
    pub chunk: u32,
    /// Bits remaining to yield from the current region.
    pub remain: u8,
}

impl ScanBits {
    /// The pending part of the current region is in range.
    pub open spec fn wf(self) -> bool {
        &&& self.chunks.wf()
        &&& self.chunk < pow2(self.remain as nat)
        &&& self.remain <= 17
    }

    /// The bits this iterator has yet to yield: the pending part of the current
    /// region followed by all bits of the regions not yet begun.
    pub open spec fn bits(self) -> Seq<u32> {
        word_bits(self.chunk as nat, self.remain as nat) + self.chunks.bits()
    }

    /// Create a new `ScanBits` iterator over the given scan regions.
    pub fn new(chunks: ScanChunks) -> (r: ScanBits)
        requires
            chunks.wf(),
        ensures
            r.wf(),
            r.bits() == chunks.bits(),
    {
        proof {
            vstd::arithmetic::power2::lemma2_to64();
            assert(word_bits(0, 0) =~= Seq::<u32>::empty());
            assert(word_bits(0, 0) + chunks.bits() =~= chunks.bits());
        }
        ScanBits { chunks, chunk: 0, remain: 0 }
    }

    /// Yield the next single bit in the scan, or `None` once the stream is
    /// exhausted. The bit returned is always the head of `bits()`, and the
    /// stream then continues with the rest.
    pub fn next(&mut self) -> (r: Option<u32>)
        requires
            old(self).wf(),
        ensures
            final(self).wf(),
            match r {
                Some(bit) => {
                    &&& old(self).bits().len() > 0
                    &&& bit == old(self).bits()[0]
                    &&& bit < 2
                    &&& final(self).bits() =~= old(self).bits().skip(1)
                },
                None => old(self).bits().len() == 0 && final(self).bits().len() == 0,
            },
    {
        if self.remain == 0 {
            let e = match self.chunks.next() {
                Some(e) => e,
                None => {
                    proof {
                        assert(self.bits() =~= self.chunks.bits());
                    }
                    return None;
                },
            };
            proof {
                assert(old(self).bits() =~= word_bits(e.0 as nat, e.1 as nat) + self.chunks.bits());
            }
            self.chunk = e.0;
            self.remain = e.1;
        }
        proof {
            assert(self.bits() =~= old(self).bits());
            lemma_word_bits_first(self.chunk as nat, self.remain as nat);
            lemma_word_bits_rest(self.chunk as nat, self.remain as nat);
        }
        let p = pow2_u32(self.remain as u32 - 1);
        let bit = self.chunk / p;
        let ghost prev = *self;
        self.chunk = self.chunk % p;
        self.remain = self.remain - 1;
        proof {
            assert(self.bits() =~= prev.bits().skip(1)) by {
                assert(word_bits(self.chunk as nat, self.remain as nat) =~= word_bits(
                    prev.chunk as nat,
                    prev.remain as nat,
                ).skip(1));
                assert(self.bits() =~= word_bits(prev.chunk as nat, prev.remain as nat).skip(1)
                    + self.chunks.bits());
                assert(prev.bits().skip(1) =~= word_bits(prev.chunk as nat, prev.remain as nat).skip(
                    1,
                ) + self.chunks.bits());
            }
            assert(bit == prev.bits()[0]);
        }
        Some(bit)
    }

    /// Drain the scan into a vector holding every remaining bit in order.
    pub fn collect_bits(&mut self) -> (r: Vec<u32>)
        requires
            old(self).wf(),
        ensures
            final(self).wf(),
            r@ =~= old(self).bits(),
            forall|i: int| 0 <= i < r@.len() ==> r@[i] < 2,
            final(self).bits().len() == 0,
    {
        let mut out: Vec<u32> = Vec::new();
        loop
            invariant
                self.wf(),
                out@ + self.bits() =~= old(self).bits(),
                forall|i: int| 0 <= i < out@.len() ==> out@[i] < 2,
            decreases self.bits().len(),
        {
            match self.next() {
                Some(bit) => {
                    out.push(bit);
                    proof {
                        assert(out@ + self.bits() =~= old(self).bits());
                    }
                },
                None => {
                    proof {
                        assert(out@ =~= old(self).bits());
                    }
                    return out;
                },
            }
        }
    }
}

} // verus!
