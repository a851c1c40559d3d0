//! Initial descrambling of prioritized chunks into the underlying quantized
//! amplitudes b<sub>m</sub>, voiced/unvoiced decisions v<sub>l</sub>, and the
//! quantized gain index b<sub>2</sub>.

use vstd::prelude::*;
use vstd::arithmetic::power2::pow2;
use crate::allocs::{BitAlloc, sum_widths, scan_total};
use crate::arith::{bit_of, pow2_u32, pow2_u64, lemma_bit_set, lemma_aligned_bit_clear};
use crate::frame::{Chunks, chunks_valid};
use crate::params::BaseParams;
use crate::scan::{
    ScanBits, ScanChunks, ScanSep, scan_sequence, lemma_scan_sequence_len, voiced_of, idx_part_of,
};
use crate::storage::{
    amp_store_elems, amp_store_get, amp_store_len, amp_store_new, amp_store_push, amp_store_set,
};

verus! {

/// The 8-bit quantized period b<sub>0</sub> encoded in the chunks: the top six
/// bits of u<sub>0</sub> followed by bits 2 and 1 of u<sub>7</sub>.
pub open spec fn period_of(chunks: Chunks) -> nat {
    ((chunks[0] / 64) * 4 + (chunks[7] / 2) % 4) as nat
}

/// Compute the 8-bit quantized period b<sub>0</sub> from the given chunks.
pub fn period(chunks: &Chunks) -> (r: u8)
    requires
        chunks_valid(*chunks),
    ensures
        r == period_of(*chunks),
{
    ((chunks[0] / 64) * 4 + (chunks[7] / 2) % 4) as u8
}

/// Decodes the bootstrap value b<sub>0</sub>.
#[derive(Clone, Copy, PartialEq, Eq, Structural, Debug)]
pub enum Bootstrap {
    /// Frame contains voiced/unvoiced data derived from the enclosed
    /// b<sub>0</sub> parameter.
    Period(u8),
    /// Frame is silence.
    Silence,
    /// Invalid b<sub>0</sub> value was detected.
    Invalid,
}

/// Classification of a period value: 0..=207 carries voice parameters,
/// 216..=219 signals silence, and everything else is invalid.
pub open spec fn bootstrap_of(p: nat) -> Bootstrap {
    if p <= 207 {
        Bootstrap::Period(p as u8)
    } else if 216 <= p <= 219 {
        Bootstrap::Silence
    } else {
        Bootstrap::Invalid
    }
}

impl Bootstrap {
    /// Parse a `Bootstrap` value from the given chunks.
    pub fn new(chunks: &Chunks) -> (r: Bootstrap)
        requires
            chunks_valid(*chunks),
        ensures
            r == bootstrap_of(period_of(*chunks)),
    {
        let p = period(chunks);
        if p <= 207 {
            Bootstrap::Period(p)
        } else if 216 <= p && p <= 219 {
            Bootstrap::Silence
        } else {
            Bootstrap::Invalid
        }
    }

    /// Retrieve the enclosed period, for a frame known to carry voice
    /// parameters.
    pub fn unwrap_period(&self) -> (r: u8)
        requires
            self is Period,
        ensures
            r == self->Period_0,
    {
        match self {
            Bootstrap::Period(p) => *p,
            _ => vstd::pervasive::unreached(),
        }
    }
}

/// The 6-bit gain index b<sub>2</sub>: bits 5 through 3 of u<sub>0</sub>, the
/// two index bits from the 22-bit vector, and bit 3 of u<sub>7</sub>.
pub open spec fn gain_index_of(chunks: Chunks, idx_part: nat) -> nat {
    (((chunks[0] / 8) % 8) * 8 + idx_part * 2 + (chunks[7] / 8) % 2) as nat
}

/// Compute the 6-bit index b<sub>2</sub> used to look up the quantized gain
/// value.
pub fn gain_idx(chunks: &Chunks, idx_part: u32) -> (r: usize)
    requires
        chunks_valid(*chunks),
        idx_part < 4,
    ensures
        r == gain_index_of(*chunks, idx_part as nat),
        r < 64,
{
    (((chunks[0] / 8) % 8) * 8 + idx_part * 2 + (chunks[7] / 8) % 2) as usize
}

/// One pass of the descrambling procedure over a single bit level: every
/// amplitude whose allocation reaches above `level` (visited in ascending
/// order from index i) shifts the next scanned bit onto its low end.
pub open spec fn fill_row(
    alloc: Seq<u32>,
    level: int,
    amps: Seq<u32>,
    scan: Seq<u32>,
    pos: int,
    i: int,
) -> (Seq<u32>, int)
    decreases alloc.len() - i,
{
    if i < 0 || i >= alloc.len() {
        (amps, pos)
    } else if alloc[i] > level {
        fill_row(
            alloc,
            level,
            amps.update(i, (amps[i] * 2 + scan[pos]) as u32),
            scan,
            pos + 1,
            i + 1,
        )
    } else {
        fill_row(alloc, level, amps, scan, pos, i + 1)
    }
}

/// The descrambling procedure over the bit levels `level` − 1 down to 0, in
/// that order: the amplitudes after all remaining passes, and the final scan
/// position.
pub open spec fn fill_levels(
    alloc: Seq<u32>,
    level: int,
    amps: Seq<u32>,
    scan: Seq<u32>,
    pos: int,
) -> (Seq<u32>, int)
    decreases level,
{
    if level <= 0 {
        (amps, pos)
    } else {
        let row = fill_row(alloc, level - 1, amps, scan, pos, 0);
        fill_levels(alloc, level - 1, row.0, scan, row.1)
    }
}

/// The quantized amplitudes descrambled from a scanned bit stream under the
/// given allocation: all-zero amplitudes filled through every bit level from
/// `max` − 1 down to 0.
pub open spec fn descrambled_amps(scan: Seq<u32>, alloc: Seq<u32>, max: int) -> (Seq<u32>, int) {
    fill_levels(alloc, max, Seq::new(alloc.len(), |i: int| 0u32), scan, 0)
}

/// Number of indices j < i whose allocation reaches above `level`.
pub open spec fn count_above(alloc: Seq<u32>, level: int, i: int) -> int
    decreases i,
{
    if i <= 0 {
        0
    } else {
        count_above(alloc, level, i - 1) + if alloc[i - 1] > level {
            1int
        } else {
            0int
        }
    }
}

/// Total number of bits consumed by the passes over levels `level` − 1 down
/// to 0, restricted to the first i amplitudes.
pub open spec fn count_levels(alloc: Seq<u32>, level: int, i: int) -> int
    decreases level,
{
    if level <= 0 {
        0
    } else {
        count_levels(alloc, level - 1, i) + count_above(alloc, level - 1, i)
    }
}

/// Sum over the first i allocation widths, each capped at `level`.
pub open spec fn sum_capped(alloc: Seq<u32>, level: int, i: int) -> int
    decreases i,
{
    if i <= 0 {
        0
    } else {
        sum_capped(alloc, level, i - 1) + if alloc[i - 1] <= level {
            alloc[i - 1] as int
        } else {
            level
        }
    }
}

/// One pass over a level consumes one bit per amplitude whose allocation
/// reaches above that level.
pub proof fn lemma_fill_row_pos(alloc: Seq<u32>, level: int, amps: Seq<u32>, scan: Seq<u32>, pos: int, i: int)
    requires
        0 <= i <= alloc.len(),
        amps.len() == alloc.len(),
    ensures
        fill_row(alloc, level, amps, scan, pos, i).1 == pos + count_above(
            alloc,
            level,
            alloc.len() as int,
        ) - count_above(alloc, level, i),
        fill_row(alloc, level, amps, scan, pos, i).0.len() == amps.len(),
    decreases alloc.len() - i,
{
    if i < alloc.len() {
        if alloc[i] > level {
            lemma_fill_row_pos(
                alloc,
                level,
                amps.update(i, (amps[i] * 2 + scan[pos]) as u32),
                scan,
                pos + 1,
                i + 1,
            );
        } else {
            lemma_fill_row_pos(alloc, level, amps, scan, pos, i + 1);
        }
    }
}

/// The passes over levels `level` − 1 down to 0 consume `count_levels` bits in
/// total.
pub proof fn lemma_fill_levels_pos(alloc: Seq<u32>, level: int, amps: Seq<u32>, scan: Seq<u32>, pos: int)
    requires
        amps.len() == alloc.len(),
    ensures
        fill_levels(alloc, level, amps, scan, pos).1 == pos + count_levels(
            alloc,
            level,
            alloc.len() as int,
        ),
        fill_levels(alloc, level, amps, scan, pos).0.len() == amps.len(),
    decreases level,
{
    if level > 0 {
        let row = fill_row(alloc, level - 1, amps, scan, pos, 0);
        lemma_fill_row_pos(alloc, level - 1, amps, scan, pos, 0);
        lemma_fill_levels_pos(alloc, level - 1, row.0, scan, row.1);
    }
}

/// The total consumption equals the sum of the allocation widths capped at the
/// number of levels walked.
pub proof fn lemma_count_levels_is_sum(alloc: Seq<u32>, level: int, i: int)
    requires
        0 <= level,
        0 <= i <= alloc.len(),
    ensures
        count_levels(alloc, level, i) == sum_capped(alloc, level, i),
    decreases level, i,
{
    if level > 0 && i > 0 {
        lemma_count_levels_step(alloc, level, i);
        lemma_count_levels_is_sum(alloc, level, i - 1);
    } else if level > 0 {
        lemma_count_levels_is_sum(alloc, level - 1, i);
    } else {
        lemma_sum_capped_zero(alloc, i);
    }
}

/// Peeling the last amplitude out of the double count: the bits it takes over
/// `level` passes amount to its width capped at `level`.
proof fn lemma_count_levels_step(alloc: Seq<u32>, level: int, i: int)
    requires
        0 < level,
        0 < i <= alloc.len(),
    ensures
        count_levels(alloc, level, i) == count_levels(alloc, level, i - 1) + if alloc[i - 1]
            <= level {
            alloc[i - 1] as int
        } else {
            level
        },
    decreases level,
{
    assert(count_above(alloc, level - 1, i) == count_above(alloc, level - 1, i - 1) + if alloc[i
        - 1] > level - 1 {
        1int
    } else {
        0int
    });
    if level == 1 {
        assert(count_levels(alloc, 0, i) == 0);
        assert(count_levels(alloc, 0, i - 1) == 0);
        assert(count_levels(alloc, 1, i) == count_above(alloc, 0, i));
        assert(count_levels(alloc, 1, i - 1) == count_above(alloc, 0, i - 1));
    } else {
        lemma_count_levels_step(alloc, level - 1, i);
    }
}

/// With no levels to walk, the capped sum vanishes.
proof fn lemma_sum_capped_zero(alloc: Seq<u32>, i: int)
    requires
        0 <= i <= alloc.len(),
    ensures
        sum_capped(alloc, 0, i) == 0,
    decreases i,
{
    if i > 0 {
        lemma_sum_capped_zero(alloc, i - 1);
    }
}

/// When every width stays at or under the level count, the capped sum is the
/// plain sum of the widths.
pub proof fn lemma_sum_capped_uncapped(alloc: Seq<u32>, level: int, i: int)
    requires
        0 <= i <= alloc.len(),
        forall|j: int| 0 <= j < alloc.len() ==> alloc[j] <= level,
    ensures
        sum_capped(alloc, level, i) == sum_widths(alloc, i),
    decreases i,
{
    if i > 0 {
        lemma_sum_capped_uncapped(alloc, level, i - 1);
    }
}

/// The descrambler's bit scan is exactly consumed: filling the quantized
/// amplitudes through every bit level draws exactly the sum of the allocation
/// widths, and a well-formed allocation makes that sum the whole scan, so
/// after all amplitudes are filled no bit remains.
pub proof fn lemma_scan_exactly_consumed(scan: Seq<u32>, alloc: Seq<u32>, max: int)
    requires
        0 <= max,
        forall|j: int| 0 <= j < alloc.len() ==> alloc[j] <= max,
        scan.len() == sum_widths(alloc, alloc.len() as int),
    ensures
        descrambled_amps(scan, alloc, max).1 == scan.len(),
{
    let zeros = Seq::new(alloc.len(), |i: int| 0u32);
    lemma_fill_levels_pos(alloc, max, zeros, scan, 0);
    lemma_count_levels_is_sum(alloc, max, alloc.len() as int);
    lemma_sum_capped_uncapped(alloc, max, alloc.len() as int);
}

/// The per-level count grows with the number of amplitudes considered, and is
/// never negative.
pub proof fn lemma_count_above_mono(alloc: Seq<u32>, level: int, i: int, j: int)
    requires
        0 <= i <= j,
    ensures
        0 <= count_above(alloc, level, i) <= count_above(alloc, level, j),
    decreases j,
{
    if j > 0 && i < j {
        lemma_count_above_mono(alloc, level, i, j - 1);
    } else if j > 0 {
        lemma_count_above_mono(alloc, level, 0, i - 1);
    }
}

/// The total count over any number of levels is never negative.
pub proof fn lemma_count_levels_nonneg(alloc: Seq<u32>, level: int, i: int)
    requires
        0 <= i,
    ensures
        count_levels(alloc, level, i) >= 0,
    decreases level,
{
    if level > 0 {
        lemma_count_levels_nonneg(alloc, level - 1, i);
        lemma_count_above_mono(alloc, level - 1, 0, i);
    }
}

/// The width of an allocation, with `level` levels already consumed: how many
/// bits an amplitude can still receive.
pub open spec fn width_left(width: int, level: int) -> nat {
    if width >= level {
        (width - level) as nat
    } else {
        0
    }
}

/// Reconstructs quantized amplitudes b<sub>3</sub>, ..., b<sub>L+1</sub>.
pub struct QuantizedAmplitudes {
    store: arrayvec::ArrayVec<u32, 64>,
}

impl QuantizedAmplitudes {
    /// The reconstructed amplitudes, in order of m.
    pub closed spec fn amps(self) -> Seq<u32> {
        amp_store_elems(self.store)
    }

    /// Reconstruct quantized amplitudes from the given bit scan: starting from
    /// all-zero amplitudes, walk the bit levels from the highest down and let
    /// every amplitude whose allocation reaches above the level shift the next
    /// scanned bit onto its low end. A well-formed allocation claims exactly
    /// the scanned bits, so the scan is consumed in full, and every amplitude
    /// stays below 2 to the power of its allocated width.
    fn new(scan: ScanBits, alloc: &BitAlloc, params: &BaseParams) -> (r: QuantizedAmplitudes)
        requires
            scan.wf(),
            params.wf(),
            alloc.wf(*params),
            scan.bits().len() == scan_total(params.bands as int),
        ensures
            r.amps() == descrambled_amps(scan.bits(), alloc.widths@, alloc.max as int).0,
            r.amps().len() == params.harmonics - 1,
            forall|i: int|
                0 <= i < r.amps().len() ==> r.amps()[i] < pow2(alloc.widths@[i] as nat),
    {
        let ghost bits = scan.bits();
        let ghost widths = alloc.widths@;
        let ghost gmax = alloc.max as int;
        let n = alloc.widths.len();
        let mut scan = scan;
        let sv: Vec<u32> = scan.collect_bits();

        // All-zero amplitudes to start from.
        let mut store = amp_store_new();
        let mut k: usize = 0;
        while k < n
            invariant
                0 <= k <= n <= 55,
                amp_store_elems(store) =~= Seq::new(k as nat, |i: int| 0u32),
            decreases n - k,
        {
            amp_store_push(&mut store, 0);
            proof {
                assert(amp_store_elems(store) =~= Seq::new((k + 1) as nat, |i: int| 0u32));
            }
            k = k + 1;
        }
        let ghost zeros = Seq::new(n as nat, |i: int| 0u32);
        let ghost target = fill_levels(widths, gmax, zeros, bits, 0);
        proof {
            lemma_scan_exactly_consumed(bits, widths, gmax);
            lemma_fill_levels_pos(widths, gmax, zeros, bits, 0);
            assert(target.1 == bits.len());
        }

        let mut pos: usize = 0;
        let mut level: u32 = alloc.max;
        while level > 0
            invariant
                params.wf(),
                alloc.wf(*params),
                widths == alloc.widths@,
                n == widths.len(),
                sv@ =~= bits,
                bits.len() <= 73,
                forall|b: int| 0 <= b < sv@.len() ==> sv@[b] < 2,
                level <= alloc.max,
                0 <= pos <= bits.len(),
                amp_store_elems(store).len() == n,
                fill_levels(widths, level as int, amp_store_elems(store), bits, pos as int)
                    == target,
                target.1 == bits.len(),
                forall|j: int|
                    0 <= j < n ==> amp_store_elems(store)[j] < pow2(
                        width_left(widths[j] as int, level as int),
                    ),
            decreases level,
        {
            let lv = level - 1;
            let mut i: usize = 0;
            let ghost row_amps = amp_store_elems(store);
            let ghost row_pos = pos as int;
            while i < n
                invariant
                    params.wf(),
                    alloc.wf(*params),
                    widths == alloc.widths@,
                    n == widths.len(),
                    sv@ =~= bits,
                    bits.len() <= 73,
                    forall|b: int| 0 <= b < sv@.len() ==> sv@[b] < 2,
                    lv == level - 1,
                    1 <= level <= alloc.max,
                    0 <= i <= n,
                    0 <= pos <= bits.len(),
                    amp_store_elems(store).len() == n,
                    fill_row(widths, lv as int, amp_store_elems(store), bits, pos as int, i as int)
                        == fill_row(widths, lv as int, row_amps, bits, row_pos, 0),
                    fill_levels(widths, level as int, row_amps, bits, row_pos) == target,
                    target.1 == bits.len(),
                    row_amps.len() == n,
                    0 <= row_pos <= pos,
                    forall|j: int|
                        0 <= j < i ==> amp_store_elems(store)[j] < pow2(
                            width_left(widths[j] as int, lv as int),
                        ),
                    forall|j: int|
                        i <= j < n ==> amp_store_elems(store)[j] < pow2(
                            width_left(widths[j] as int, level as int),
                        ),
                decreases n - i,
            {
                if alloc.widths[i] > lv {
                    proof {
                        // The remaining computation ends at the end of the
                        // scan, and it takes at least one more bit, so the
                        // position is still inside the scan.
                        let row = fill_row(widths, lv as int, amp_store_elems(store), bits, pos as int, i as int);
                        lemma_fill_row_pos(widths, lv as int, amp_store_elems(store), bits, pos as int, i as int);
                        lemma_count_above_mono(widths, lv as int, i as int + 1, n as int);
                        assert(count_above(widths, lv as int, i as int + 1) == count_above(
                            widths,
                            lv as int,
                            i as int,
                        ) + 1);
                        assert(row.1 >= pos + 1);
                        lemma_fill_row_pos(widths, lv as int, row_amps, bits, row_pos, 0);
                        lemma_fill_levels_pos(widths, lv as int, row.0, bits, row.1);
                        lemma_count_levels_nonneg(widths, lv as int, n as int);
                        assert(target.1 >= row.1);
                        assert(pos < bits.len());
                        // The amplitude still has room for one more bit.
                        vstd::arithmetic::power2::lemma_pow2_unfold(
                            width_left(widths[i as int] as int, lv as int),
                        );
                        vstd::arithmetic::power2::lemma_pow2_strictly_increases(
                            width_left(widths[i as int] as int, lv as int),
                            11,
                        );
                        vstd::arithmetic::power2::lemma2_to64();
                    }
                    let a = amp_store_get(&store, i);
                    let bit = sv[pos];
                    pos = pos + 1;
                    amp_store_set(&mut store, i, a * 2 + bit);
                }
                i = i + 1;
            }
            level = lv;
            proof {
                assert(fill_row(widths, lv as int, amp_store_elems(store), bits, pos as int, n as int)
                    == (amp_store_elems(store), pos as int));
            }
        }
        proof {
            assert(fill_levels(widths, 0, amp_store_elems(store), bits, pos as int) == (
                amp_store_elems(store),
                pos as int,
            ));
            assert(amp_store_elems(store) == target.0);
            assert forall|j: int| 0 <= j < n implies amp_store_elems(store)[j] < pow2(
                widths[j] as nat,
            ) by {
                assert(width_left(widths[j] as int, 0) == widths[j] as nat);
            }
        }
        QuantizedAmplitudes { store }
    }

    /// Retrieve the quantized amplitude b<sub>m</sub>, 3 ≤ m ≤ L + 1.
    pub fn get(&self, m: usize) -> (r: u32)
        requires
            3 <= m,
            m - 3 < self.amps().len(),
        ensures
            r == self.amps()[m - 3],
    {
        amp_store_get(&self.store, m - 3)
    }

    /// Number of reconstructed amplitudes, L − 1.
    pub fn len(&self) -> (r: usize)
        ensures
            r == self.amps().len(),
    {
        amp_store_len(&self.store)
    }
}

/// The voicing band that harmonic l belongs to: ⌈l/3⌉, so each band covers
/// three consecutive harmonics.
pub open spec fn band_of(l: int) -> int {
    (l + 2) / 3
}

/// Whether the band bitmap b<sub>1</sub> (of K bands, most significant bit
/// first) marks the band of harmonic l as voiced. A harmonic beyond the K
/// bands has no band bit and counts as unvoiced.
pub open spec fn band_voiced(b1: nat, bands: int, l: int) -> bool {
    band_of(l) <= bands && bit_of(b1, (bands - band_of(l)) as nat) == 1
}

/// Tracks harmonic voiced/unvoiced decisions.
///
/// The decisions are initialized from the received v<sub>l</sub> band vector,
/// and then may be modified by adaptive smoothing to force certain harmonics
/// voiced.
#[derive(Clone, Copy)]
pub struct VoiceDecisions {
    /// Parameters for the current frame.
    pub params: BaseParams,
    /// The voiced/unvoiced bitmap: bit L − l set means harmonic l,
    /// 1 ≤ l ≤ L, is voiced.
    pub voiced: u64,
}

impl VoiceDecisions {
    /// The bitmap uses only the L low bits.
    pub open spec fn wf(self) -> bool {
        &&& self.params.wf()
        &&& (self.voiced as nat) < pow2(self.params.harmonics as nat)
    }

    /// Whether harmonic l is voiced: false for every l outside [1, L], and the
    /// bitmap bit L − l otherwise.
    pub open spec fn is_voiced_spec(self, l: int) -> bool {
        &&& 1 <= l <= self.params.harmonics
        &&& bit_of(self.voiced as nat, (self.params.harmonics - l) as nat) == 1
    }

    /// Create a new `VoiceDecisions` from the given band voiced/unvoiced
    /// bitmap b<sub>1</sub> and frame parameters: harmonic l is voiced exactly
    /// when its band ⌈l/3⌉ is among the K bands and that band's bit is set.
    pub fn new(voiced: u32, params: &BaseParams) -> (r: VoiceDecisions)
        requires
            params.wf(),
        ensures
            r.wf(),
            r.params == *params,
            forall|l: int|
                r.is_voiced_spec(l) == (1 <= l <= params.harmonics && band_voiced(
                    voiced as nat,
                    params.bands as int,
                    l,
                )),
    {
        let harmonics = params.harmonics;
        let bands = params.bands;
        let mut bitmap: u64 = 0;
        let mut l: u32 = 1;
        proof {
            vstd::arithmetic::power2::lemma_pow2_pos(harmonics as nat);
            vstd::arithmetic::power2::lemma_pow2_pos((harmonics - l + 1) as nat);
            vstd::arithmetic::div_mod::lemma_small_mod(0, pow2((harmonics - l + 1) as nat));
        }
        while l <= harmonics
            invariant
                params.wf(),
                harmonics == params.harmonics,
                bands == params.bands,
                1 <= l <= harmonics + 1,
                (bitmap as nat) < pow2(harmonics as nat),
                (bitmap as nat) % pow2((harmonics - l + 1) as nat) == 0,
                forall|j: int|
                    1 <= j < l ==> bit_of(bitmap as nat, (harmonics - j) as nat) == (
                    if band_voiced(voiced as nat, bands as int, j) {
                        1nat
                    } else {
                        0nat
                    }),
            decreases harmonics + 1 - l,
        {
            let p = harmonics - l;
            let band: u32 = (l + 2) / 3;
            let set = if band <= bands {
                let m = pow2_u32(bands - band);
                (voiced / m) % 2 == 1
            } else {
                false
            };
            proof {
                lemma_aligned_bit_clear(bitmap as nat, p as nat);
            }
            if set {
                let mask = pow2_u64(p as u64);
                proof {
                    lemma_bit_set(bitmap as nat, p as nat);
                    vstd::arithmetic::power2::lemma_pow2_strictly_increases(
                        harmonics as nat,
                        64,
                    );
                    vstd::arithmetic::power2::lemma2_to64();
                    vstd::arithmetic::power2::lemma2_to64_rest();
                }
                bitmap = bitmap + mask;
            }
            l = l + 1;
        }
        VoiceDecisions { params: *params, voiced: bitmap }
    }

    /// Force the given harmonic to be voiced.
    pub fn force_voiced(&mut self, l: usize)
        requires
            old(self).wf(),
            1 <= l <= old(self).params.harmonics,
        ensures
            final(self).wf(),
            final(self).params == old(self).params,
            forall|j: int|
                final(self).is_voiced_spec(j) == (old(self).is_voiced_spec(j) || j == l),
    {
        let p = self.params.harmonics - l as u32;
        let mask = pow2_u64(p as u64);
        let bit = (self.voiced / mask) % 2;
        if bit == 0 {
            proof {
                lemma_bit_set(self.voiced as nat, p as nat);
                vstd::arithmetic::power2::lemma_pow2_strictly_increases(
                    self.params.harmonics as nat,
                    64,
                );
                vstd::arithmetic::power2::lemma2_to64();
                vstd::arithmetic::power2::lemma2_to64_rest();
            }
            self.voiced = self.voiced + mask;
        }
    }

    /// Check if the given harmonic is voiced.
    pub fn is_voiced(&self, l: usize) -> (r: bool)
        requires
            self.wf(),
        ensures
            r == self.is_voiced_spec(l as int),
    {
        if l < 1 || l > self.params.harmonics as usize {
            return false;
        }
        let p = self.params.harmonics - l as u32;
        let mask = pow2_u64(p as u64);
        (self.voiced / mask) % 2 == 1
    }

    /// Number of voiced harmonics among 1, ..., l.
    pub open spec fn voiced_count(self, l: int) -> int
        decreases l,
    {
        if l <= 0 {
            0
        } else {
            self.voiced_count(l - 1) + if self.is_voiced_spec(l) {
                1int
            } else {
                0int
            }
        }
    }

    /// Compute the number of unvoiced spectral amplitudes L<sub>uv</sub>: the
    /// harmonics of the frame not marked voiced.
    pub fn unvoiced_count(&self) -> (r: u32)
        requires
            self.wf(),
        ensures
            r == self.params.harmonics - self.voiced_count(self.params.harmonics as int),
            0 <= self.voiced_count(self.params.harmonics as int) <= self.params.harmonics,
    {
        let mut count: u32 = 0;
        let mut l: u32 = 1;
        while l <= self.params.harmonics
            invariant
                self.wf(),
                1 <= l <= self.params.harmonics + 1,
                0 <= count <= l - 1,
                count == self.voiced_count(l as int - 1),
            decreases self.params.harmonics + 1 - l,
        {
            if self.is_voiced(l as usize) {
                count = count + 1;
            }
            l = l + 1;
        }
        self.params.harmonics - count
    }
}

impl Default for VoiceDecisions {
    /// Create a new `VoiceDecisions` in the default state: all harmonics
    /// unvoiced, under the default frame parameters.
    fn default() -> (r: VoiceDecisions)
        ensures
            r.wf(),
            r.params.harmonics == 30,
            r.params.bands == 10,
            forall|l: int| !r.is_voiced_spec(l),
    {
        let params = BaseParams::default();
        let r = VoiceDecisions::new(0, &params);
        proof {
            assert forall|l: int| !r.is_voiced_spec(l) by {
                if 1 <= l <= params.harmonics {
                    if band_of(l) <= params.bands {
                        vstd::arithmetic::power2::lemma_pow2_pos(
                            (params.bands - band_of(l)) as nat,
                        );
                        vstd::arithmetic::div_mod::lemma_small_mod(
                            0,
                            pow2((params.bands - band_of(l)) as nat),
                        );
                        vstd::arithmetic::div_mod::lemma_basic_div(
                            0,
                            pow2((params.bands - band_of(l)) as nat) as int,
                        );
                        assert(!band_voiced(0, params.bands as int, l));
                    }
                }
            }
        }
        r
    }
}

/// A harmonic beyond the frame's harmonic count is never voiced.
pub proof fn lemma_unvoiced_above_harmonics(voice: VoiceDecisions, l: int)
    requires
        l > voice.params.harmonics,
    ensures
        !voice.is_voiced_spec(l),
{
}

/// Descramble the given prioritized chunks u<sub>i</sub> into the underlying
/// quantized amplitudes b<sub>m</sub>, voiced/unvoiced decisions
/// v<sub>l</sub>, and initial gain index b<sub>2</sub>, under the given bit
/// allocation for the frame's harmonic count.
pub fn descramble(chunks: &Chunks, params: &BaseParams, alloc: &BitAlloc) -> (r: (
    QuantizedAmplitudes,
    VoiceDecisions,
    usize,
))
    requires
        chunks_valid(*chunks),
        params.wf(),
        alloc.wf(*params),
    ensures
        r.0.amps() == descrambled_amps(
            scan_sequence(*chunks, params.bands as int),
            alloc.widths@,
            alloc.max as int,
        ).0,
        r.0.amps().len() == params.harmonics - 1,
        forall|i: int| 0 <= i < r.0.amps().len() ==> r.0.amps()[i] < pow2(alloc.widths@[i] as nat),
        r.1.wf(),
        r.1.params == *params,
        forall|l: int|
            r.1.is_voiced_spec(l) == (1 <= l <= params.harmonics && band_voiced(
                voiced_of(*chunks, params.bands as int),
                params.bands as int,
                l,
            )),
        r.2 == gain_index_of(*chunks, idx_part_of(*chunks, params.bands as int)),
        r.2 < 64,
{
    let parts = ScanSep::new(chunks, params);
    let sc = ScanChunks::new(chunks, parts.scanned, params);
    let sb = ScanBits::new(sc);
    proof {
        lemma_scan_sequence_len(*chunks, params.bands as int);
    }
    (
        QuantizedAmplitudes::new(sb, alloc, params),
        VoiceDecisions::new(parts.voiced, params),
        gain_idx(chunks, parts.idx_part),
    )
}

} // verus!
