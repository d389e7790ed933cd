//! The sample-table reconstruction engine: from one track's decoded
//! time-to-sample, composition-offset, sample-to-chunk, sample-size,
//! sync-sample and chunk-offset tables to the ordered list of samples
//! with absolute decode and presentation times, file byte offsets,
//! sizes and sync flags.

use vstd::prelude::*;

use crate::registry::{
    Co64Data, CttsData, CttsEntry, StcoData, StscData, StscEntry, StsdData, StssData, StszData,
    SttsData, SttsEntry,
};
use crate::registry::StructuredData;
use crate::api::{find_child, spec_children, spec_find_child, BoxNode};
use vstd::string::StringSliceAdditionalSpecFns;

verus! {

/// One reconstructed sample of a track: its 0-based index, absolute
/// decode and presentation times in track-timescale units, duration,
/// signed composition offset, absolute file byte offset, size in
/// bytes, and whether it is a sync sample.
#[derive(Debug, Clone, Copy, PartialEq, Eq, Structural)]
pub struct SampleInfo {
    /// 0-based sample index.
    pub index: u32,
    /// Decode time (DTS) in track timescale units.
    pub dts: u64,
    /// Presentation time (PTS): DTS plus the composition offset.
    pub pts: u64,
    /// Duration in track timescale units.
    pub duration: u32,
    /// Composition offset in track timescale units; may be negative.
    pub rendered_offset: i64,
    /// Absolute byte offset of the sample in the file.
    pub file_offset: u64,
    /// Sample size in bytes.
    pub size: u32,
    /// Whether this sample is a sync sample (a keyframe).
    pub is_sync: bool,
}

/// The per-track aggregate of the structured sample-table decodings
/// found under one track's sample-table container.
#[derive(Debug)]
pub struct SampleTables {
    pub stsd: Option<StsdData>,
    pub stts: Option<SttsData>,
    pub ctts: Option<CttsData>,
    pub stsc: Option<StscData>,
    pub stsz: Option<StszData>,
    pub stss: Option<StssData>,
    pub stco: Option<StcoData>,
    pub co64: Option<Co64Data>,
}

/// Ghost mirror of the sample-size table.
pub struct StszS {
    pub sample_size: u32,
    pub sample_count: u32,
    pub sample_sizes: Seq<u32>,
}

/// Ghost mirror of a track's sample tables, the engine's input.
pub struct TablesS {
    pub stsd: Option<crate::registry::StsdS>,
    pub stts: Option<Seq<SttsEntry>>,
    pub ctts: Option<Seq<CttsEntry>>,
    pub stsc: Option<Seq<StscEntry>>,
    pub stsz: Option<StszS>,
    pub stss: Option<Seq<u32>>,
    pub stco: Option<Seq<u32>>,
    pub co64: Option<Seq<u64>>,
}

/// The ghost mirror of an optional sample-size table.
pub open spec fn view_stsz(o: Option<StszData>) -> Option<StszS> {
    match o {
        Some(z) => Some(
            StszS {
                sample_size: z.sample_size,
                sample_count: z.sample_count,
                sample_sizes: z.sample_sizes@,
            },
        ),
        None => None,
    }
}

/// The ghost mirror of a table aggregate.
pub open spec fn view_tables(t: SampleTables) -> TablesS {
    TablesS {
        stsd: match t.stsd {
            Some(d) => Some(
                crate::registry::StsdS {
                    version: d.version,
                    flags: d.flags,
                    entry_count: d.entry_count,
                    entries: d.entries@.map_values(
                        |e: crate::registry::SampleEntry| crate::registry::view_sample_entry(e),
                    ),
                },
            ),
            None => None,
        },
        stts: match t.stts {
            Some(d) => Some(d.entries@),
            None => None,
        },
        ctts: match t.ctts {
            Some(d) => Some(d.entries@),
            None => None,
        },
        stsc: match t.stsc {
            Some(d) => Some(d.entries@),
            None => None,
        },
        stsz: match t.stsz {
            Some(d) => Some(
                StszS {
                    sample_size: d.sample_size,
                    sample_count: d.sample_count,
                    sample_sizes: d.sample_sizes@,
                },
            ),
            None => None,
        },
        stss: match t.stss {
            Some(d) => Some(d.sample_numbers@),
            None => None,
        },
        stco: match t.stco {
            Some(d) => Some(d.chunk_offsets@),
            None => None,
        },
        co64: match t.co64 {
            Some(d) => Some(d.chunk_offsets@),
            None => None,
        },
    }
}

/// The delta of the first run-length entry whose cumulative sample
/// count exceeds `i`, if any.
pub open spec fn spec_stts_lookup(entries: Seq<SttsEntry>, i: int) -> Option<u32>
    decreases entries.len(),
{
    if entries.len() == 0 {
        None
    } else if i < entries[0].sample_count {
        Some(entries[0].sample_delta)
    } else {
        spec_stts_lookup(entries.drop_first(), i - entries[0].sample_count)
    }
}

/// The duration the time-to-sample table gives sample `i`: the delta
/// of its run-length entry, or the last entry's delta when `i` lies
/// beyond the table.
pub open spec fn spec_stts_duration(entries: Seq<SttsEntry>, i: int) -> Option<u32> {
    match spec_stts_lookup(entries, i) {
        Some(d) => Some(d),
        None => if entries.len() > 0 {
            Some(entries.last().sample_delta)
        } else {
            None
        },
    }
}

/// The synthesized placeholder duration used when no time-to-sample
/// table exists: a 24th of the timescale, or 1000 for a zero
/// timescale.
pub open spec fn spec_default_duration(timescale: u32) -> u32 {
    if timescale > 0 {
        (timescale / 24) as u32
    } else {
        1000u32
    }
}

/// The duration of sample `i`.
pub open spec fn spec_duration(stts: Option<Seq<SttsEntry>>, timescale: u32, i: int) -> u32 {
    match stts {
        Some(entries) => match spec_stts_duration(entries, i) {
            Some(d) => d,
            None => spec_default_duration(timescale),
        },
        None => spec_default_duration(timescale),
    }
}

/// The decode time of sample `i`: the running sum of the durations of
/// the samples before it.
pub open spec fn spec_dts(stts: Option<Seq<SttsEntry>>, timescale: u32, i: int) -> int
    decreases i,
{
    if i <= 0 {
        0
    } else {
        spec_dts(stts, timescale, i - 1) + spec_duration(stts, timescale, i - 1)
    }
}

/// The decode time of a sample among `i` others never reaches 2^64:
/// it is a sum of at most `i` durations of at most 32 bits each.
pub proof fn lemma_dts_bound(stts: Option<Seq<SttsEntry>>, timescale: u32, i: int)
    requires
        0 <= i,
    ensures
        0 <= spec_dts(stts, timescale, i) <= i * 0xFFFFFFFF,
    decreases i,
{
    if i > 0 {
        lemma_dts_bound(stts, timescale, i - 1);
        assert((i - 1) * 0xFFFFFFFF + 0xFFFFFFFF == i * 0xFFFFFFFF) by (nonlinear_arith);
    }
}

/// The composition offset of the first run-length entry whose
/// cumulative sample count exceeds `i`, if any.
pub open spec fn spec_ctts_lookup(entries: Seq<CttsEntry>, i: int) -> Option<i32>
    decreases entries.len(),
{
    if entries.len() == 0 {
        None
    } else if i < entries[0].sample_count {
        Some(entries[0].sample_offset)
    } else {
        spec_ctts_lookup(entries.drop_first(), i - entries[0].sample_count)
    }
}

/// The composition offset of sample `i`: zero without a table or
/// beyond it.
pub open spec fn spec_ctts_offset(ctts: Option<Seq<CttsEntry>>, i: int) -> i32 {
    match ctts {
        Some(entries) => match spec_ctts_lookup(entries, i) {
            Some(o) => o,
            None => 0,
        },
        None => 0,
    }
}

/// The presentation time: the decode time plus the signed composition
/// offset, wrapping as 64-bit arithmetic does.
pub open spec fn spec_pts(dts: u64, off: i32) -> u64 {
    let s = dts + off;
    if s < 0 {
        (s + 0x10000000000000000) as u64
    } else if s > u64::MAX {
        (s - 0x10000000000000000) as u64
    } else {
        s as u64
    }
}

/// The size of sample `i`: the uniform size when the sample-size table
/// declares one, else its entry in the per-sample array, else zero.
pub open spec fn spec_size(stsz: Option<StszS>, i: int) -> u32 {
    match stsz {
        Some(z) => {
            if z.sample_size > 0 {
                z.sample_size
            } else if i < z.sample_sizes.len() {
                z.sample_sizes[i]
            } else {
                0u32
            }
        },
        None => 0u32,
    }
}

/// Whether 1-based sample number `number` is a sync sample: listed in
/// the sync-sample table, or every sample when no table exists.
pub open spec fn spec_is_sync(stss: Option<Seq<u32>>, number: u32) -> bool {
    match stss {
        Some(numbers) => numbers.contains(number),
        None => true,
    }
}

/// Looks up the duration for a 0-based sample index in the
/// time-to-sample table, falling back to the last entry's delta for an
/// index beyond the table.
pub fn get_sample_duration_from_stts(stts: &SttsData, sample_index: u32) -> (r: Option<u32>)
    ensures
        r == spec_stts_duration(stts.entries@, sample_index as int),
{
    let n = stts.entries.len();
    let mut e: usize = 0;
    let mut acc: u64 = 0;
    proof {
        assert(stts.entries@.skip(0) =~= stts.entries@);
    }
    while e < n
        invariant
            n == stts.entries@.len(),
            e <= n,
            acc <= sample_index as u64,
            spec_stts_lookup(stts.entries@, sample_index as int) == spec_stts_lookup(
                stts.entries@.skip(e as int),
                sample_index - acc,
            ),
        decreases n - e,
    {
        let entry = &stts.entries[e];
        proof {
            assert(stts.entries@.skip(e as int)[0] == stts.entries@[e as int]);
            assert(stts.entries@.skip(e as int).drop_first() =~= stts.entries@.skip(e as int + 1));
        }
        if (sample_index as u64) < acc + entry.sample_count as u64 {
            return Some(entry.sample_delta);
        }
        acc = acc + entry.sample_count as u64;
        e = e + 1;
    }
    proof {
        assert(stts.entries@.skip(n as int) =~= Seq::<SttsEntry>::empty());
    }
    if n > 0 {
        proof {
            assert(stts.entries@.last() == stts.entries@[n - 1]);
        }
        Some(stts.entries[n - 1].sample_delta)
    } else {
        None
    }
}

/// Looks up the composition offset for a 0-based sample index in the
/// composition-offset table; an index beyond the table has offset
/// zero.
pub fn get_composition_offset_from_ctts(ctts: &CttsData, sample_index: u32) -> (r: Option<i32>)
    ensures
        r == Some(
            match spec_ctts_lookup(ctts.entries@, sample_index as int) {
                Some(o) => o,
                None => 0i32,
            },
        ),
{
    let n = ctts.entries.len();
    let mut e: usize = 0;
    let mut acc: u64 = 0;
    proof {
        assert(ctts.entries@.skip(0) =~= ctts.entries@);
    }
    while e < n
        invariant
            n == ctts.entries@.len(),
            e <= n,
            acc <= sample_index as u64,
            spec_ctts_lookup(ctts.entries@, sample_index as int) == spec_ctts_lookup(
                ctts.entries@.skip(e as int),
                sample_index - acc,
            ),
        decreases n - e,
    {
        let entry = &ctts.entries[e];
        proof {
            assert(ctts.entries@.skip(e as int)[0] == ctts.entries@[e as int]);
            assert(ctts.entries@.skip(e as int).drop_first() =~= ctts.entries@.skip(e as int + 1));
        }
        if (sample_index as u64) < acc + entry.sample_count as u64 {
            return Some(entry.sample_offset);
        }
        acc = acc + entry.sample_count as u64;
        e = e + 1;
    }
    proof {
        assert(ctts.entries@.skip(n as int) =~= Seq::<CttsEntry>::empty());
    }
    Some(0)
}

/// The size of the sample at a 0-based index, per the sample-size
/// table.
pub fn get_sample_size(stsz: &Option<StszData>, index: u32) -> (r: u32)
    ensures
        r == spec_size(view_stsz(*stsz), index as int),
{
    match stsz {
        Some(z) => {
            if z.sample_size > 0 {
                z.sample_size
            } else if (index as usize) < z.sample_sizes.len() {
                z.sample_sizes[index as usize]
            } else {
                0
            }
        },
        None => 0,
    }
}

/// Whether the 1-based sample number is a sync sample. Without a
/// sync-sample table every sample is a random-access point.
#[verifier::loop_isolation(false)]
pub fn is_sync_sample(stss: &Option<StssData>, sample_number: u32) -> (r: bool)
    ensures
        r == spec_is_sync(
            match *stss {
                Some(d) => Some(d.sample_numbers@),
                None => None,
            },
            sample_number,
        ),
{
    match stss {
        Some(d) => {
            proof {
                assert(*stss is Some);
                assert((*stss)->Some_0 == *d);
            }
            let n = d.sample_numbers.len();
            let mut i: usize = 0;
            while i < n
                invariant
                    n == d.sample_numbers@.len(),
                    i <= n,
                    forall|j: int| 0 <= j < i ==> d.sample_numbers@[j] != sample_number,
                decreases n - i,
            {
                if d.sample_numbers[i] == sample_number {
                    proof {
                        assert(d.sample_numbers@[i as int] == sample_number);
                        assert(d.sample_numbers@.contains(sample_number));
                        assert(match *stss {
                            Some(dd) => dd.sample_numbers@.contains(sample_number),
                            None => false,
                        });
                    }
                    return true;
                }
                i = i + 1;
            }
            proof {
                assert(!d.sample_numbers@.contains(sample_number));
                assert(match *stss {
                    Some(dd) => !dd.sample_numbers@.contains(sample_number),
                    None => true,
                });
            }
            false
        },
        None => true,
    }
}


/// The chunk holding global 1-based sample number `target`, walked
/// through the sample-to-chunk run-length entries: each entry covers
/// the chunks from its `first_chunk` up to the next entry's (the last
/// entry covers the remaining chunks of the chunk-offset table), at
/// `samples_per_chunk` samples each. The result is the 0-based chunk
/// index and the number of samples of that chunk before the target;
/// entries that cover no samples are skipped, and a target beyond the
/// covered samples has no chunk.
pub open spec fn spec_chunk_of(entries: Seq<StscEntry>, co_len: int, target: int) -> Option<
    (int, int),
>
    decreases entries.len(),
{
    if entries.len() == 0 {
        None
    } else {
        let e0 = entries[0];
        let chunks_raw = if entries.len() == 1 {
            co_len - (e0.first_chunk - 1)
        } else {
            entries[1].first_chunk - e0.first_chunk
        };
        let ch = if chunks_raw < 0 {
            0int
        } else {
            chunks_raw
        };
        let spc = e0.samples_per_chunk as int;
        let samples_here = ch * spc;
        if spc > 0 && 1 <= target <= samples_here {
            Some((e0.first_chunk - 1 + (target - 1) / spc, (target - 1) % spc))
        } else {
            spec_chunk_of(entries.drop_first(), co_len, target - samples_here)
        }
    }
}

/// Locates the chunk of 1-based sample number `target`.
#[verifier::loop_isolation(false)]
fn locate_chunk(entries: &Vec<StscEntry>, co_len: usize, target: u64) -> (r: Option<(i64, u32)>)
    requires
        1 <= target <= 0x100000000,
    ensures
        match r {
            Some((ci, k)) => spec_chunk_of(entries@, co_len as int, target as int) == Some(
                (ci as int, k as int),
            ) && (k as u64) < target,
            None => spec_chunk_of(entries@, co_len as int, target as int) is None,
        },
{
    let n = entries.len();
    let mut e: usize = 0;
    let mut tgt: u64 = target;
    proof {
        assert(entries@.skip(0) =~= entries@);
    }
    while e < n
        invariant
            n == entries@.len(),
            e <= n,
            1 <= tgt <= target,
            spec_chunk_of(entries@, co_len as int, target as int) == spec_chunk_of(
                entries@.skip(e as int),
                co_len as int,
                tgt as int,
            ),
        decreases n - e,
    {
        let e0 = &entries[e];
        proof {
            assert(entries@.skip(e as int)[0] == entries@[e as int]);
            if e + 1 < n {
                assert(entries@.skip(e as int)[1] == entries@[e as int + 1]);
            }
            assert(entries@.skip(e as int).drop_first() =~= entries@.skip(e as int + 1));
        }
        let chunks_raw: i128 = if e + 1 == n {
            co_len as i128 - (e0.first_chunk as i128 - 1)
        } else {
            entries[e + 1].first_chunk as i128 - e0.first_chunk as i128
        };
        let ch: i128 = if chunks_raw < 0 {
            0
        } else {
            chunks_raw
        };
        let spc = e0.samples_per_chunk;
        proof {
            assert(ch <= co_len as i128 + 0x100000000i128);
            assert((ch as int) * (spc as int) <= (co_len as int + 0x100000000int) * 0x100000000int)
                by (nonlinear_arith)
                requires
                    0 <= ch as int <= co_len as int + 0x100000000int,
                    0 <= spc as int <= 0x100000000int,
            ;
            assert((ch as int) * (spc as int) >= 0) by (nonlinear_arith)
                requires
                    0 <= ch as int,
                    0 <= spc as int,
            ;
        }
        let samples_here: i128 = ch * (spc as i128);
        if spc > 0 && (tgt as i128) <= samples_here {
            let q: u64 = (tgt - 1) / (spc as u64);
            let k: u32 = ((tgt - 1) % (spc as u64)) as u32;
            let ci: i64 = e0.first_chunk as i64 - 1 + q as i64;
            proof {
                assert((tgt - 1) as int / (spc as int) == q as int);
                assert((tgt - 1) as int % (spc as int) == k as int);
                assert((tgt - 1) as int % (spc as int) <= (tgt - 1) as int) by (nonlinear_arith)
                    requires
                        (spc as int) > 0,
                        (tgt as int) >= 1,
                ;
                assert(spec_chunk_of(entries@.skip(e as int), co_len as int, tgt as int) == Some(
                    (ci as int, k as int),
                ));
            }
            return Some((ci, k));
        }
        let ghost old_tgt = tgt;
        if samples_here > 0 {
            tgt = tgt - (samples_here as u64);
        }
        proof {
            assert(tgt as int == old_tgt as int - (if samples_here > 0 {
                samples_here as int
            } else {
                0int
            }));
            if samples_here <= 0 {
                assert(samples_here == 0);
            }
        }
        e = e + 1;
    }
    proof {
        assert(entries@.skip(n as int) =~= Seq::<StscEntry>::empty());
    }
    None
}

/// The number of chunk offsets the track carries.
pub open spec fn spec_co_len(t: TablesS) -> int {
    match t.co64 {
        Some(s) => s.len() as int,
        None => match t.stco {
            Some(s) => s.len() as int,
            None => 0,
        },
    }
}

/// The base byte offset of 0-based chunk `ci`, from whichever
/// chunk-offset table is present (the 64-bit one when both are).
pub open spec fn spec_chunk_base(t: TablesS, ci: int) -> Option<u64> {
    match t.co64 {
        Some(s) => if 0 <= ci < s.len() {
            Some(s[ci])
        } else {
            None
        },
        None => match t.stco {
            Some(s) => if 0 <= ci < s.len() {
                Some(s[ci] as u64)
            } else {
                None
            },
            None => None,
        },
    }
}

/// The sum of the sizes of samples `first0 .. first0 + k`.
pub open spec fn spec_intra_sum(stsz: Option<StszS>, first0: int, k: int) -> int
    decreases k,
{
    if k <= 0 {
        0
    } else {
        spec_intra_sum(stsz, first0, k - 1) + spec_size(stsz, first0 + k - 1)
    }
}

/// Sums the sizes of the `k` samples that precede the target inside
/// its chunk.
#[verifier::loop_isolation(false)]
fn intra_chunk_sum(stsz: &Option<StszData>, first0: u32, k: u32) -> (r: u128)
    requires
        first0 as int + k as int <= 0x100000000,
    ensures
        r as int == spec_intra_sum(view_stsz(*stsz), first0 as int, k as int),
        r <= (k as int) * 0xFFFFFFFF,
{
    let ghost zs = view_stsz(*stsz);
    let mut acc: u128 = 0;
    let mut m: u32 = 0;
    while m < k
        invariant
            m <= k,
            acc as int == spec_intra_sum(zs, first0 as int, m as int),
            acc <= (m as int) * 0xFFFFFFFF,
        decreases k - m,
    {
        let sz = get_sample_size(stsz, first0 + m);
        proof {
            assert((m as int) * 0xFFFFFFFF + 0xFFFFFFFF == (m as int + 1) * 0xFFFFFFFF)
                by (nonlinear_arith);
        }
        acc = acc + sz as u128;
        m = m + 1;
    }
    acc
}

/// The absolute file byte offset of 0-based sample `i`: the base
/// offset of its chunk plus the sizes of the earlier samples in that
/// chunk, clipped to 64 bits. Without a sample-to-chunk or a
/// chunk-offset table the documented last-resort placeholder of
/// 50000 bytes per sample stands in; a sample or chunk beyond the
/// tables has offset zero.
pub open spec fn spec_file_offset(t: TablesS, i: int) -> u64 {
    if t.stsc is None || (t.stco is None && t.co64 is None) {
        (i * 50000) as u64
    } else {
        match spec_chunk_of(t.stsc->Some_0, spec_co_len(t), i + 1) {
            None => 0u64,
            Some((ci, k)) => match spec_chunk_base(t, ci) {
                None => 0u64,
                Some(base) => {
                    let total = base + spec_intra_sum(t.stsz, i - k, k);
                    if total > u64::MAX {
                        u64::MAX
                    } else {
                        total as u64
                    }
                },
            },
        }
    }
}

/// Computes the absolute file byte offset of a 0-based sample from
/// the sample-to-chunk, chunk-offset and sample-size tables. The
/// explicit last-resort placeholder of 50000 bytes per sample is used
/// only when no sample-to-chunk or chunk-offset table exists at all.
#[verifier::loop_isolation(false)]
pub fn get_sample_file_offset(tables: &SampleTables, sample_index: u32) -> (r: u64)
    ensures
        r == spec_file_offset(view_tables(*tables), sample_index as int),
{
    let ghost t = view_tables(*tables);
    let sc = match &tables.stsc {
        Some(sc) => sc,
        None => {
            return (sample_index as u64) * 50000;
        },
    };
    let co_len: usize = match &tables.co64 {
        Some(c) => c.chunk_offsets.len(),
        None => match &tables.stco {
            Some(c) => c.chunk_offsets.len(),
            None => {
                return (sample_index as u64) * 50000;
            },
        },
    };
    proof {
        assert(t.stsc == Some(sc.entries@));
        assert(spec_co_len(t) == co_len);
    }
    let (ci, k) = match locate_chunk(&sc.entries, co_len, sample_index as u64 + 1) {
        Some(p) => p,
        None => {
            return 0;
        },
    };
    let base: u64 = match &tables.co64 {
        Some(c) => {
            if 0 <= ci && (ci as u64) < c.chunk_offsets.len() as u64 {
                c.chunk_offsets[ci as usize]
            } else {
                return 0;
            }
        },
        None => match &tables.stco {
            Some(c) => {
                if 0 <= ci && (ci as u64) < c.chunk_offsets.len() as u64 {
                    c.chunk_offsets[ci as usize] as u64
                } else {
                    return 0;
                }
            },
            None => {
                return 0;
            },
        },
    };
    proof {
        assert(spec_chunk_base(t, ci as int) == Some(base));
    }
    let first0: u32 = sample_index - k;
    let intra = intra_chunk_sum(&tables.stsz, first0, k);
    let total: u128 = base as u128 + intra;
    if total > u64::MAX as u128 {
        u64::MAX
    } else {
        total as u64
    }
}


/// The reconstructed record of 0-based sample `i`.
pub open spec fn spec_sample_info(t: TablesS, timescale: u32, i: int) -> SampleInfo {
    let dts = spec_dts(t.stts, timescale, i) as u64;
    let off = spec_ctts_offset(t.ctts, i);
    SampleInfo {
        index: i as u32,
        dts,
        pts: spec_pts(dts, off),
        duration: spec_duration(t.stts, timescale, i),
        rendered_offset: off as i64,
        file_offset: spec_file_offset(t, i),
        size: spec_size(t.stsz, i),
        is_sync: spec_is_sync(t.stss, (i + 1) as u32),
    }
}

fn wrap_pts(dts: u64, off: i32) -> (r: u64)
    ensures
        r == spec_pts(dts, off),
{
    let s: i128 = dts as i128 + off as i128;
    if s < 0 {
        (s + 0x10000000000000000i128) as u64
    } else if s > u64::MAX as i128 {
        (s - 0x10000000000000000i128) as u64
    } else {
        s as u64
    }
}

/// Builds the ordered sample records of one track from its tables and
/// media timescale.
///
/// The sample count is authoritative from the sample-size table; a
/// track without one yields an empty sequence, not an error. Decode
/// times accumulate the per-sample durations; presentation times add
/// the signed composition offsets; file offsets come from the
/// sample-to-chunk and chunk-offset tables; sync flags look the
/// 1-based sample number up in the sync-sample table.
#[verifier::loop_isolation(false)]
pub fn build_sample_info(tables: &SampleTables, timescale: u32) -> (r: Vec<SampleInfo>)
    ensures
        ({
            let t = view_tables(*tables);
            match t.stsz {
                None => r@.len() == 0,
                Some(z) => {
                    &&& r@.len() == z.sample_count
                    &&& (forall|i: int|
                        0 <= i < r@.len() ==> #[trigger] r@[i] == spec_sample_info(
                            t,
                            timescale,
                            i,
                        ))
                },
            }
        }),
{
    let ghost t = view_tables(*tables);
    let mut samples: Vec<SampleInfo> = Vec::new();
    let sample_count: u32 = match &tables.stsz {
        Some(z) => z.sample_count,
        None => {
            return samples;
        },
    };
    let default_duration: u32 = if timescale > 0 {
        timescale / 24
    } else {
        1000
    };
    let mut current_dts: u64 = 0;
    let mut i: u32 = 0;
    while i < sample_count
        invariant
            i <= sample_count,
            samples@.len() == i,
            current_dts == spec_dts(t.stts, timescale, i as int),
            forall|j: int|
                0 <= j < i ==> #[trigger] samples@[j] == spec_sample_info(t, timescale, j),
        decreases sample_count - i,
    {
        let duration: u32 = match &tables.stts {
            Some(st) => match get_sample_duration_from_stts(st, i) {
                Some(d) => d,
                None => default_duration,
            },
            None => default_duration,
        };
        let offset: i32 = match &tables.ctts {
            Some(ct) => match get_composition_offset_from_ctts(ct, i) {
                Some(o) => o,
                None => 0,
            },
            None => 0,
        };
        proof {
            lemma_dts_bound(t.stts, timescale, i as int);
            assert((i as int) * 0xFFFFFFFF + 0xFFFFFFFF == (i as int + 1) * 0xFFFFFFFF)
                by (nonlinear_arith);
            assert((i as int + 1) * 0xFFFFFFFF <= 0xFFFFFFFFint * 0xFFFFFFFF) by (nonlinear_arith)
                requires
                    i as int + 1 <= 0xFFFFFFFFint,
            ;
        }
        let pts = wrap_pts(current_dts, offset);
        let info = SampleInfo {
            index: i,
            dts: current_dts,
            pts,
            duration,
            rendered_offset: offset as i64,
            file_offset: get_sample_file_offset(tables, i),
            size: get_sample_size(&tables.stsz, i),
            is_sync: is_sync_sample(&tables.stss, i + 1),
        };
        proof {
            assert(info == spec_sample_info(t, timescale, i as int));
        }
        samples.push(info);
        current_dts = current_dts + duration as u64;
        i = i + 1;
    }
    samples
}


fn clone_vec_copy<T: Copy>(v: &Vec<T>) -> (r: Vec<T>)
    ensures
        r@ == v@,
{
    let mut out: Vec<T> = Vec::new();
    let n = v.len();
    let mut i: usize = 0;
    while i < n
        invariant
            n == v@.len(),
            i <= n,
            out@ == v@.take(i as int),
        decreases n - i,
    {
        out.push(v[i]);
        proof {
            assert(v@.take(i as int).push(v@[i as int]) =~= v@.take(i + 1));
        }
        i = i + 1;
    }
    proof {
        assert(v@.take(n as int) =~= v@);
    }
    out
}

fn clone_stts(d: &SttsData) -> (r: SttsData)
    ensures
        r.version == d.version,
        r.flags == d.flags,
        r.entry_count == d.entry_count,
        r.entries@ == d.entries@,
{
    SttsData {
        version: d.version,
        flags: d.flags,
        entry_count: d.entry_count,
        entries: clone_vec_copy(&d.entries),
    }
}

fn clone_ctts(d: &CttsData) -> (r: CttsData)
    ensures
        r.version == d.version,
        r.flags == d.flags,
        r.entry_count == d.entry_count,
        r.entries@ == d.entries@,
{
    CttsData {
        version: d.version,
        flags: d.flags,
        entry_count: d.entry_count,
        entries: clone_vec_copy(&d.entries),
    }
}

fn clone_stsc(d: &StscData) -> (r: StscData)
    ensures
        r.version == d.version,
        r.flags == d.flags,
        r.entry_count == d.entry_count,
        r.entries@ == d.entries@,
{
    StscData {
        version: d.version,
        flags: d.flags,
        entry_count: d.entry_count,
        entries: clone_vec_copy(&d.entries),
    }
}

fn clone_stsz(d: &StszData) -> (r: StszData)
    ensures
        r.version == d.version,
        r.flags == d.flags,
        r.sample_size == d.sample_size,
        r.sample_count == d.sample_count,
        r.sample_sizes@ == d.sample_sizes@,
{
    StszData {
        version: d.version,
        flags: d.flags,
        sample_size: d.sample_size,
        sample_count: d.sample_count,
        sample_sizes: clone_vec_copy(&d.sample_sizes),
    }
}

fn clone_stss(d: &StssData) -> (r: StssData)
    ensures
        r.version == d.version,
        r.flags == d.flags,
        r.entry_count == d.entry_count,
        r.sample_numbers@ == d.sample_numbers@,
{
    StssData {
        version: d.version,
        flags: d.flags,
        entry_count: d.entry_count,
        sample_numbers: clone_vec_copy(&d.sample_numbers),
    }
}

fn clone_stco(d: &StcoData) -> (r: StcoData)
    ensures
        r.version == d.version,
        r.flags == d.flags,
        r.entry_count == d.entry_count,
        r.chunk_offsets@ == d.chunk_offsets@,
{
    StcoData {
        version: d.version,
        flags: d.flags,
        entry_count: d.entry_count,
        chunk_offsets: clone_vec_copy(&d.chunk_offsets),
    }
}

fn clone_co64(d: &Co64Data) -> (r: Co64Data)
    ensures
        r.version == d.version,
        r.flags == d.flags,
        r.entry_count == d.entry_count,
        r.chunk_offsets@ == d.chunk_offsets@,
{
    Co64Data {
        version: d.version,
        flags: d.flags,
        entry_count: d.entry_count,
        chunk_offsets: clone_vec_copy(&d.chunk_offsets),
    }
}

fn clone_stsd(d: &StsdData) -> (r: StsdData)
    ensures
        r.version == d.version,
        r.flags == d.flags,
        r.entry_count == d.entry_count,
        r.entries@.map_values(
            |e: crate::registry::SampleEntry| crate::registry::view_sample_entry(e),
        ) == d.entries@.map_values(
            |e: crate::registry::SampleEntry| crate::registry::view_sample_entry(e),
        ),
{
    let mut entries: Vec<crate::registry::SampleEntry> = Vec::new();
    let n = d.entries.len();
    let mut i: usize = 0;
    while i < n
        invariant
            n == d.entries@.len(),
            i <= n,
            entries@.len() == i,
            forall|j: int|
                0 <= j < i ==> crate::registry::view_sample_entry(#[trigger] entries@[j])
                    == crate::registry::view_sample_entry(d.entries@[j]),
        decreases n - i,
    {
        let e = &d.entries[i];
        let codec: String = e.codec.clone();
        entries.push(
            crate::registry::SampleEntry {
                size: e.size,
                codec,
                data_reference_index: e.data_reference_index,
                width: e.width,
                height: e.height,
            },
        );
        i = i + 1;
    }
    let r = StsdData { version: d.version, flags: d.flags, entry_count: d.entry_count, entries };
    proof {
        assert(r.entries@.map_values(
            |e: crate::registry::SampleEntry| crate::registry::view_sample_entry(e),
        ) =~= d.entries@.map_values(
            |e: crate::registry::SampleEntry| crate::registry::view_sample_entry(e),
        ));
    }
    r
}


/// The tables collected from a run of display nodes, in order: a
/// later table of the same kind overrides an earlier one.
pub open spec fn spec_extract(ch: Seq<crate::api::BoxNode>) -> TablesS
    decreases ch.len(),
{
    if ch.len() == 0 {
        TablesS {
            stsd: None,
            stts: None,
            ctts: None,
            stsc: None,
            stsz: None,
            stss: None,
            stco: None,
            co64: None,
        }
    } else {
        let prev = spec_extract(ch.drop_last());
        match ch.last().structured_data {
            Some(StructuredData::SampleDescription(d)) => TablesS {
                stsd: Some(
                    crate::registry::StsdS {
                        version: d.version,
                        flags: d.flags,
                        entry_count: d.entry_count,
                        entries: d.entries@.map_values(
                            |e: crate::registry::SampleEntry| crate::registry::view_sample_entry(e),
                        ),
                    },
                ),
                ..prev
            },
            Some(StructuredData::DecodingTimeToSample(d)) => TablesS {
                stts: Some(d.entries@),
                ..prev
            },
            Some(StructuredData::CompositionTimeToSample(d)) => TablesS {
                ctts: Some(d.entries@),
                ..prev
            },
            Some(StructuredData::SampleToChunk(d)) => TablesS { stsc: Some(d.entries@), ..prev },
            Some(StructuredData::SampleSize(d)) => TablesS {
                stsz: Some(
                    StszS {
                        sample_size: d.sample_size,
                        sample_count: d.sample_count,
                        sample_sizes: d.sample_sizes@,
                    },
                ),
                ..prev
            },
            Some(StructuredData::SyncSample(d)) => TablesS {
                stss: Some(d.sample_numbers@),
                ..prev
            },
            Some(StructuredData::ChunkOffset(d)) => TablesS {
                stco: Some(d.chunk_offsets@),
                ..prev
            },
            Some(StructuredData::ChunkOffset64(d)) => TablesS {
                co64: Some(d.chunk_offsets@),
                ..prev
            },
            _ => prev,
        }
    }
}

/// Collects the structured sample-table decodings found among the
/// children of one sample-table container node.
#[verifier::loop_isolation(false)]
pub fn extract_sample_tables(stbl_box: &crate::api::BoxNode) -> (r: SampleTables)
    ensures
        view_tables(r) == spec_extract(crate::api::spec_children(*stbl_box)),
{
    let mut tables = SampleTables {
        stsd: None,
        stts: None,
        ctts: None,
        stsc: None,
        stsz: None,
        stss: None,
        stco: None,
        co64: None,
    };
    let kids = match &stbl_box.children {
        Some(c) => c,
        None => {
            proof {
                assert(view_tables(tables) == spec_extract(
                    crate::api::spec_children(*stbl_box),
                ));
            }
            return tables;
        },
    };
    let ghost ch = crate::api::spec_children(*stbl_box);
    let n = kids.len();
    let mut i: usize = 0;
    proof {
        assert(ch.take(0) =~= Seq::<crate::api::BoxNode>::empty());
    }
    while i < n
        invariant
            n == ch.len(),
            ch == kids@,
            i <= n,
            view_tables(tables) == spec_extract(ch.take(i as int)),
        decreases n - i,
    {
        proof {
            assert(ch.take(i + 1).drop_last() =~= ch.take(i as int));
            assert(ch.take(i + 1).last() == ch[i as int]);
        }
        match &kids[i].structured_data {
            Some(StructuredData::SampleDescription(d)) => {
                tables.stsd = Some(clone_stsd(d));
            },
            Some(StructuredData::DecodingTimeToSample(d)) => {
                tables.stts = Some(clone_stts(d));
            },
            Some(StructuredData::CompositionTimeToSample(d)) => {
                tables.ctts = Some(clone_ctts(d));
            },
            Some(StructuredData::SampleToChunk(d)) => {
                tables.stsc = Some(clone_stsc(d));
            },
            Some(StructuredData::SampleSize(d)) => {
                tables.stsz = Some(clone_stsz(d));
            },
            Some(StructuredData::SyncSample(d)) => {
                tables.stss = Some(clone_stss(d));
            },
            Some(StructuredData::ChunkOffset(d)) => {
                tables.stco = Some(clone_stco(d));
            },
            Some(StructuredData::ChunkOffset64(d)) => {
                tables.co64 = Some(clone_co64(d));
            },
            _ => {},
        }
        i = i + 1;
    }
    proof {
        assert(ch.take(n as int) =~= ch);
    }
    tables
}


/// The sample-table container of a track: the first stbl under the
/// track's first mdia and that mdia's first minf.
pub open spec fn spec_stbl(trak: BoxNode) -> Option<BoxNode> {
    match spec_find_child(spec_children(trak), "mdia"@) {
        None => None,
        Some(i) => {
            let mdia = spec_children(trak)[i];
            match spec_find_child(spec_children(mdia), "minf"@) {
                None => None,
                Some(j) => {
                    let minf = spec_children(mdia)[j];
                    match spec_find_child(spec_children(minf), "stbl"@) {
                        None => None,
                        Some(k) => Some(spec_children(minf)[k]),
                    }
                },
            }
        },
    }
}

/// Navigates to a track's sample-table container.
pub fn find_stbl_box<'a>(trak_box: &'a BoxNode) -> (r: Option<&'a BoxNode>)
    ensures
        match spec_stbl(*trak_box) {
            Some(n) => r is Some && *r->Some_0 == n,
            None => r is None,
        },
{
    let mdia = match find_child(trak_box, "mdia") {
        Some(m) => m,
        None => {
            return None;
        },
    };
    let minf = match find_child(mdia, "minf") {
        Some(m) => m,
        None => {
            return None;
        },
    };
    find_child(minf, "stbl")
}

/// The track id parsed from the tkhd child's decoded text, one when
/// it is missing.
pub open spec fn spec_track_id(trak: BoxNode) -> u32 {
    match spec_find_child(spec_children(trak), "tkhd"@) {
        None => 1u32,
        Some(i) => match spec_children(trak)[i].decoded {
            None => 1u32,
            Some(d) => match crate::fields::spec_parse_u64_field(
                vstd::utf8::encode_utf8(d@),
                "track_id=".spec_bytes(),
            ) {
                Some(v) => if v <= u32::MAX {
                    v as u32
                } else {
                    1u32
                },
                None => 1u32,
            },
        },
    }
}

/// Reads the track id from the track header's decoded text.
pub fn find_track_id(trak_box: &BoxNode) -> (r: u32)
    ensures
        r == spec_track_id(*trak_box),
{
    match find_child(trak_box, "tkhd") {
        Some(t) => match &t.decoded {
            Some(d) => match crate::fields::parse_u32_field(d.as_str(), "track_id=") {
                Some(v) => v,
                None => 1,
            },
            None => 1,
        },
        None => 1,
    }
}

/// The handler type from the media box's handler reference, a video
/// handler when it is missing.
pub open spec fn spec_media_handler(trak: BoxNode) -> Seq<char> {
    match spec_find_child(spec_children(trak), "mdia"@) {
        None => "vide"@,
        Some(i) => {
            let mdia = spec_children(trak)[i];
            match spec_find_child(spec_children(mdia), "hdlr"@) {
                None => "vide"@,
                Some(j) => match spec_children(mdia)[j].structured_data {
                    Some(StructuredData::HandlerReference(h)) => h.handler_type@,
                    _ => "vide"@,
                },
            }
        },
    }
}

/// The media timescale from the media header, 1000 when it is missing.
pub open spec fn spec_media_timescale(trak: BoxNode) -> u32 {
    match spec_find_child(spec_children(trak), "mdia"@) {
        None => 1000u32,
        Some(i) => {
            let mdia = spec_children(trak)[i];
            match spec_find_child(spec_children(mdia), "mdhd"@) {
                None => 1000u32,
                Some(j) => match spec_children(mdia)[j].structured_data {
                    Some(StructuredData::MediaHeader(m)) => m.timescale,
                    _ => 1000u32,
                },
            }
        },
    }
}

/// The media duration from the media header, zero when it is missing.
pub open spec fn spec_media_duration(trak: BoxNode) -> u64 {
    match spec_find_child(spec_children(trak), "mdia"@) {
        None => 0u64,
        Some(i) => {
            let mdia = spec_children(trak)[i];
            match spec_find_child(spec_children(mdia), "mdhd"@) {
                None => 0u64,
                Some(j) => match spec_children(mdia)[j].structured_data {
                    Some(StructuredData::MediaHeader(m)) => m.duration as u64,
                    _ => 0u64,
                },
            }
        },
    }
}

/// Reads the handler type, timescale and duration of a track's media.
pub fn find_media_info(trak_box: &BoxNode) -> (r: (String, u32, u64))
    ensures
        r.0@ == spec_media_handler(*trak_box),
        r.1 == spec_media_timescale(*trak_box),
        r.2 == spec_media_duration(*trak_box),
{
    let mut handler = String::new();
    handler.append("vide");
    proof {
        assert(handler@ =~= "vide"@);
    }
    let mut timescale: u32 = 1000;
    let mut duration: u64 = 0;
    let mdia = match find_child(trak_box, "mdia") {
        Some(m) => m,
        None => {
            return (handler, timescale, duration);
        },
    };
    match find_child(mdia, "hdlr") {
        Some(h) => match &h.structured_data {
            Some(StructuredData::HandlerReference(hd)) => {
                handler = hd.handler_type.clone();
            },
            _ => {},
        },
        None => {},
    }
    match find_child(mdia, "mdhd") {
        Some(m) => match &m.structured_data {
            Some(StructuredData::MediaHeader(md)) => {
                timescale = md.timescale;
                duration = md.duration as u64;
            },
            _ => {},
        },
        None => {},
    }
    (handler, timescale, duration)
}

/// One track's reconstructed sample timeline and its identifying
/// metadata.
#[derive(Debug, Clone, PartialEq)]
pub struct TrackSamples {
    pub track_id: u32,
    pub handler_type: String,
    pub timescale: u32,
    pub duration: u64,
    pub sample_count: u32,
    pub samples: Vec<SampleInfo>,
}

/// Reconstructs one track's samples from its subtree: the track's
/// metadata is read from its header boxes, the sample tables are
/// collected from the sample-table container, and the engine builds
/// the ordered sample records. A track without a sample-table
/// container yields nothing; one whose tables hold no samples yields
/// an empty list, not an error.
pub fn extract_track_samples(trak_box: &BoxNode) -> (r: Option<TrackSamples>)
    ensures
        match spec_stbl(*trak_box) {
            None => r is None,
            Some(sn) => match r {
                None => false,
                Some(ts) => {
                    &&& ts.track_id == spec_track_id(*trak_box)
                    &&& ts.handler_type@ == spec_media_handler(*trak_box)
                    &&& ts.timescale == spec_media_timescale(*trak_box)
                    &&& ts.duration == spec_media_duration(*trak_box)
                    &&& ts.sample_count == ts.samples@.len()
                    &&& ({
                        let t = spec_extract(spec_children(sn));
                        match t.stsz {
                            None => ts.samples@.len() == 0,
                            Some(z) => ts.samples@.len() == z.sample_count && (forall|i: int|
                                0 <= i < ts.samples@.len() ==> #[trigger] ts.samples@[i]
                                    == spec_sample_info(
                                    t,
                                    spec_media_timescale(*trak_box),
                                    i,
                                )),
                        }
                    })
                },
            },
        },
{
    let track_id = find_track_id(trak_box);
    let (handler_type, timescale, duration) = find_media_info(trak_box);
    let stbl = match find_stbl_box(trak_box) {
        Some(s) => s,
        None => {
            return None;
        },
    };
    let sample_tables = extract_sample_tables(stbl);
    let samples = build_sample_info(&sample_tables, timescale);
    let sample_count = samples.len() as u32;
    Some(
        TrackSamples {
            track_id,
            handler_type,
            timescale,
            duration,
            sample_count,
            samples,
        },
    )
}

} // verus!
