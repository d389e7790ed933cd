//! The decoder registry and the built-in payload decoders. A decoder
//! receives exactly its box's payload window with the version and
//! flags already separated out; what it returns is a function of
//! those arguments alone. A truncated mandatory count field fails the
//! one box; short optional fields degrade to a readable note.

use vstd::prelude::*;

use crate::boxes::{box_key_eq, BoxHeader, BoxKey, FourCC};
use crate::bytes::{be_u16_at, be_u32_at, be_u64_at, read_u16_at, read_u32_at, read_u64_at};
use crate::bytes::{signed16, signed32, signed64, to_signed16, to_signed32, to_signed64};
use crate::strings::{dec_str, int_str, lossy_str, push_char, push_dec_i64, push_dec_u64};
use crate::strings::{lossy_char, push_lossy_range};

verus! {

/// A value returned from a box decoder.
///
/// Decoders may return a human-readable text summary, raw bytes, or
/// structured data.
#[derive(Debug, Clone, PartialEq)]
pub enum BoxValue {
    Text(String),
    Bytes(Vec<u8>),
    Structured(StructuredData),
}

/// Structured data for the sample table boxes and the media headers.
#[derive(Debug, Clone, PartialEq)]
pub enum StructuredData {
    SampleDescription(StsdData),
    DecodingTimeToSample(SttsData),
    CompositionTimeToSample(CttsData),
    SampleToChunk(StscData),
    SampleSize(StszData),
    SyncSample(StssData),
    ChunkOffset(StcoData),
    ChunkOffset64(Co64Data),
    MediaHeader(MdhdData),
    HandlerReference(HdlrData),
}

/// Sample Description Box data.
#[derive(Debug, Clone, PartialEq)]
pub struct StsdData {
    pub version: u8,
    pub flags: u32,
    pub entry_count: u32,
    pub entries: Vec<SampleEntry>,
}

#[derive(Debug, Clone, PartialEq)]
pub struct SampleEntry {
    pub size: u32,
    pub codec: String,
    pub data_reference_index: u16,
    pub width: Option<u16>,
    pub height: Option<u16>,
}

/// Decoding Time-to-Sample Box data.
#[derive(Debug, Clone, PartialEq)]
pub struct SttsData {
    pub version: u8,
    pub flags: u32,
    pub entry_count: u32,
    pub entries: Vec<SttsEntry>,
}

#[derive(Debug, Clone, Copy, PartialEq, Eq, Structural)]
pub struct SttsEntry {
    pub sample_count: u32,
    pub sample_delta: u32,
}

/// Composition Time-to-Sample Box data.
#[derive(Debug, Clone, PartialEq)]
pub struct CttsData {
    pub version: u8,
    pub flags: u32,
    pub entry_count: u32,
    pub entries: Vec<CttsEntry>,
}

#[derive(Debug, Clone, Copy, PartialEq, Eq, Structural)]
pub struct CttsEntry {
    pub sample_count: u32,
    pub sample_offset: i32,
}

/// Sample-to-Chunk Box data.
#[derive(Debug, Clone, PartialEq)]
pub struct StscData {
    pub version: u8,
    pub flags: u32,
    pub entry_count: u32,
    pub entries: Vec<StscEntry>,
}

#[derive(Debug, Clone, Copy, PartialEq, Eq, Structural)]
pub struct StscEntry {
    pub first_chunk: u32,
    pub samples_per_chunk: u32,
    pub sample_description_index: u32,
}

/// Sample Size Box data. `sample_sizes` is empty when `sample_size` is
/// non-zero: every sample then has that uniform size.
#[derive(Debug, Clone, PartialEq)]
pub struct StszData {
    pub version: u8,
    pub flags: u32,
    pub sample_size: u32,
    pub sample_count: u32,
    pub sample_sizes: Vec<u32>,
}

/// Sync Sample Box data: 1-based sample numbers of the sync samples.
#[derive(Debug, Clone, PartialEq)]
pub struct StssData {
    pub version: u8,
    pub flags: u32,
    pub entry_count: u32,
    pub sample_numbers: Vec<u32>,
}

/// Chunk Offset Box data.
#[derive(Debug, Clone, PartialEq)]
pub struct StcoData {
    pub version: u8,
    pub flags: u32,
    pub entry_count: u32,
    pub chunk_offsets: Vec<u32>,
}

/// 64-bit Chunk Offset Box data.
#[derive(Debug, Clone, PartialEq)]
pub struct Co64Data {
    pub version: u8,
    pub flags: u32,
    pub entry_count: u32,
    pub chunk_offsets: Vec<u64>,
}

/// Media Header Box data.
#[derive(Debug, Clone, PartialEq)]
pub struct MdhdData {
    pub version: u8,
    pub flags: u32,
    pub creation_time: u32,
    pub modification_time: u32,
    pub timescale: u32,
    pub duration: u32,
    pub language: String,
}

/// Handler Reference Box data.
#[derive(Debug, Clone, PartialEq)]
pub struct HdlrData {
    pub version: u8,
    pub flags: u32,
    pub handler_type: String,
    pub name: String,
}

/// An error from a box decoder: a mandatory field could not be read
/// from the payload it was handed.
#[derive(Debug, Clone, Copy, PartialEq, Eq, Structural)]
pub enum DecodeError {
    ShortPayload,
}

impl DecodeError {
    /// A short description of the error.
    pub fn message(&self) -> (r: String)
        ensures
            r@ == "short payload"@,
    {
        let mut s = String::new();
        s.append("short payload");
        proof {
            assert(s@ =~= "short payload"@);
        }
        s
    }
}

/// Ghost mirror of a sample description entry.
pub struct SampleEntryS {
    pub size: u32,
    pub codec: Seq<char>,
    pub data_reference_index: u16,
    pub width: Option<u16>,
    pub height: Option<u16>,
}

/// Ghost mirror of the Sample Description Box data.
pub struct StsdS {
    pub version: u8,
    pub flags: u32,
    pub entry_count: u32,
    pub entries: Seq<SampleEntryS>,
}

/// Ghost mirror of the Media Header Box data.
pub struct MdhdS {
    pub version: u8,
    pub flags: u32,
    pub creation_time: u32,
    pub modification_time: u32,
    pub timescale: u32,
    pub duration: u32,
    pub language: Seq<char>,
}

/// Ghost mirror of the Handler Reference Box data.
pub struct HdlrS {
    pub version: u8,
    pub flags: u32,
    pub handler_type: Seq<char>,
    pub name: Seq<char>,
}

/// Ghost mirror of a structured decoded value.
pub enum StructuredS {
    SampleDescription(StsdS),
    DecodingTimeToSample { version: u8, flags: u32, entry_count: u32, entries: Seq<SttsEntry> },
    CompositionTimeToSample { version: u8, flags: u32, entry_count: u32, entries: Seq<CttsEntry> },
    SampleToChunk { version: u8, flags: u32, entry_count: u32, entries: Seq<StscEntry> },
    SampleSize {
        version: u8,
        flags: u32,
        sample_size: u32,
        sample_count: u32,
        sample_sizes: Seq<u32>,
    },
    SyncSample { version: u8, flags: u32, entry_count: u32, sample_numbers: Seq<u32> },
    ChunkOffset { version: u8, flags: u32, entry_count: u32, chunk_offsets: Seq<u32> },
    ChunkOffset64 { version: u8, flags: u32, entry_count: u32, chunk_offsets: Seq<u64> },
    MediaHeader(MdhdS),
    HandlerReference(HdlrS),
}

/// Ghost mirror of a decoded value.
pub enum DecodedS {
    Text(Seq<char>),
    Bytes(Seq<u8>),
    Structured(StructuredS),
}

pub open spec fn view_sample_entry(e: SampleEntry) -> SampleEntryS {
    SampleEntryS {
        size: e.size,
        codec: e.codec@,
        data_reference_index: e.data_reference_index,
        width: e.width,
        height: e.height,
    }
}

pub open spec fn view_structured(d: StructuredData) -> StructuredS {
    match d {
        StructuredData::SampleDescription(x) => StructuredS::SampleDescription(
            StsdS {
                version: x.version,
                flags: x.flags,
                entry_count: x.entry_count,
                entries: x.entries@.map_values(|e: SampleEntry| view_sample_entry(e)),
            },
        ),
        StructuredData::DecodingTimeToSample(x) => StructuredS::DecodingTimeToSample {
            version: x.version,
            flags: x.flags,
            entry_count: x.entry_count,
            entries: x.entries@,
        },
        StructuredData::CompositionTimeToSample(x) => StructuredS::CompositionTimeToSample {
            version: x.version,
            flags: x.flags,
            entry_count: x.entry_count,
            entries: x.entries@,
        },
        StructuredData::SampleToChunk(x) => StructuredS::SampleToChunk {
            version: x.version,
            flags: x.flags,
            entry_count: x.entry_count,
            entries: x.entries@,
        },
        StructuredData::SampleSize(x) => StructuredS::SampleSize {
            version: x.version,
            flags: x.flags,
            sample_size: x.sample_size,
            sample_count: x.sample_count,
            sample_sizes: x.sample_sizes@,
        },
        StructuredData::SyncSample(x) => StructuredS::SyncSample {
            version: x.version,
            flags: x.flags,
            entry_count: x.entry_count,
            sample_numbers: x.sample_numbers@,
        },
        StructuredData::ChunkOffset(x) => StructuredS::ChunkOffset {
            version: x.version,
            flags: x.flags,
            entry_count: x.entry_count,
            chunk_offsets: x.chunk_offsets@,
        },
        StructuredData::ChunkOffset64(x) => StructuredS::ChunkOffset64 {
            version: x.version,
            flags: x.flags,
            entry_count: x.entry_count,
            chunk_offsets: x.chunk_offsets@,
        },
        StructuredData::MediaHeader(x) => StructuredS::MediaHeader(
            MdhdS {
                version: x.version,
                flags: x.flags,
                creation_time: x.creation_time,
                modification_time: x.modification_time,
                timescale: x.timescale,
                duration: x.duration,
                language: x.language@,
            },
        ),
        StructuredData::HandlerReference(x) => StructuredS::HandlerReference(
            HdlrS {
                version: x.version,
                flags: x.flags,
                handler_type: x.handler_type@,
                name: x.name@,
            },
        ),
    }
}

pub open spec fn view_value(v: BoxValue) -> DecodedS {
    match v {
        BoxValue::Text(s) => DecodedS::Text(s@),
        BoxValue::Bytes(b) => DecodedS::Bytes(b@),
        BoxValue::Structured(d) => DecodedS::Structured(view_structured(d)),
    }
}

pub open spec fn view_decode_result(r: Result<BoxValue, DecodeError>) -> Result<
    DecodedS,
    DecodeError,
> {
    match r {
        Ok(v) => Ok(view_value(v)),
        Err(e) => Err(e),
    }
}

/// A box payload decoder.
///
/// A decoder interprets the payload of a specific box type. It
/// receives the payload window only — never the bytes of a sibling —
/// together with the box header for context and, for versioned boxes,
/// the version and flags already separated out by the tree builder, so
/// a decoder never re-parses version or flags itself. What a decoder
/// returns is a function of those arguments alone, stated by its
/// `spec_decode`: decoding the same payload twice yields the same
/// value.
pub trait BoxDecoder {
    /// What this decoder returns for a given payload. A decoder that
    /// does not state its own result is specified as always failing.
    open spec fn spec_decode(
        &self,
        payload: Seq<u8>,
        hdr: BoxHeader,
        version: Option<u8>,
        flags: Option<u32>,
    ) -> Result<DecodedS, DecodeError> {
        Err(DecodeError::ShortPayload)
    }

    /// Decodes the payload of one box.
    fn decode(
        &self,
        payload: &[u8],
        hdr: &BoxHeader,
        version: Option<u8>,
        flags: Option<u32>,
    ) -> (r: Result<BoxValue, DecodeError>)
        ensures
            view_decode_result(r) == self.spec_decode(payload@, *hdr, version, flags),
    ;
}

/// The decoder that a key selects: the first entry with that key,
/// newest registrations first.
pub open spec fn spec_lookup<D>(entries: Seq<(BoxKey, D)>, key: BoxKey) -> Option<D>
    decreases entries.len(),
{
    if entries.len() == 0 {
        None
    } else if box_key_eq(entries[0].0, key) {
        Some(entries[0].1)
    } else {
        spec_lookup(entries.drop_first(), key)
    }
}

/// Registry of decoders keyed by a four-character code or a UUID.
///
/// The registry is built fluently with `with_decoder` and is immutable
/// afterwards; registering a key again overrides the earlier decoder
/// for that key.
pub struct Registry<D> {
    entries: Vec<(BoxKey, D)>,
}

impl<D: BoxDecoder> Registry<D> {
    /// The entries, for contracts: newest registration first.
    pub closed spec fn spec_entries(&self) -> Seq<(BoxKey, D)> {
        self.entries@
    }

    /// Creates an empty registry.
    pub fn new() -> (r: Self)
        ensures
            r.spec_entries() == Seq::<(BoxKey, D)>::empty(),
    {
        Registry { entries: Vec::new() }
    }

    /// Returns the registry with the given decoder added; an earlier
    /// decoder for the same key is overridden. `name` is a
    /// human-readable label for callers' bookkeeping; the registry
    /// does not interpret it.
    pub fn with_decoder(self, key: BoxKey, name: &str, dec: D) -> (r: Self)
        ensures
            forall|k: BoxKey|
                #![trigger spec_lookup(r.spec_entries(), k)]
                spec_lookup(r.spec_entries(), k) == (if box_key_eq(key, k) {
                    Some(dec)
                } else {
                    spec_lookup(self.spec_entries(), k)
                }),
    {
        let mut entries = self.entries;
        entries.insert(0, (key, dec));
        let r = Registry { entries };
        proof {
            assert forall|k: BoxKey| spec_lookup(r.spec_entries(), k) == (if box_key_eq(key, k) {
                Some(dec)
            } else {
                spec_lookup(self.spec_entries(), k)
            }) by {
                assert(r.spec_entries()[0] == (key, dec));
                assert(r.spec_entries().drop_first() =~= self.spec_entries());
            }
        }
        r
    }

    /// Tries to decode the payload of a box using a registered
    /// decoder.
    ///
    /// Returns `None` exactly when no decoder exists for the given
    /// key; a decode failure is a `Some(Err(..))`, always
    /// distinguishable from decoder absence.
    pub fn decode(
        &self,
        key: &BoxKey,
        payload: &[u8],
        hdr: &BoxHeader,
        version: Option<u8>,
        flags: Option<u32>,
    ) -> (r: Option<Result<BoxValue, DecodeError>>)
        ensures
            match spec_lookup(self.spec_entries(), *key) {
                None => r is None,
                Some(d) => {
                    &&& r is Some
                    &&& view_decode_result(r->Some_0) == d.spec_decode(
                        payload@,
                        *hdr,
                        version,
                        flags,
                    )
                },
            },
    {
        let n = self.entries.len();
        let mut i: usize = 0;
        proof {
            assert(self.spec_entries().skip(0) =~= self.spec_entries());
        }
        while i < n
            invariant
                n == self.entries@.len(),
                i <= n,
                spec_lookup(self.spec_entries(), *key) == spec_lookup(
                    self.spec_entries().skip(i as int),
                    *key,
                ),
            decreases n - i,
        {
            let e = &self.entries[i];
            proof {
                assert(self.spec_entries().skip(i as int)[0] == self.spec_entries()[i as int]);
            }
            if e.0.eq(key) {
                let res = e.1.decode(payload, hdr, version, flags);
                return Some(res);
            }
            proof {
                assert(self.spec_entries().skip(i as int).drop_first() =~= self.spec_entries().skip(
                    i as int + 1,
                ));
            }
            i = i + 1;
        }
        proof {
            assert(self.spec_entries().skip(n as int) =~= Seq::<(BoxKey, D)>::empty());
        }
        None
    }
}


/// The version that the tree builder handed over, or zero when the box
/// carried none.
pub open spec fn spec_opt_u8(v: Option<u8>) -> u8 {
    match v {
        Some(x) => x,
        None => 0,
    }
}

/// The flags that the tree builder handed over, or zero when the box
/// carried none.
pub open spec fn spec_opt_u32(v: Option<u32>) -> u32 {
    match v {
        Some(x) => x,
        None => 0,
    }
}

fn opt_u8(v: Option<u8>) -> (r: u8)
    ensures
        r == spec_opt_u8(v),
{
    match v {
        Some(x) => x,
        None => 0,
    }
}

fn opt_u32(v: Option<u32>) -> (r: u32)
    ensures
        r == spec_opt_u32(v),
{
    match v {
        Some(x) => x,
        None => 0,
    }
}

/// The time-to-sample table decoded from an stts payload: an entry
/// count, then `(sample_count, sample_delta)` pairs.
pub open spec fn spec_stts_decode(p: Seq<u8>, version: Option<u8>, flags: Option<u32>) -> Result<
    DecodedS,
    DecodeError,
> {
    if p.len() < 4 {
        Err(DecodeError::ShortPayload)
    } else {
        let n = be_u32_at(p, 0);
        if 4 + 8 * (n as int) > p.len() {
            Err(DecodeError::ShortPayload)
        } else {
            Ok(
                DecodedS::Structured(
                    StructuredS::DecodingTimeToSample {
                        version: spec_opt_u8(version),
                        flags: spec_opt_u32(flags),
                        entry_count: n,
                        entries: Seq::new(
                            n as nat,
                            |i: int|
                                SttsEntry {
                                    sample_count: be_u32_at(p, 4 + 8 * i),
                                    sample_delta: be_u32_at(p, 8 + 8 * i),
                                },
                        ),
                    },
                ),
            )
        }
    }
}

/// Decoder for the Decoding Time-to-Sample Box (stts).
#[derive(Debug, Clone, Copy)]
pub struct SttsDecoder;

impl BoxDecoder for SttsDecoder {
    open spec fn spec_decode(
        &self,
        payload: Seq<u8>,
        hdr: BoxHeader,
        version: Option<u8>,
        flags: Option<u32>,
    ) -> Result<DecodedS, DecodeError> {
        spec_stts_decode(payload, version, flags)
    }

    fn decode(
        &self,
        payload: &[u8],
        hdr: &BoxHeader,
        version: Option<u8>,
        flags: Option<u32>,
    ) -> (r: Result<BoxValue, DecodeError>)
        ensures
            view_decode_result(r) == self.spec_decode(payload@, *hdr, version, flags),
    {
        if payload.len() < 4 {
            return Err(DecodeError::ShortPayload);
        }
        let n = read_u32_at(payload, 0);
        if (n as u64) * 8 + 4 > payload.len() as u64 {
            return Err(DecodeError::ShortPayload);
        }
        let count = n as usize;
        let mut entries: Vec<SttsEntry> = Vec::new();
        let mut i: usize = 0;
        while i < count
            invariant
                count == n,
                payload@.len() <= usize::MAX,
                4 + 8 * (n as int) <= payload@.len(),
                i <= count,
                entries@.len() == i,
                forall|j: int|
                    0 <= j < i ==> entries@[j] == (SttsEntry {
                        sample_count: be_u32_at(payload@, 4 + 8 * j),
                        sample_delta: be_u32_at(payload@, 8 + 8 * j),
                    }),
            decreases count - i,
        {
            entries.push(
                SttsEntry {
                    sample_count: read_u32_at(payload, 4 + 8 * i),
                    sample_delta: read_u32_at(payload, 8 + 8 * i),
                },
            );
            i = i + 1;
        }
        let data = SttsData {
            version: opt_u8(version),
            flags: opt_u32(flags),
            entry_count: n,
            entries,
        };
        let r = Ok(BoxValue::Structured(StructuredData::DecodingTimeToSample(data)));
        proof {
            assert(data.entries@ =~= (Seq::new(
                n as nat,
                |i: int|
                    SttsEntry {
                        sample_count: be_u32_at(payload@, 4 + 8 * i),
                        sample_delta: be_u32_at(payload@, 8 + 8 * i),
                    },
            )));
        }
        r
    }
}


/// Sync Sample Box table: an entry count, then the 1-based sample numbers of the sync samples.
pub open spec fn spec_stss_decode(p: Seq<u8>, version: Option<u8>, flags: Option<u32>) -> Result<
    DecodedS,
    DecodeError,
> {
    if p.len() < 4 {
        Err(DecodeError::ShortPayload)
    } else {
        let n = be_u32_at(p, 0);
        if 4 + 4 * (n as int) > p.len() {
            Err(DecodeError::ShortPayload)
        } else {
            Ok(
                DecodedS::Structured(
                    StructuredS::SyncSample {
                        version: spec_opt_u8(version),
                        flags: spec_opt_u32(flags),
                        entry_count: n,
                        sample_numbers: Seq::new(n as nat, |j: int| be_u32_at(p, 4 + 4 * j)),
                    },
                ),
            )
        }
    }
}

/// Decoder for the Sync Sample Box (stss).
#[derive(Debug, Clone, Copy)]
pub struct StssDecoder;

impl BoxDecoder for StssDecoder {
    open spec fn spec_decode(
        &self,
        payload: Seq<u8>,
        hdr: BoxHeader,
        version: Option<u8>,
        flags: Option<u32>,
    ) -> Result<DecodedS, DecodeError> {
        spec_stss_decode(payload, version, flags)
    }

    fn decode(
        &self,
        payload: &[u8],
        hdr: &BoxHeader,
        version: Option<u8>,
        flags: Option<u32>,
    ) -> (r: Result<BoxValue, DecodeError>)
        ensures
            view_decode_result(r) == self.spec_decode(payload@, *hdr, version, flags),
    {
        if payload.len() < 4 {
            return Err(DecodeError::ShortPayload);
        }
        let n = read_u32_at(payload, 0);
        if (n as u64) * 4 + 4 > payload.len() as u64 {
            return Err(DecodeError::ShortPayload);
        }
        let count = n as usize;
        let mut items: Vec<u32> = Vec::new();
        let mut i: usize = 0;
        while i < count
            invariant
                count == n,
                payload@.len() <= usize::MAX,
                4 + 4 * (n as int) <= payload@.len(),
                i <= count,
                items@.len() == i,
                forall|j: int| 0 <= j < i ==> items@[j] == (be_u32_at(payload@, 4 + 4 * j)),
            decreases count - i,
        {
            items.push(read_u32_at(payload, 4 + 4 * i));
            i = i + 1;
        }
        let data = StssData {
            version: opt_u8(version),
            flags: opt_u32(flags),
            entry_count: n,
            sample_numbers: items,
        };
        let r = Ok(BoxValue::Structured(StructuredData::SyncSample(data)));
        proof {
            assert(data.sample_numbers@ =~= (Seq::new(n as nat, |j: int| be_u32_at(payload@, 4 + 4 * j))));
        }
        r
    }
}

/// Composition Time-to-Sample Box table: an entry count, then pairs of a sample count and a signed composition offset.
pub open spec fn spec_ctts_decode(p: Seq<u8>, version: Option<u8>, flags: Option<u32>) -> Result<
    DecodedS,
    DecodeError,
> {
    if p.len() < 4 {
        Err(DecodeError::ShortPayload)
    } else {
        let n = be_u32_at(p, 0);
        if 4 + 8 * (n as int) > p.len() {
            Err(DecodeError::ShortPayload)
        } else {
            Ok(
                DecodedS::Structured(
                    StructuredS::CompositionTimeToSample {
                        version: spec_opt_u8(version),
                        flags: spec_opt_u32(flags),
                        entry_count: n,
                        entries: Seq::new(n as nat, |j: int| CttsEntry { sample_count: be_u32_at(p, 4 + 8 * j), sample_offset: to_signed32(be_u32_at(p, 8 + 8 * j)) }),
                    },
                ),
            )
        }
    }
}

/// Decoder for the Composition Time-to-Sample Box (ctts).
#[derive(Debug, Clone, Copy)]
pub struct CttsDecoder;

impl BoxDecoder for CttsDecoder {
    open spec fn spec_decode(
        &self,
        payload: Seq<u8>,
        hdr: BoxHeader,
        version: Option<u8>,
        flags: Option<u32>,
    ) -> Result<DecodedS, DecodeError> {
        spec_ctts_decode(payload, version, flags)
    }

    fn decode(
        &self,
        payload: &[u8],
        hdr: &BoxHeader,
        version: Option<u8>,
        flags: Option<u32>,
    ) -> (r: Result<BoxValue, DecodeError>)
        ensures
            view_decode_result(r) == self.spec_decode(payload@, *hdr, version, flags),
    {
        if payload.len() < 4 {
            return Err(DecodeError::ShortPayload);
        }
        let n = read_u32_at(payload, 0);
        if (n as u64) * 8 + 4 > payload.len() as u64 {
            return Err(DecodeError::ShortPayload);
        }
        let count = n as usize;
        let mut items: Vec<CttsEntry> = Vec::new();
        let mut i: usize = 0;
        while i < count
            invariant
                count == n,
                payload@.len() <= usize::MAX,
                4 + 8 * (n as int) <= payload@.len(),
                i <= count,
                items@.len() == i,
                forall|j: int| 0 <= j < i ==> items@[j] == (CttsEntry { sample_count: be_u32_at(payload@, 4 + 8 * j), sample_offset: to_signed32(be_u32_at(payload@, 8 + 8 * j)) }),
            decreases count - i,
        {
            items.push(CttsEntry { sample_count: read_u32_at(payload, 4 + 8 * i), sample_offset: signed32(read_u32_at(payload, 8 + 8 * i)) });
            i = i + 1;
        }
        let data = CttsData {
            version: opt_u8(version),
            flags: opt_u32(flags),
            entry_count: n,
            entries: items,
        };
        let r = Ok(BoxValue::Structured(StructuredData::CompositionTimeToSample(data)));
        proof {
            assert(data.entries@ =~= (Seq::new(n as nat, |j: int| CttsEntry { sample_count: be_u32_at(payload@, 4 + 8 * j), sample_offset: to_signed32(be_u32_at(payload@, 8 + 8 * j)) })));
        }
        r
    }
}

/// Sample-to-Chunk Box table: an entry count, then triples of a first chunk number, a samples-per-chunk value and a sample description index.
pub open spec fn spec_stsc_decode(p: Seq<u8>, version: Option<u8>, flags: Option<u32>) -> Result<
    DecodedS,
    DecodeError,
> {
    if p.len() < 4 {
        Err(DecodeError::ShortPayload)
    } else {
        let n = be_u32_at(p, 0);
        if 4 + 12 * (n as int) > p.len() {
            Err(DecodeError::ShortPayload)
        } else {
            Ok(
                DecodedS::Structured(
                    StructuredS::SampleToChunk {
                        version: spec_opt_u8(version),
                        flags: spec_opt_u32(flags),
                        entry_count: n,
                        entries: Seq::new(n as nat, |j: int| StscEntry { first_chunk: be_u32_at(p, 4 + 12 * j), samples_per_chunk: be_u32_at(p, 8 + 12 * j), sample_description_index: be_u32_at(p, 12 + 12 * j) }),
                    },
                ),
            )
        }
    }
}

/// Decoder for the Sample-to-Chunk Box (stsc).
#[derive(Debug, Clone, Copy)]
pub struct StscDecoder;

impl BoxDecoder for StscDecoder {
    open spec fn spec_decode(
        &self,
        payload: Seq<u8>,
        hdr: BoxHeader,
        version: Option<u8>,
        flags: Option<u32>,
    ) -> Result<DecodedS, DecodeError> {
        spec_stsc_decode(payload, version, flags)
    }

    fn decode(
        &self,
        payload: &[u8],
        hdr: &BoxHeader,
        version: Option<u8>,
        flags: Option<u32>,
    ) -> (r: Result<BoxValue, DecodeError>)
        ensures
            view_decode_result(r) == self.spec_decode(payload@, *hdr, version, flags),
    {
        if payload.len() < 4 {
            return Err(DecodeError::ShortPayload);
        }
        let n = read_u32_at(payload, 0);
        if (n as u64) * 12 + 4 > payload.len() as u64 {
            return Err(DecodeError::ShortPayload);
        }
        let count = n as usize;
        let mut items: Vec<StscEntry> = Vec::new();
        let mut i: usize = 0;
        while i < count
            invariant
                count == n,
                payload@.len() <= usize::MAX,
                4 + 12 * (n as int) <= payload@.len(),
                i <= count,
                items@.len() == i,
                forall|j: int| 0 <= j < i ==> items@[j] == (StscEntry { first_chunk: be_u32_at(payload@, 4 + 12 * j), samples_per_chunk: be_u32_at(payload@, 8 + 12 * j), sample_description_index: be_u32_at(payload@, 12 + 12 * j) }),
            decreases count - i,
        {
            items.push(StscEntry { first_chunk: read_u32_at(payload, 4 + 12 * i), samples_per_chunk: read_u32_at(payload, 8 + 12 * i), sample_description_index: read_u32_at(payload, 12 + 12 * i) });
            i = i + 1;
        }
        let data = StscData {
            version: opt_u8(version),
            flags: opt_u32(flags),
            entry_count: n,
            entries: items,
        };
        let r = Ok(BoxValue::Structured(StructuredData::SampleToChunk(data)));
        proof {
            assert(data.entries@ =~= (Seq::new(n as nat, |j: int| StscEntry { first_chunk: be_u32_at(payload@, 4 + 12 * j), samples_per_chunk: be_u32_at(payload@, 8 + 12 * j), sample_description_index: be_u32_at(payload@, 12 + 12 * j) })));
        }
        r
    }
}

/// Chunk Offset Box table: an entry count, then 32-bit absolute chunk offsets.
pub open spec fn spec_stco_decode(p: Seq<u8>, version: Option<u8>, flags: Option<u32>) -> Result<
    DecodedS,
    DecodeError,
> {
    if p.len() < 4 {
        Err(DecodeError::ShortPayload)
    } else {
        let n = be_u32_at(p, 0);
        if 4 + 4 * (n as int) > p.len() {
            Err(DecodeError::ShortPayload)
        } else {
            Ok(
                DecodedS::Structured(
                    StructuredS::ChunkOffset {
                        version: spec_opt_u8(version),
                        flags: spec_opt_u32(flags),
                        entry_count: n,
                        chunk_offsets: Seq::new(n as nat, |j: int| be_u32_at(p, 4 + 4 * j)),
                    },
                ),
            )
        }
    }
}

/// Decoder for the Chunk Offset Box (stco).
#[derive(Debug, Clone, Copy)]
pub struct StcoDecoder;

impl BoxDecoder for StcoDecoder {
    open spec fn spec_decode(
        &self,
        payload: Seq<u8>,
        hdr: BoxHeader,
        version: Option<u8>,
        flags: Option<u32>,
    ) -> Result<DecodedS, DecodeError> {
        spec_stco_decode(payload, version, flags)
    }

    fn decode(
        &self,
        payload: &[u8],
        hdr: &BoxHeader,
        version: Option<u8>,
        flags: Option<u32>,
    ) -> (r: Result<BoxValue, DecodeError>)
        ensures
            view_decode_result(r) == self.spec_decode(payload@, *hdr, version, flags),
    {
        if payload.len() < 4 {
            return Err(DecodeError::ShortPayload);
        }
        let n = read_u32_at(payload, 0);
        if (n as u64) * 4 + 4 > payload.len() as u64 {
            return Err(DecodeError::ShortPayload);
        }
        let count = n as usize;
        let mut items: Vec<u32> = Vec::new();
        let mut i: usize = 0;
        while i < count
            invariant
                count == n,
                payload@.len() <= usize::MAX,
                4 + 4 * (n as int) <= payload@.len(),
                i <= count,
                items@.len() == i,
                forall|j: int| 0 <= j < i ==> items@[j] == (be_u32_at(payload@, 4 + 4 * j)),
            decreases count - i,
        {
            items.push(read_u32_at(payload, 4 + 4 * i));
            i = i + 1;
        }
        let data = StcoData {
            version: opt_u8(version),
            flags: opt_u32(flags),
            entry_count: n,
            chunk_offsets: items,
        };
        let r = Ok(BoxValue::Structured(StructuredData::ChunkOffset(data)));
        proof {
            assert(data.chunk_offsets@ =~= (Seq::new(n as nat, |j: int| be_u32_at(payload@, 4 + 4 * j))));
        }
        r
    }
}

/// 64-bit Chunk Offset Box table: an entry count, then 64-bit absolute chunk offsets.
pub open spec fn spec_co64_decode(p: Seq<u8>, version: Option<u8>, flags: Option<u32>) -> Result<
    DecodedS,
    DecodeError,
> {
    if p.len() < 4 {
        Err(DecodeError::ShortPayload)
    } else {
        let n = be_u32_at(p, 0);
        if 4 + 8 * (n as int) > p.len() {
            Err(DecodeError::ShortPayload)
        } else {
            Ok(
                DecodedS::Structured(
                    StructuredS::ChunkOffset64 {
                        version: spec_opt_u8(version),
                        flags: spec_opt_u32(flags),
                        entry_count: n,
                        chunk_offsets: Seq::new(n as nat, |j: int| be_u64_at(p, 4 + 8 * j)),
                    },
                ),
            )
        }
    }
}

/// Decoder for the 64-bit Chunk Offset Box (co64).
#[derive(Debug, Clone, Copy)]
pub struct Co64Decoder;

impl BoxDecoder for Co64Decoder {
    open spec fn spec_decode(
        &self,
        payload: Seq<u8>,
        hdr: BoxHeader,
        version: Option<u8>,
        flags: Option<u32>,
    ) -> Result<DecodedS, DecodeError> {
        spec_co64_decode(payload, version, flags)
    }

    fn decode(
        &self,
        payload: &[u8],
        hdr: &BoxHeader,
        version: Option<u8>,
        flags: Option<u32>,
    ) -> (r: Result<BoxValue, DecodeError>)
        ensures
            view_decode_result(r) == self.spec_decode(payload@, *hdr, version, flags),
    {
        if payload.len() < 4 {
            return Err(DecodeError::ShortPayload);
        }
        let n = read_u32_at(payload, 0);
        if (n as u64) * 8 + 4 > payload.len() as u64 {
            return Err(DecodeError::ShortPayload);
        }
        let count = n as usize;
        let mut items: Vec<u64> = Vec::new();
        let mut i: usize = 0;
        while i < count
            invariant
                count == n,
                payload@.len() <= usize::MAX,
                4 + 8 * (n as int) <= payload@.len(),
                i <= count,
                items@.len() == i,
                forall|j: int| 0 <= j < i ==> items@[j] == (be_u64_at(payload@, 4 + 8 * j)),
            decreases count - i,
        {
            items.push(read_u64_at(payload, 4 + 8 * i));
            i = i + 1;
        }
        let data = Co64Data {
            version: opt_u8(version),
            flags: opt_u32(flags),
            entry_count: n,
            chunk_offsets: items,
        };
        let r = Ok(BoxValue::Structured(StructuredData::ChunkOffset64(data)));
        proof {
            assert(data.chunk_offsets@ =~= (Seq::new(n as nat, |j: int| be_u64_at(payload@, 4 + 8 * j))));
        }
        r
    }
}

/// The sample sizes decoded from an stsz payload: a uniform size and a
/// sample count; when the uniform size is zero, one size per sample
/// follows.
pub open spec fn spec_stsz_decode(p: Seq<u8>, version: Option<u8>, flags: Option<u32>) -> Result<
    DecodedS,
    DecodeError,
> {
    if p.len() < 8 {
        Err(DecodeError::ShortPayload)
    } else {
        let sample_size = be_u32_at(p, 0);
        let n = be_u32_at(p, 4);
        if sample_size == 0 && 8 + 4 * (n as int) > p.len() {
            Err(DecodeError::ShortPayload)
        } else {
            Ok(
                DecodedS::Structured(
                    StructuredS::SampleSize {
                        version: spec_opt_u8(version),
                        flags: spec_opt_u32(flags),
                        sample_size,
                        sample_count: n,
                        sample_sizes: if sample_size == 0 {
                            Seq::new(n as nat, |j: int| be_u32_at(p, 8 + 4 * j))
                        } else {
                            Seq::empty()
                        },
                    },
                ),
            )
        }
    }
}

/// Decoder for the Sample Size Box (stsz).
#[derive(Debug, Clone, Copy)]
pub struct StszDecoder;

impl BoxDecoder for StszDecoder {
    open spec fn spec_decode(
        &self,
        payload: Seq<u8>,
        hdr: BoxHeader,
        version: Option<u8>,
        flags: Option<u32>,
    ) -> Result<DecodedS, DecodeError> {
        spec_stsz_decode(payload, version, flags)
    }

    fn decode(
        &self,
        payload: &[u8],
        hdr: &BoxHeader,
        version: Option<u8>,
        flags: Option<u32>,
    ) -> (r: Result<BoxValue, DecodeError>)
        ensures
            view_decode_result(r) == self.spec_decode(payload@, *hdr, version, flags),
    {
        if payload.len() < 8 {
            return Err(DecodeError::ShortPayload);
        }
        let sample_size = read_u32_at(payload, 0);
        let n = read_u32_at(payload, 4);
        let mut items: Vec<u32> = Vec::new();
        if sample_size == 0 {
            if (n as u64) * 4 + 8 > payload.len() as u64 {
                return Err(DecodeError::ShortPayload);
            }
            let count = n as usize;
            let mut i: usize = 0;
            while i < count
                invariant
                    count == n,
                    payload@.len() <= usize::MAX,
                    8 + 4 * (n as int) <= payload@.len(),
                    i <= count,
                    items@.len() == i,
                    forall|j: int| 0 <= j < i ==> items@[j] == be_u32_at(payload@, 8 + 4 * j),
                decreases count - i,
            {
                items.push(read_u32_at(payload, 8 + 4 * i));
                i = i + 1;
            }
        }
        let data = StszData {
            version: opt_u8(version),
            flags: opt_u32(flags),
            sample_size,
            sample_count: n,
            sample_sizes: items,
        };
        let r = Ok(BoxValue::Structured(StructuredData::SampleSize(data)));
        proof {
            if sample_size == 0 {
                assert(data.sample_sizes@ =~= (Seq::new(
                    n as nat,
                    |j: int| be_u32_at(payload@, 8 + 4 * j),
                )));
            } else {
                assert(data.sample_sizes@ =~= Seq::<u32>::empty());
            }
        }
        r
    }
}


/// The note a decoder reports when a payload is shorter than the
/// box's fixed fields.
pub open spec fn short_text(prefix: Seq<char>, n: nat) -> Seq<char> {
    prefix + ": payload too short ("@ + dec_str(n) + " bytes)"@
}

fn push_short_text(out: &mut String, n: usize)
    ensures
        final(out)@ == old(out)@ + ": payload too short ("@ + dec_str(n as nat) + " bytes)"@,
{
    out.append(": payload too short (");
    push_dec_u64(out, n as u64);
    out.append(" bytes)");
    proof {
        assert(final(out)@ =~= old(out)@ + ": payload too short ("@ + dec_str(n as nat)
            + " bytes)"@);
    }
}

/// The language code unpacked from its packed 16-bit form: three
/// characters of five bits each, offset from 0x60; the all-zero code
/// is the literal token for an undefined language.
pub open spec fn lang_text(code: u16) -> Seq<char> {
    if code == 0 {
        "und"@
    } else {
        seq![
            ((0x60 + ((code / 1024) % 32)) as u8) as char,
            ((0x60 + ((code / 32) % 32)) as u8) as char,
            ((0x60 + (code % 32)) as u8) as char,
        ]
    }
}

fn lang_from_u16(code: u16) -> (r: String)
    ensures
        r@ == lang_text(code),
{
    if code == 0 {
        let mut s = String::new();
        s.append("und");
        proof {
            assert(s@ =~= "und"@);
        }
        s
    } else {
        let mut s = String::new();
        push_char(&mut s, ((0x60 + ((code / 1024) % 32)) as u8) as char);
        push_char(&mut s, ((0x60 + ((code / 32) % 32)) as u8) as char);
        push_char(&mut s, ((0x60 + (code % 32)) as u8) as char);
        proof {
            assert(s@ =~= lang_text(code));
        }
        s
    }
}

/// The media header decoded from an mdhd payload: creation and
/// modification times, timescale, duration and the packed language
/// code. A payload shorter than those fixed fields degrades to a
/// short-payload note instead of an error.
pub open spec fn spec_mdhd_decode(p: Seq<u8>, version: Option<u8>, flags: Option<u32>) -> Result<
    DecodedS,
    DecodeError,
> {
    if p.len() < 20 {
        Ok(DecodedS::Text(short_text("mdhd"@, p.len())))
    } else {
        Ok(
            DecodedS::Structured(
                StructuredS::MediaHeader(
                    MdhdS {
                        version: spec_opt_u8(version),
                        flags: spec_opt_u32(flags),
                        creation_time: be_u32_at(p, 0),
                        modification_time: be_u32_at(p, 4),
                        timescale: be_u32_at(p, 8),
                        duration: be_u32_at(p, 12),
                        language: lang_text(be_u16_at(p, 16)),
                    },
                ),
            ),
        )
    }
}

/// Decoder for the Media Header Box (mdhd).
#[derive(Debug, Clone, Copy)]
pub struct MdhdDecoder;

impl BoxDecoder for MdhdDecoder {
    open spec fn spec_decode(
        &self,
        payload: Seq<u8>,
        hdr: BoxHeader,
        version: Option<u8>,
        flags: Option<u32>,
    ) -> Result<DecodedS, DecodeError> {
        spec_mdhd_decode(payload, version, flags)
    }

    fn decode(
        &self,
        payload: &[u8],
        hdr: &BoxHeader,
        version: Option<u8>,
        flags: Option<u32>,
    ) -> (r: Result<BoxValue, DecodeError>)
        ensures
            view_decode_result(r) == self.spec_decode(payload@, *hdr, version, flags),
    {
        if payload.len() < 20 {
            let mut s = String::new();
            s.append("mdhd");
            push_short_text(&mut s, payload.len());
            proof {
                assert(s@ =~= short_text("mdhd"@, payload@.len()));
            }
            return Ok(BoxValue::Text(s));
        }
        let data = MdhdData {
            version: opt_u8(version),
            flags: opt_u32(flags),
            creation_time: read_u32_at(payload, 0),
            modification_time: read_u32_at(payload, 4),
            timescale: read_u32_at(payload, 8),
            duration: read_u32_at(payload, 12),
            language: lang_from_u16(read_u16_at(payload, 16)),
        };
        Ok(BoxValue::Structured(StructuredData::MediaHeader(data)))
    }
}

/// A byte sequence with its trailing zero bytes removed.
pub open spec fn strip_trailing_zeros(s: Seq<u8>) -> Seq<u8>
    decreases s.len(),
{
    if s.len() > 0 && s.last() == 0 {
        strip_trailing_zeros(s.drop_last())
    } else {
        s
    }
}

/// The handler reference decoded from an hdlr payload: the handler
/// type code and the trailing name with its padding zero bytes
/// removed, both rendered ASCII-lossy.
pub open spec fn spec_hdlr_decode(p: Seq<u8>, version: Option<u8>, flags: Option<u32>) -> Result<
    DecodedS,
    DecodeError,
> {
    if p.len() < 20 {
        Err(DecodeError::ShortPayload)
    } else {
        Ok(
            DecodedS::Structured(
                StructuredS::HandlerReference(
                    HdlrS {
                        version: spec_opt_u8(version),
                        flags: spec_opt_u32(flags),
                        handler_type: lossy_str(p.subrange(4, 8)),
                        name: lossy_str(strip_trailing_zeros(p.subrange(20, p.len() as int))),
                    },
                ),
            ),
        )
    }
}

/// Decoder for the Handler Reference Box (hdlr).
#[derive(Debug, Clone, Copy)]
pub struct HdlrDecoder;

impl BoxDecoder for HdlrDecoder {
    open spec fn spec_decode(
        &self,
        payload: Seq<u8>,
        hdr: BoxHeader,
        version: Option<u8>,
        flags: Option<u32>,
    ) -> Result<DecodedS, DecodeError> {
        spec_hdlr_decode(payload, version, flags)
    }

    fn decode(
        &self,
        payload: &[u8],
        hdr: &BoxHeader,
        version: Option<u8>,
        flags: Option<u32>,
    ) -> (r: Result<BoxValue, DecodeError>)
        ensures
            view_decode_result(r) == self.spec_decode(payload@, *hdr, version, flags),
    {
        let plen = payload.len();
        if plen < 20 {
            return Err(DecodeError::ShortPayload);
        }
        let mut handler_type = String::new();
        push_lossy_range(&mut handler_type, payload, 4, 8);
        let mut end: usize = plen;
        while end > 20 && payload[end - 1] == 0
            invariant
                20 <= end <= plen,
                plen == payload@.len(),
                strip_trailing_zeros(payload@.subrange(20, plen as int)) == strip_trailing_zeros(
                    payload@.subrange(20, end as int),
                ),
            decreases end,
        {
            proof {
                assert(payload@.subrange(20, end as int).drop_last() =~= payload@.subrange(
                    20,
                    end - 1,
                ));
            }
            end = end - 1;
        }
        proof {
            assert(strip_trailing_zeros(payload@.subrange(20, end as int)) == payload@.subrange(
                20,
                end as int,
            ));
        }
        let mut name = String::new();
        push_lossy_range(&mut name, payload, 20, end);
        let data = HdlrData {
            version: opt_u8(version),
            flags: opt_u32(flags),
            handler_type,
            name,
        };
        Ok(BoxValue::Structured(StructuredData::HandlerReference(data)))
    }
}

/// The four-character codes of the visual sample entries whose fixed
/// layout carries a width and height.
pub open spec fn visual_codec(c: Seq<u8>) -> bool {
    ||| c == seq![97u8, 118u8, 99u8, 49u8]  // avc1
    ||| c == seq![104u8, 118u8, 99u8, 49u8]  // hvc1
    ||| c == seq![104u8, 101u8, 118u8, 49u8]  // hev1
    ||| c == seq![118u8, 112u8, 48u8, 57u8]  // vp09
    ||| c == seq![97u8, 118u8, 48u8, 49u8]  // av01
}


/// The sample description decoded from an stsd payload: the entry
/// count and a summary of the first sample entry — its codec code and,
/// for the visual sample entries, the width and height read from the
/// fixed visual layout. Only the first entry is summarized; its size
/// and data reference index are not tracked.
pub open spec fn spec_stsd_decode(p: Seq<u8>, version: Option<u8>, flags: Option<u32>) -> Result<
    DecodedS,
    DecodeError,
> {
    if p.len() < 4 {
        Err(DecodeError::ShortPayload)
    } else {
        let n = be_u32_at(p, 0);
        if n == 0 {
            Ok(DecodedS::Text("entry_count=0"@))
        } else if p.len() < 12 {
            Err(DecodeError::ShortPayload)
        } else {
            let codec = p.subrange(8, 12);
            if visual_codec(codec) {
                if p.len() < 40 {
                    Err(DecodeError::ShortPayload)
                } else {
                    Ok(
                        DecodedS::Structured(
                            StructuredS::SampleDescription(
                                StsdS {
                                    version: 0,
                                    flags: 0,
                                    entry_count: n,
                                    entries: seq![
                                        SampleEntryS {
                                            size: 0,
                                            codec: lossy_str(codec),
                                            data_reference_index: 1,
                                            width: Some(be_u16_at(p, 36)),
                                            height: Some(be_u16_at(p, 38)),
                                        },
                                    ],
                                },
                            ),
                        ),
                    )
                }
            } else {
                Ok(
                    DecodedS::Structured(
                        StructuredS::SampleDescription(
                            StsdS {
                                version: 0,
                                flags: 0,
                                entry_count: n,
                                entries: seq![
                                    SampleEntryS {
                                        size: 0,
                                        codec: lossy_str(codec),
                                        data_reference_index: 1,
                                        width: None,
                                        height: None,
                                    },
                                ],
                            },
                        ),
                    ),
                )
            }
        }
    }
}

/// Decoder for the Sample Description Box (stsd).
#[derive(Debug, Clone, Copy)]
pub struct StsdDecoder;

impl BoxDecoder for StsdDecoder {
    open spec fn spec_decode(
        &self,
        payload: Seq<u8>,
        hdr: BoxHeader,
        version: Option<u8>,
        flags: Option<u32>,
    ) -> Result<DecodedS, DecodeError> {
        spec_stsd_decode(payload, version, flags)
    }

    fn decode(
        &self,
        payload: &[u8],
        hdr: &BoxHeader,
        version: Option<u8>,
        flags: Option<u32>,
    ) -> (r: Result<BoxValue, DecodeError>)
        ensures
            view_decode_result(r) == self.spec_decode(payload@, *hdr, version, flags),
    {
        if payload.len() < 4 {
            return Err(DecodeError::ShortPayload);
        }
        let n = read_u32_at(payload, 0);
        if n == 0 {
            let mut s = String::new();
            s.append("entry_count=0");
            proof {
                assert(s@ =~= "entry_count=0"@);
            }
            return Ok(BoxValue::Text(s));
        }
        if payload.len() < 12 {
            return Err(DecodeError::ShortPayload);
        }
        let c0 = payload[8];
        let c1 = payload[9];
        let c2 = payload[10];
        let c3 = payload[11];
        let visual = (c0 == 97 && c1 == 118 && c2 == 99 && c3 == 49) || (c0 == 104 && c1 == 118
            && c2 == 99 && c3 == 49) || (c0 == 104 && c1 == 101 && c2 == 118 && c3 == 49) || (c0
            == 118 && c1 == 112 && c2 == 48 && c3 == 57) || (c0 == 97 && c1 == 118 && c2 == 48
            && c3 == 49);
        proof {
            if visual {
                assert(visual_codec(payload@.subrange(8, 12))) by {
                    assert(payload@.subrange(8, 12) =~= seq![c0, c1, c2, c3]);
                }
            } else {
                assert(!visual_codec(payload@.subrange(8, 12))) by {
                    assert(payload@.subrange(8, 12) =~= seq![c0, c1, c2, c3]);
                }
            }
        }
        let mut codec = String::new();
        push_lossy_range(&mut codec, payload, 8, 12);
        let entry: SampleEntry = if visual {
            if payload.len() < 40 {
                return Err(DecodeError::ShortPayload);
            }
            SampleEntry {
                size: 0,
                codec,
                data_reference_index: 1,
                width: Some(read_u16_at(payload, 36)),
                height: Some(read_u16_at(payload, 38)),
            }
        } else {
            SampleEntry { size: 0, codec, data_reference_index: 1, width: None, height: None }
        };
        let mut entries: Vec<SampleEntry> = Vec::new();
        entries.push(entry);
        let data = StsdData { version: 0, flags: 0, entry_count: n, entries };
        let r = Ok(BoxValue::Structured(StructuredData::SampleDescription(data)));
        proof {
            assert(data.entries@.map_values(|e: SampleEntry| view_sample_entry(e)) =~= seq![
                view_sample_entry(data.entries@[0]),
            ]);
        }
        r
    }
}


/// One brand, quoted.
pub open spec fn quoted_brand(b: Seq<u8>) -> Seq<char> {
    "\""@ + lossy_str(b) + "\""@
}

/// The comma-separated quoted brands.
pub open spec fn brands_inner(items: Seq<Seq<u8>>) -> Seq<char>
    decreases items.len(),
{
    if items.len() == 0 {
        Seq::empty()
    } else if items.len() == 1 {
        quoted_brand(items[0])
    } else {
        quoted_brand(items[0]) + ", "@ + brands_inner(items.drop_first())
    }
}

proof fn lemma_brands_inner_snoc(items: Seq<Seq<u8>>, x: Seq<u8>)
    ensures
        brands_inner(items.push(x)) == if items.len() == 0 {
            quoted_brand(x)
        } else {
            brands_inner(items) + ", "@ + quoted_brand(x)
        },
    decreases items.len(),
{
    let sb = items.push(x);
    if items.len() == 0 {
        assert(sb[0] == x);
    } else {
        assert(sb[0] == items[0]);
        assert(sb.drop_first() =~= items.drop_first().push(x));
        lemma_brands_inner_snoc(items.drop_first(), x);
        if items.len() == 1 {
            assert(brands_inner(sb) =~= brands_inner(items) + ", "@ + quoted_brand(x));
        } else {
            assert(brands_inner(sb) =~= brands_inner(items) + ", "@ + quoted_brand(x));
        }
    }
}

/// The compatible brands carried after the fixed ftyp fields: each
/// full four-byte group is one brand.
pub open spec fn ftyp_brands(p: Seq<u8>) -> Seq<Seq<u8>> {
    Seq::new(((p.len() - 8) / 4) as nat, |i: int| p.subrange(8 + 4 * i, 12 + 4 * i))
}

/// The text decoded from an ftyp payload: the major brand, the minor
/// version, and the list of compatible brands in order.
pub open spec fn spec_ftyp_decode(p: Seq<u8>, version: Option<u8>, flags: Option<u32>) -> Result<
    DecodedS,
    DecodeError,
> {
    if p.len() < 8 {
        Ok(DecodedS::Text(short_text("ftyp"@, p.len())))
    } else {
        Ok(
            DecodedS::Text(
                "major="@ + lossy_str(p.subrange(0, 4)) + " minor="@ + dec_str(
                    be_u32_at(p, 4) as nat,
                ) + " compatible=["@ + brands_inner(ftyp_brands(p)) + "]"@,
            ),
        )
    }
}

/// Decoder for the File Type Box (ftyp).
#[derive(Debug, Clone, Copy)]
pub struct FtypDecoder;

impl BoxDecoder for FtypDecoder {
    open spec fn spec_decode(
        &self,
        payload: Seq<u8>,
        hdr: BoxHeader,
        version: Option<u8>,
        flags: Option<u32>,
    ) -> Result<DecodedS, DecodeError> {
        spec_ftyp_decode(payload, version, flags)
    }

    fn decode(
        &self,
        payload: &[u8],
        hdr: &BoxHeader,
        version: Option<u8>,
        flags: Option<u32>,
    ) -> (r: Result<BoxValue, DecodeError>)
        ensures
            view_decode_result(r) == self.spec_decode(payload@, *hdr, version, flags),
    {
        let plen = payload.len();
        if plen < 8 {
            let mut s = String::new();
            s.append("ftyp");
            push_short_text(&mut s, plen);
            proof {
                assert(s@ =~= short_text("ftyp"@, payload@.len()));
            }
            return Ok(BoxValue::Text(s));
        }
        let mut s = String::new();
        s.append("major=");
        push_lossy_range(&mut s, payload, 0, 4);
        s.append(" minor=");
        push_dec_u64(&mut s, read_u32_at(payload, 4) as u64);
        s.append(" compatible=[");
        let ghost brands = ftyp_brands(payload@);
        let k: usize = (plen - 8) / 4;
        proof {
            assert(brands.len() == k);
            assert(brands.take(0) =~= Seq::<Seq<u8>>::empty());
        }
        let ghost mid = s@;
        let mut i: usize = 0;
        while i < k
            invariant
                k == (payload@.len() - 8) / 4,
                8 + 4 * (k as int) <= payload@.len(),
                payload@.len() <= usize::MAX,
                brands == ftyp_brands(payload@),
                brands.len() == k,
                i <= k,
                s@ == mid + brands_inner(brands.take(i as int)),
            decreases k - i,
        {
            if i > 0 {
                s.append(", ");
            }
            s.append("\"");
            push_lossy_range(&mut s, payload, 8 + 4 * i, 12 + 4 * i);
            s.append("\"");
            proof {
                assert(brands[i as int] == payload@.subrange(8 + 4 * (i as int), 12 + 4 * (
                i as int)));
                assert(brands.take(i as int).push(brands[i as int]) =~= brands.take(i + 1));
                lemma_brands_inner_snoc(brands.take(i as int), brands[i as int]);
                assert(s@ =~= mid + brands_inner(brands.take(i + 1)));
            }
            i = i + 1;
        }
        s.append("]");
        proof {
            assert(brands.take(k as int) =~= brands);
            assert(s@ =~= "major="@ + lossy_str(payload@.subrange(0, 4)) + " minor="@ + dec_str(
                be_u32_at(payload@, 4) as nat,
            ) + " compatible=["@ + brands_inner(ftyp_brands(payload@)) + "]"@);
        }
        Ok(BoxValue::Text(s))
    }
}


/// The movie-timing text: a timescale and a duration.
pub open spec fn timing_text(ts: u32, dur: u64) -> Seq<char> {
    "timescale="@ + dec_str(ts as nat) + " duration="@ + dec_str(dur as nat)
}

/// The text decoded from an mvhd payload: the movie timescale and
/// duration, whose positions and widths follow the box's version. A
/// payload shorter than those fields degrades to a short-payload note.
pub open spec fn spec_mvhd_decode(p: Seq<u8>, version: Option<u8>, flags: Option<u32>) -> Result<
    DecodedS,
    DecodeError,
> {
    let v = spec_opt_u8(version);
    if v == 1 {
        if p.len() < 28 {
            Ok(DecodedS::Text(short_text("mvhd"@, p.len())))
        } else {
            Ok(DecodedS::Text(timing_text(be_u32_at(p, 16), be_u64_at(p, 20))))
        }
    } else {
        if p.len() < 16 {
            Ok(DecodedS::Text(short_text("mvhd"@, p.len())))
        } else {
            Ok(DecodedS::Text(timing_text(be_u32_at(p, 8), be_u32_at(p, 12) as u64)))
        }
    }
}

/// Decoder for the Movie Header Box (mvhd).
#[derive(Debug, Clone, Copy)]
pub struct MvhdDecoder;

impl BoxDecoder for MvhdDecoder {
    open spec fn spec_decode(
        &self,
        payload: Seq<u8>,
        hdr: BoxHeader,
        version: Option<u8>,
        flags: Option<u32>,
    ) -> Result<DecodedS, DecodeError> {
        spec_mvhd_decode(payload, version, flags)
    }

    fn decode(
        &self,
        payload: &[u8],
        hdr: &BoxHeader,
        version: Option<u8>,
        flags: Option<u32>,
    ) -> (r: Result<BoxValue, DecodeError>)
        ensures
            view_decode_result(r) == self.spec_decode(payload@, *hdr, version, flags),
    {
        let v = opt_u8(version);
        let plen = payload.len();
        let need: usize = if v == 1 {
            28
        } else {
            16
        };
        if plen < need {
            let mut s = String::new();
            s.append("mvhd");
            push_short_text(&mut s, plen);
            proof {
                assert(s@ =~= short_text("mvhd"@, payload@.len()));
            }
            return Ok(BoxValue::Text(s));
        }
        let (ts, dur): (u32, u64) = if v == 1 {
            (read_u32_at(payload, 16), read_u64_at(payload, 20))
        } else {
            (read_u32_at(payload, 8), read_u32_at(payload, 12) as u64)
        };
        let mut s = String::new();
        s.append("timescale=");
        push_dec_u64(&mut s, ts as u64);
        s.append(" duration=");
        push_dec_u64(&mut s, dur);
        proof {
            assert(s@ =~= timing_text(ts, dur));
        }
        Ok(BoxValue::Text(s))
    }
}

/// The segment-index summary text.
pub open spec fn sidx_text(ts: u32, earliest: u64, first: u64, refs: u16) -> Seq<char> {
    "timescale="@ + dec_str(ts as nat) + " earliest_presentation_time="@ + dec_str(earliest as nat)
        + " first_offset="@ + dec_str(first as nat) + " references="@ + dec_str(refs as nat)
}

/// The text decoded from a sidx payload: the timescale, the earliest
/// presentation time and first offset (whose widths follow the box's
/// version) and the reference count. A payload shorter than those
/// fields degrades to a short-payload note.
pub open spec fn spec_sidx_decode(p: Seq<u8>, version: Option<u8>, flags: Option<u32>) -> Result<
    DecodedS,
    DecodeError,
> {
    let v = spec_opt_u8(version);
    if v == 1 {
        if p.len() < 28 {
            Ok(DecodedS::Text(short_text("sidx"@, p.len())))
        } else {
            Ok(
                DecodedS::Text(
                    sidx_text(be_u32_at(p, 4), be_u64_at(p, 8), be_u64_at(p, 16), be_u16_at(p, 26)),
                ),
            )
        }
    } else {
        if p.len() < 20 {
            Ok(DecodedS::Text(short_text("sidx"@, p.len())))
        } else {
            Ok(
                DecodedS::Text(
                    sidx_text(
                        be_u32_at(p, 4),
                        be_u32_at(p, 8) as u64,
                        be_u32_at(p, 12) as u64,
                        be_u16_at(p, 18),
                    ),
                ),
            )
        }
    }
}

/// Decoder for the Segment Index Box (sidx).
#[derive(Debug, Clone, Copy)]
pub struct SidxDecoder;

impl BoxDecoder for SidxDecoder {
    open spec fn spec_decode(
        &self,
        payload: Seq<u8>,
        hdr: BoxHeader,
        version: Option<u8>,
        flags: Option<u32>,
    ) -> Result<DecodedS, DecodeError> {
        spec_sidx_decode(payload, version, flags)
    }

    fn decode(
        &self,
        payload: &[u8],
        hdr: &BoxHeader,
        version: Option<u8>,
        flags: Option<u32>,
    ) -> (r: Result<BoxValue, DecodeError>)
        ensures
            view_decode_result(r) == self.spec_decode(payload@, *hdr, version, flags),
    {
        let v = opt_u8(version);
        let plen = payload.len();
        let need: usize = if v == 1 {
            28
        } else {
            20
        };
        if plen < need {
            let mut s = String::new();
            s.append("sidx");
            push_short_text(&mut s, plen);
            proof {
                assert(s@ =~= short_text("sidx"@, payload@.len()));
            }
            return Ok(BoxValue::Text(s));
        }
        let ts = read_u32_at(payload, 4);
        let (earliest, first, refs): (u64, u64, u16) = if v == 1 {
            (read_u64_at(payload, 8), read_u64_at(payload, 16), read_u16_at(payload, 26))
        } else {
            (
                read_u32_at(payload, 8) as u64,
                read_u32_at(payload, 12) as u64,
                read_u16_at(payload, 18),
            )
        };
        let mut s = String::new();
        s.append("timescale=");
        push_dec_u64(&mut s, ts as u64);
        s.append(" earliest_presentation_time=");
        push_dec_u64(&mut s, earliest);
        s.append(" first_offset=");
        push_dec_u64(&mut s, first);
        s.append(" references=");
        push_dec_u64(&mut s, refs as u64);
        proof {
            assert(s@ =~= sidx_text(ts, earliest, first, refs));
        }
        Ok(BoxValue::Text(s))
    }
}


/// The track text reported when the payload ends before the width and
/// height fields.
pub open spec fn tkhd_short_text(track: u32, dur: u64) -> Seq<char> {
    "track_id="@ + dec_str(track as nat) + " duration="@ + dec_str(dur as nat)
        + " (no width/height, short payload)"@
}

/// The full track text. The width and height are 16.16 fixed-point
/// values; the integer part is shown.
pub open spec fn tkhd_full_text(track: u32, dur: u64, w: u32, h: u32) -> Seq<char> {
    "track_id="@ + dec_str(track as nat) + " duration="@ + dec_str(dur as nat) + " width="@
        + dec_str((w / 65536) as nat) + " height="@ + dec_str((h / 65536) as nat)
}

/// The tail of the tkhd layout after the track id and duration: two
/// reserved words, an eight-byte layer block, the 36-byte matrix, then
/// the width and height. Each field advances the position only when
/// the payload still covers it, exactly as the decoder reads.
pub open spec fn spec_tkhd_tail(p: Seq<u8>, track: u32, dur: u64, pos: int) -> Result<
    DecodedS,
    DecodeError,
> {
    let len = p.len() as int;
    let p4 = if pos + 4 <= len {
        pos + 4
    } else {
        pos
    };
    let p5 = if p4 + 4 <= len {
        p4 + 4
    } else {
        p4
    };
    if p5 + 8 > len {
        Ok(DecodedS::Text(tkhd_short_text(track, dur)))
    } else if p5 + 8 + 36 > len {
        Ok(DecodedS::Text(tkhd_short_text(track, dur)))
    } else if p5 + 8 + 36 + 8 > len {
        Ok(DecodedS::Text(tkhd_short_text(track, dur)))
    } else {
        Ok(
            DecodedS::Text(
                tkhd_full_text(track, dur, be_u32_at(p, p5 + 44), be_u32_at(p, p5 + 48)),
            ),
        )
    }
}

/// The text decoded from a tkhd payload: the track id and duration
/// (whose widths follow the box's version), then, when the payload
/// still covers them, the width and height. Missing trailing fields
/// degrade the text; only a payload too short for the leading
/// timestamps is reported as truncated.
pub open spec fn spec_tkhd_decode(p: Seq<u8>, version: Option<u8>, flags: Option<u32>) -> Result<
    DecodedS,
    DecodeError,
> {
    let v = spec_opt_u8(version);
    let len = p.len() as int;
    if v == 1 {
        if len < 16 {
            Ok(DecodedS::Text("tkhd: truncated creation/modification"@))
        } else {
            let (track, p1) = if 20 <= len {
                (be_u32_at(p, 16), 20int)
            } else {
                (0u32, 16int)
            };
            let p2 = if p1 + 4 <= len {
                p1 + 4
            } else {
                p1
            };
            let (dur, p3) = if p2 + 8 <= len {
                (be_u64_at(p, p2), p2 + 8)
            } else {
                (0u64, p2)
            };
            spec_tkhd_tail(p, track, dur, p3)
        }
    } else {
        if len < 8 {
            Ok(DecodedS::Text("tkhd: truncated creation/modification"@))
        } else {
            let (track, p1) = if 12 <= len {
                (be_u32_at(p, 8), 12int)
            } else {
                (0u32, 8int)
            };
            let p2 = if p1 + 4 <= len {
                p1 + 4
            } else {
                p1
            };
            let (dur, p3) = if p2 + 4 <= len {
                (be_u32_at(p, p2) as u64, p2 + 4)
            } else {
                (0u64, p2)
            };
            spec_tkhd_tail(p, track, dur, p3)
        }
    }
}

/// Decoder for the Track Header Box (tkhd).
#[derive(Debug, Clone, Copy)]
pub struct TkhdDecoder;

fn push_tkhd_short(track: u32, dur: u64) -> (r: String)
    ensures
        r@ == tkhd_short_text(track, dur),
{
    let mut s = String::new();
    s.append("track_id=");
    push_dec_u64(&mut s, track as u64);
    s.append(" duration=");
    push_dec_u64(&mut s, dur);
    s.append(" (no width/height, short payload)");
    proof {
        assert(s@ =~= tkhd_short_text(track, dur));
    }
    s
}

impl BoxDecoder for TkhdDecoder {
    open spec fn spec_decode(
        &self,
        payload: Seq<u8>,
        hdr: BoxHeader,
        version: Option<u8>,
        flags: Option<u32>,
    ) -> Result<DecodedS, DecodeError> {
        spec_tkhd_decode(payload, version, flags)
    }

    fn decode(
        &self,
        payload: &[u8],
        hdr: &BoxHeader,
        version: Option<u8>,
        flags: Option<u32>,
    ) -> (r: Result<BoxValue, DecodeError>)
        ensures
            view_decode_result(r) == self.spec_decode(payload@, *hdr, version, flags),
    {
        let v = opt_u8(version);
        let plen = payload.len();
        let track: u32;
        let dur: u64;
        let mut pos: usize;
        if v == 1 {
            if plen < 16 {
                let mut s = String::new();
                s.append("tkhd: truncated creation/modification");
                proof {
                    assert(s@ =~= "tkhd: truncated creation/modification"@);
                }
                return Ok(BoxValue::Text(s));
            }
            if plen >= 20 {
                track = read_u32_at(payload, 16);
                pos = 20;
            } else {
                track = 0;
                pos = 16;
            }
            if plen - pos >= 4 {
                pos = pos + 4;
            }
            if plen - pos >= 8 {
                dur = read_u64_at(payload, pos);
                pos = pos + 8;
            } else {
                dur = 0;
            }
        } else {
            if plen < 8 {
                let mut s = String::new();
                s.append("tkhd: truncated creation/modification");
                proof {
                    assert(s@ =~= "tkhd: truncated creation/modification"@);
                }
                return Ok(BoxValue::Text(s));
            }
            if plen >= 12 {
                track = read_u32_at(payload, 8);
                pos = 12;
            } else {
                track = 0;
                pos = 8;
            }
            if plen - pos >= 4 {
                pos = pos + 4;
            }
            if plen - pos >= 4 {
                dur = read_u32_at(payload, pos) as u64;
                pos = pos + 4;
            } else {
                dur = 0;
            }
        }
        if plen - pos >= 4 {
            pos = pos + 4;
        }
        if plen - pos >= 4 {
            pos = pos + 4;
        }
        if plen - pos < 8 {
            return Ok(BoxValue::Text(push_tkhd_short(track, dur)));
        }
        let p6 = pos + 8;
        if plen - p6 < 36 {
            return Ok(BoxValue::Text(push_tkhd_short(track, dur)));
        }
        let p7 = p6 + 36;
        if plen - p7 < 8 {
            return Ok(BoxValue::Text(push_tkhd_short(track, dur)));
        }
        let w = read_u32_at(payload, p7);
        let h = read_u32_at(payload, p7 + 4);
        let mut s = String::new();
        s.append("track_id=");
        push_dec_u64(&mut s, track as u64);
        s.append(" duration=");
        push_dec_u64(&mut s, dur);
        s.append(" width=");
        push_dec_u64(&mut s, (w / 65536) as u64);
        s.append(" height=");
        push_dec_u64(&mut s, (h / 65536) as u64);
        proof {
            assert(s@ =~= tkhd_full_text(track, dur, w, h));
        }
        Ok(BoxValue::Text(s))
    }
}


/// The edit-list text when the payload ends before the rate fields.
pub open spec fn elst_norate_text(v: u8, n: u32, dur: u64, mt: i64) -> Seq<char> {
    "version="@ + dec_str(v as nat) + " entries="@ + dec_str(n as nat) + " first: duration="@
        + dec_str(dur as nat) + " media_time="@ + int_str(mt as int)
        + " (no rate, short payload)"@
}

/// The full edit-list text.
pub open spec fn elst_full_text(v: u8, n: u32, dur: u64, mt: i64, ri: i16, rf: i16) -> Seq<char> {
    "version="@ + dec_str(v as nat) + " entries="@ + dec_str(n as nat) + " first: duration="@
        + dec_str(dur as nat) + " media_time="@ + int_str(mt as int) + " rate="@ + int_str(
        ri as int,
    ) + "/"@ + int_str(rf as int)
}

/// The text decoded from an elst payload: the entry count and a
/// summary of the first edit — its duration, media time and rate,
/// with the field widths following the box's version. Missing
/// trailing fields degrade the text.
pub open spec fn spec_elst_decode(p: Seq<u8>, version: Option<u8>, flags: Option<u32>) -> Result<
    DecodedS,
    DecodeError,
> {
    let v = spec_opt_u8(version);
    let len = p.len() as int;
    if len < 8 {
        Ok(DecodedS::Text(short_text("elst"@, p.len())))
    } else {
        let n = be_u32_at(p, 0);
        if n == 0 {
            Ok(DecodedS::Text("version="@ + dec_str(v as nat) + " entries=0"@))
        } else {
            let (dur, mt, p2): (u64, i64, int) = if v == 1 {
                let (dur, p1) = if 12 <= len {
                    (be_u64_at(p, 4), 12int)
                } else {
                    (0u64, 4int)
                };
                if p1 + 8 <= len {
                    (dur, to_signed64(be_u64_at(p, p1)), p1 + 8)
                } else {
                    (dur, 0i64, p1)
                }
            } else {
                let (dur, p1) = (be_u32_at(p, 4) as u64, 8int);
                if p1 + 4 <= len {
                    (dur, to_signed32(be_u32_at(p, p1)) as i64, p1 + 4)
                } else {
                    (dur, 0i64, p1)
                }
            };
            if p2 + 2 <= len && p2 + 4 <= len {
                Ok(
                    DecodedS::Text(
                        elst_full_text(
                            v,
                            n,
                            dur,
                            mt,
                            to_signed16(be_u16_at(p, p2)),
                            to_signed16(be_u16_at(p, p2 + 2)),
                        ),
                    ),
                )
            } else {
                Ok(DecodedS::Text(elst_norate_text(v, n, dur, mt)))
            }
        }
    }
}

/// Decoder for the Edit List Box (elst).
#[derive(Debug, Clone, Copy)]
pub struct ElstDecoder;

impl BoxDecoder for ElstDecoder {
    open spec fn spec_decode(
        &self,
        payload: Seq<u8>,
        hdr: BoxHeader,
        version: Option<u8>,
        flags: Option<u32>,
    ) -> Result<DecodedS, DecodeError> {
        spec_elst_decode(payload, version, flags)
    }

    fn decode(
        &self,
        payload: &[u8],
        hdr: &BoxHeader,
        version: Option<u8>,
        flags: Option<u32>,
    ) -> (r: Result<BoxValue, DecodeError>)
        ensures
            view_decode_result(r) == self.spec_decode(payload@, *hdr, version, flags),
    {
        let v = opt_u8(version);
        let plen = payload.len();
        if plen < 8 {
            let mut s = String::new();
            s.append("elst");
            push_short_text(&mut s, plen);
            proof {
                assert(s@ =~= short_text("elst"@, payload@.len()));
            }
            return Ok(BoxValue::Text(s));
        }
        let n = read_u32_at(payload, 0);
        if n == 0 {
            let mut s = String::new();
            s.append("version=");
            push_dec_u64(&mut s, v as u64);
            s.append(" entries=0");
            proof {
                assert(s@ =~= "version="@ + dec_str(v as nat) + " entries=0"@);
            }
            return Ok(BoxValue::Text(s));
        }
        let dur: u64;
        let mt: i64;
        let mut pos: usize;
        if v == 1 {
            if plen >= 12 {
                dur = read_u64_at(payload, 4);
                pos = 12;
            } else {
                dur = 0;
                pos = 4;
            }
            if plen - pos >= 8 {
                mt = signed64(read_u64_at(payload, pos));
                pos = pos + 8;
            } else {
                mt = 0;
            }
        } else {
            dur = read_u32_at(payload, 4) as u64;
            pos = 8;
            if plen - pos >= 4 {
                mt = signed32(read_u32_at(payload, pos)) as i64;
                pos = pos + 4;
            } else {
                mt = 0;
            }
        }
        if plen - pos >= 4 {
            let ri = signed16(read_u16_at(payload, pos));
            let rf = signed16(read_u16_at(payload, pos + 2));
            let mut s = String::new();
            s.append("version=");
            push_dec_u64(&mut s, v as u64);
            s.append(" entries=");
            push_dec_u64(&mut s, n as u64);
            s.append(" first: duration=");
            push_dec_u64(&mut s, dur);
            s.append(" media_time=");
            push_dec_i64(&mut s, mt);
            s.append(" rate=");
            push_dec_i64(&mut s, ri as i64);
            s.append("/");
            push_dec_i64(&mut s, rf as i64);
            proof {
                assert(s@ =~= elst_full_text(v, n, dur, mt, ri, rf));
            }
            Ok(BoxValue::Text(s))
        } else {
            let mut s = String::new();
            s.append("version=");
            push_dec_u64(&mut s, v as u64);
            s.append(" entries=");
            push_dec_u64(&mut s, n as u64);
            s.append(" first: duration=");
            push_dec_u64(&mut s, dur);
            s.append(" media_time=");
            push_dec_i64(&mut s, mt);
            s.append(" (no rate, short payload)");
            proof {
                assert(s@ =~= elst_norate_text(v, n, dur, mt));
            }
            Ok(BoxValue::Text(s))
        }
    }
}


/// One of the built-in payload decoders, as the default registry holds
/// them.
#[derive(Debug, Clone, Copy)]
pub enum BuiltinDecoder {
    Ftyp(FtypDecoder),
    Mvhd(MvhdDecoder),
    Tkhd(TkhdDecoder),
    Mdhd(MdhdDecoder),
    Hdlr(HdlrDecoder),
    Sidx(SidxDecoder),
    Stsd(StsdDecoder),
    Stts(SttsDecoder),
    Stss(StssDecoder),
    Ctts(CttsDecoder),
    Stsc(StscDecoder),
    Stsz(StszDecoder),
    Stco(StcoDecoder),
    Co64(Co64Decoder),
    Elst(ElstDecoder),
}

impl BoxDecoder for BuiltinDecoder {
    open spec fn spec_decode(
        &self,
        payload: Seq<u8>,
        hdr: BoxHeader,
        version: Option<u8>,
        flags: Option<u32>,
    ) -> Result<DecodedS, DecodeError> {
        match self {
            BuiltinDecoder::Ftyp(d) => d.spec_decode(payload, hdr, version, flags),
            BuiltinDecoder::Mvhd(d) => d.spec_decode(payload, hdr, version, flags),
            BuiltinDecoder::Tkhd(d) => d.spec_decode(payload, hdr, version, flags),
            BuiltinDecoder::Mdhd(d) => d.spec_decode(payload, hdr, version, flags),
            BuiltinDecoder::Hdlr(d) => d.spec_decode(payload, hdr, version, flags),
            BuiltinDecoder::Sidx(d) => d.spec_decode(payload, hdr, version, flags),
            BuiltinDecoder::Stsd(d) => d.spec_decode(payload, hdr, version, flags),
            BuiltinDecoder::Stts(d) => d.spec_decode(payload, hdr, version, flags),
            BuiltinDecoder::Stss(d) => d.spec_decode(payload, hdr, version, flags),
            BuiltinDecoder::Ctts(d) => d.spec_decode(payload, hdr, version, flags),
            BuiltinDecoder::Stsc(d) => d.spec_decode(payload, hdr, version, flags),
            BuiltinDecoder::Stsz(d) => d.spec_decode(payload, hdr, version, flags),
            BuiltinDecoder::Stco(d) => d.spec_decode(payload, hdr, version, flags),
            BuiltinDecoder::Co64(d) => d.spec_decode(payload, hdr, version, flags),
            BuiltinDecoder::Elst(d) => d.spec_decode(payload, hdr, version, flags),
        }
    }

    fn decode(
        &self,
        payload: &[u8],
        hdr: &BoxHeader,
        version: Option<u8>,
        flags: Option<u32>,
    ) -> (r: Result<BoxValue, DecodeError>)
        ensures
            view_decode_result(r) == self.spec_decode(payload@, *hdr, version, flags),
    {
        match self {
            BuiltinDecoder::Ftyp(d) => d.decode(payload, hdr, version, flags),
            BuiltinDecoder::Mvhd(d) => d.decode(payload, hdr, version, flags),
            BuiltinDecoder::Tkhd(d) => d.decode(payload, hdr, version, flags),
            BuiltinDecoder::Mdhd(d) => d.decode(payload, hdr, version, flags),
            BuiltinDecoder::Hdlr(d) => d.decode(payload, hdr, version, flags),
            BuiltinDecoder::Sidx(d) => d.decode(payload, hdr, version, flags),
            BuiltinDecoder::Stsd(d) => d.decode(payload, hdr, version, flags),
            BuiltinDecoder::Stts(d) => d.decode(payload, hdr, version, flags),
            BuiltinDecoder::Stss(d) => d.decode(payload, hdr, version, flags),
            BuiltinDecoder::Ctts(d) => d.decode(payload, hdr, version, flags),
            BuiltinDecoder::Stsc(d) => d.decode(payload, hdr, version, flags),
            BuiltinDecoder::Stsz(d) => d.decode(payload, hdr, version, flags),
            BuiltinDecoder::Stco(d) => d.decode(payload, hdr, version, flags),
            BuiltinDecoder::Co64(d) => d.decode(payload, hdr, version, flags),
            BuiltinDecoder::Elst(d) => d.decode(payload, hdr, version, flags),
        }
    }
}

/// The decoder key for a four-character code.
pub open spec fn key4(a: u8, b: u8, c: u8, d: u8) -> BoxKey {
    BoxKey::FourCC(FourCC([a, b, c, d]))
}

/// The decoder that the default registry holds for each key.
pub open spec fn spec_default_lookup(k: BoxKey) -> Option<BuiltinDecoder> {
    if box_key_eq(key4(101, 108, 115, 116), k) { Some(BuiltinDecoder::Elst(ElstDecoder))  // elst
    } else if box_key_eq(key4(99, 111, 54, 52), k) { Some(BuiltinDecoder::Co64(Co64Decoder))  // co64
    } else if box_key_eq(key4(115, 116, 99, 111), k) { Some(BuiltinDecoder::Stco(StcoDecoder))  // stco
    } else if box_key_eq(key4(115, 116, 115, 122), k) { Some(BuiltinDecoder::Stsz(StszDecoder))  // stsz
    } else if box_key_eq(key4(115, 116, 115, 99), k) { Some(BuiltinDecoder::Stsc(StscDecoder))  // stsc
    } else if box_key_eq(key4(99, 116, 116, 115), k) { Some(BuiltinDecoder::Ctts(CttsDecoder))  // ctts
    } else if box_key_eq(key4(115, 116, 115, 115), k) { Some(BuiltinDecoder::Stss(StssDecoder))  // stss
    } else if box_key_eq(key4(115, 116, 116, 115), k) { Some(BuiltinDecoder::Stts(SttsDecoder))  // stts
    } else if box_key_eq(key4(115, 116, 115, 100), k) { Some(BuiltinDecoder::Stsd(StsdDecoder))  // stsd
    } else if box_key_eq(key4(115, 105, 100, 120), k) { Some(BuiltinDecoder::Sidx(SidxDecoder))  // sidx
    } else if box_key_eq(key4(104, 100, 108, 114), k) { Some(BuiltinDecoder::Hdlr(HdlrDecoder))  // hdlr
    } else if box_key_eq(key4(109, 100, 104, 100), k) { Some(BuiltinDecoder::Mdhd(MdhdDecoder))  // mdhd
    } else if box_key_eq(key4(116, 107, 104, 100), k) { Some(BuiltinDecoder::Tkhd(TkhdDecoder))  // tkhd
    } else if box_key_eq(key4(109, 118, 104, 100), k) { Some(BuiltinDecoder::Mvhd(MvhdDecoder))  // mvhd
    } else if box_key_eq(key4(102, 116, 121, 112), k) { Some(BuiltinDecoder::Ftyp(FtypDecoder))  // ftyp
    } else {
        None
    }
}

/// The registry pre-populated with the built-in decoders for the
/// common header, timing and sample-table boxes.
pub fn default_registry() -> (r: Registry<BuiltinDecoder>)
    ensures
        forall|k: BoxKey|
            #![trigger spec_lookup(r.spec_entries(), k)]
            spec_lookup(r.spec_entries(), k) == spec_default_lookup(k),
{
    let r = Registry::new();
    let r = r.with_decoder(
        BoxKey::FourCC(FourCC([102, 116, 121, 112])),
        "ftyp",
        BuiltinDecoder::Ftyp(FtypDecoder),
    );
    let r = r.with_decoder(
        BoxKey::FourCC(FourCC([109, 118, 104, 100])),
        "mvhd",
        BuiltinDecoder::Mvhd(MvhdDecoder),
    );
    let r = r.with_decoder(
        BoxKey::FourCC(FourCC([116, 107, 104, 100])),
        "tkhd",
        BuiltinDecoder::Tkhd(TkhdDecoder),
    );
    let r = r.with_decoder(
        BoxKey::FourCC(FourCC([109, 100, 104, 100])),
        "mdhd",
        BuiltinDecoder::Mdhd(MdhdDecoder),
    );
    let r = r.with_decoder(
        BoxKey::FourCC(FourCC([104, 100, 108, 114])),
        "hdlr",
        BuiltinDecoder::Hdlr(HdlrDecoder),
    );
    let r = r.with_decoder(
        BoxKey::FourCC(FourCC([115, 105, 100, 120])),
        "sidx",
        BuiltinDecoder::Sidx(SidxDecoder),
    );
    let r = r.with_decoder(
        BoxKey::FourCC(FourCC([115, 116, 115, 100])),
        "stsd",
        BuiltinDecoder::Stsd(StsdDecoder),
    );
    let r = r.with_decoder(
        BoxKey::FourCC(FourCC([115, 116, 116, 115])),
        "stts",
        BuiltinDecoder::Stts(SttsDecoder),
    );
    let r = r.with_decoder(
        BoxKey::FourCC(FourCC([115, 116, 115, 115])),
        "stss",
        BuiltinDecoder::Stss(StssDecoder),
    );
    let r = r.with_decoder(
        BoxKey::FourCC(FourCC([99, 116, 116, 115])),
        "ctts",
        BuiltinDecoder::Ctts(CttsDecoder),
    );
    let r = r.with_decoder(
        BoxKey::FourCC(FourCC([115, 116, 115, 99])),
        "stsc",
        BuiltinDecoder::Stsc(StscDecoder),
    );
    let r = r.with_decoder(
        BoxKey::FourCC(FourCC([115, 116, 115, 122])),
        "stsz",
        BuiltinDecoder::Stsz(StszDecoder),
    );
    let r = r.with_decoder(
        BoxKey::FourCC(FourCC([115, 116, 99, 111])),
        "stco",
        BuiltinDecoder::Stco(StcoDecoder),
    );
    let r = r.with_decoder(
        BoxKey::FourCC(FourCC([99, 111, 54, 52])),
        "co64",
        BuiltinDecoder::Co64(Co64Decoder),
    );
    let r = r.with_decoder(
        BoxKey::FourCC(FourCC([101, 108, 115, 116])),
        "elst",
        BuiltinDecoder::Elst(ElstDecoder),
    );
    r
}


/// The decoded-text summary of a structured value: the fields that a
/// reader of the tree most often wants, one `name=value` pair each.
pub open spec fn structured_text(sd: StructuredS) -> Seq<char> {
    match sd {
        StructuredS::SampleDescription(x) => {
            if x.entries.len() > 0 {
                "entry_count="@ + dec_str(x.entry_count as nat) + " codec="@ + x.entries[0].codec
                    + (match x.entries[0].width {
                    Some(w) => " width="@ + dec_str(w as nat),
                    None => Seq::<char>::empty(),
                }) + (match x.entries[0].height {
                    Some(h) => " height="@ + dec_str(h as nat),
                    None => Seq::<char>::empty(),
                })
            } else {
                "entry_count="@ + dec_str(x.entry_count as nat)
            }
        },
        StructuredS::DecodingTimeToSample { entry_count, .. } => "entry_count="@ + dec_str(
            entry_count as nat,
        ),
        StructuredS::CompositionTimeToSample { entry_count, .. } => "entry_count="@ + dec_str(
            entry_count as nat,
        ),
        StructuredS::SampleToChunk { entry_count, .. } => "entry_count="@ + dec_str(
            entry_count as nat,
        ),
        StructuredS::SampleSize { sample_size, sample_count, .. } => "sample_size="@ + dec_str(
            sample_size as nat,
        ) + " sample_count="@ + dec_str(sample_count as nat),
        StructuredS::SyncSample { entry_count, .. } => "entry_count="@ + dec_str(entry_count as nat),
        StructuredS::ChunkOffset { entry_count, .. } => "entry_count="@ + dec_str(entry_count as nat),
        StructuredS::ChunkOffset64 { entry_count, .. } => "entry_count="@ + dec_str(
            entry_count as nat,
        ),
        StructuredS::MediaHeader(x) => timing_text(x.timescale, x.duration as u64) + " language="@
            + x.language,
        StructuredS::HandlerReference(x) => "handler="@ + x.handler_type + " name="@ + x.name,
    }
}

/// Renders the decoded-text summary of a structured value.
pub fn render_structured(d: &StructuredData) -> (r: String)
    ensures
        r@ == structured_text(view_structured(*d)),
{
    let mut s = String::new();
    match d {
        StructuredData::SampleDescription(x) => {
            s.append("entry_count=");
            push_dec_u64(&mut s, x.entry_count as u64);
            if x.entries.len() > 0 {
                s.append(" codec=");
                s.append(x.entries[0].codec.as_str());
                match x.entries[0].width {
                    Some(w) => {
                        s.append(" width=");
                        push_dec_u64(&mut s, w as u64);
                    },
                    None => {},
                }
                match x.entries[0].height {
                    Some(h) => {
                        s.append(" height=");
                        push_dec_u64(&mut s, h as u64);
                    },
                    None => {},
                }
                proof {
                    assert(view_structured(*d)->SampleDescription_0.entries[0]
                        == view_sample_entry(x.entries@[0]));
                    assert(s@ =~= structured_text(view_structured(*d)));
                }
            } else {
                proof {
                    assert(s@ =~= structured_text(view_structured(*d)));
                }
            }
        },
        StructuredData::DecodingTimeToSample(x) => {
            s.append("entry_count=");
            push_dec_u64(&mut s, x.entry_count as u64);
            proof {
                assert(s@ =~= structured_text(view_structured(*d)));
            }
        },
        StructuredData::CompositionTimeToSample(x) => {
            s.append("entry_count=");
            push_dec_u64(&mut s, x.entry_count as u64);
            proof {
                assert(s@ =~= structured_text(view_structured(*d)));
            }
        },
        StructuredData::SampleToChunk(x) => {
            s.append("entry_count=");
            push_dec_u64(&mut s, x.entry_count as u64);
            proof {
                assert(s@ =~= structured_text(view_structured(*d)));
            }
        },
        StructuredData::SampleSize(x) => {
            s.append("sample_size=");
            push_dec_u64(&mut s, x.sample_size as u64);
            s.append(" sample_count=");
            push_dec_u64(&mut s, x.sample_count as u64);
            proof {
                assert(s@ =~= structured_text(view_structured(*d)));
            }
        },
        StructuredData::SyncSample(x) => {
            s.append("entry_count=");
            push_dec_u64(&mut s, x.entry_count as u64);
            proof {
                assert(s@ =~= structured_text(view_structured(*d)));
            }
        },
        StructuredData::ChunkOffset(x) => {
            s.append("entry_count=");
            push_dec_u64(&mut s, x.entry_count as u64);
            proof {
                assert(s@ =~= structured_text(view_structured(*d)));
            }
        },
        StructuredData::ChunkOffset64(x) => {
            s.append("entry_count=");
            push_dec_u64(&mut s, x.entry_count as u64);
            proof {
                assert(s@ =~= structured_text(view_structured(*d)));
            }
        },
        StructuredData::MediaHeader(x) => {
            s.append("timescale=");
            push_dec_u64(&mut s, x.timescale as u64);
            s.append(" duration=");
            push_dec_u64(&mut s, x.duration as u64);
            s.append(" language=");
            s.append(x.language.as_str());
            proof {
                assert(s@ =~= structured_text(view_structured(*d)));
            }
        },
        StructuredData::HandlerReference(x) => {
            s.append("handler=");
            s.append(x.handler_type.as_str());
            s.append(" name=");
            s.append(x.name.as_str());
            proof {
                assert(s@ =~= structured_text(view_structured(*d)));
            }
        },
    }
    s
}


/// Decoding is idempotent: two runs of one decoder over the same
/// payload, header, version and flags yield the same decoded value.
/// The premises are exactly what `BoxDecoder::decode` ensures of each
/// of two calls with equal arguments.
pub proof fn lemma_decode_deterministic<D: BoxDecoder>(
    d: D,
    payload: Seq<u8>,
    hdr: BoxHeader,
    version: Option<u8>,
    flags: Option<u32>,
    r1: Result<BoxValue, DecodeError>,
    r2: Result<BoxValue, DecodeError>,
)
    requires
        view_decode_result(r1) == d.spec_decode(payload, hdr, version, flags),
        view_decode_result(r2) == d.spec_decode(payload, hdr, version, flags),
    ensures
        view_decode_result(r1) == view_decode_result(r2),
{
}


impl<D: BoxDecoder> Default for Registry<D> {
    /// The default registry value is empty, like `new`.
    fn default() -> (r: Self)
        ensures
            r.spec_entries() == Seq::<(BoxKey, D)>::empty(),
    {
        Registry::new()
    }
}

} // verus!
