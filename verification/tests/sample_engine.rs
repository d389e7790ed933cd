use mp4box::registry::{
    CttsData, CttsEntry, StcoData, StscData, StscEntry, StssData, StszData, SttsData, SttsEntry,
};
use mp4box::samples::{build_sample_info, SampleTables};

fn empty_tables() -> SampleTables {
    SampleTables {
        stsd: None,
        stts: None,
        ctts: None,
        stsc: None,
        stsz: None,
        stss: None,
        stco: None,
        co64: None,
    }
}

#[test]
fn cumulative_chunk_offsets() {
    // One chunk at offset 5000 holding three samples of sizes
    // 1000, 2000 and 3000: offsets accumulate inside the chunk.
    let mut tables = empty_tables();
    tables.stsz = Some(StszData {
        version: 0,
        flags: 0,
        sample_size: 0,
        sample_count: 3,
        sample_sizes: vec![1000, 2000, 3000],
    });
    tables.stsc = Some(StscData {
        version: 0,
        flags: 0,
        entry_count: 1,
        entries: vec![StscEntry {
            first_chunk: 1,
            samples_per_chunk: 3,
            sample_description_index: 1,
        }],
    });
    tables.stco = Some(StcoData {
        version: 0,
        flags: 0,
        entry_count: 1,
        chunk_offsets: vec![5000],
    });

    let samples = build_sample_info(&tables, 1000);
    assert_eq!(samples.len(), 3);
    assert_eq!(samples[0].file_offset, 5000);
    assert_eq!(samples[1].file_offset, 6000);
    assert_eq!(samples[2].file_offset, 8000);
    assert_eq!(samples[0].size, 1000);
    assert_eq!(samples[1].size, 2000);
    assert_eq!(samples[2].size, 3000);
}

#[test]
fn sync_lookup_is_one_based() {
    // Sync samples 1 and 3 of three samples: the table holds 1-based
    // sample numbers, tested against 0-based indices.
    let mut tables = empty_tables();
    tables.stsz = Some(StszData {
        version: 0,
        flags: 0,
        sample_size: 100,
        sample_count: 3,
        sample_sizes: vec![],
    });
    tables.stss = Some(StssData {
        version: 0,
        flags: 0,
        entry_count: 2,
        sample_numbers: vec![1, 3],
    });

    let samples = build_sample_info(&tables, 1000);
    assert_eq!(samples.len(), 3);
    assert!(samples[0].is_sync);
    assert!(!samples[1].is_sync);
    assert!(samples[2].is_sync);
}

#[test]
fn no_sample_size_table_gives_empty_list() {
    let tables = empty_tables();
    let samples = build_sample_info(&tables, 1000);
    assert!(samples.is_empty());
}

#[test]
fn no_sync_table_makes_every_sample_sync() {
    let mut tables = empty_tables();
    tables.stsz = Some(StszData {
        version: 0,
        flags: 0,
        sample_size: 10,
        sample_count: 2,
        sample_sizes: vec![],
    });
    let samples = build_sample_info(&tables, 1000);
    assert!(samples.iter().all(|s| s.is_sync));
}

#[test]
fn durations_accumulate_into_decode_times() {
    // Two samples of duration 100 and one of duration 50.
    let mut tables = empty_tables();
    tables.stsz = Some(StszData {
        version: 0,
        flags: 0,
        sample_size: 10,
        sample_count: 3,
        sample_sizes: vec![],
    });
    tables.stts = Some(SttsData {
        version: 0,
        flags: 0,
        entry_count: 2,
        entries: vec![
            SttsEntry {
                sample_count: 2,
                sample_delta: 100,
            },
            SttsEntry {
                sample_count: 1,
                sample_delta: 50,
            },
        ],
    });
    let samples = build_sample_info(&tables, 1000);
    assert_eq!(samples[0].dts, 0);
    assert_eq!(samples[1].dts, 100);
    assert_eq!(samples[2].dts, 200);
    assert_eq!(samples[0].duration, 100);
    assert_eq!(samples[2].duration, 50);
}

#[test]
fn composition_offsets_shift_presentation_times() {
    // The second sample is rendered 25 units later; the third 10
    // units earlier than decoded.
    let mut tables = empty_tables();
    tables.stsz = Some(StszData {
        version: 0,
        flags: 0,
        sample_size: 10,
        sample_count: 3,
        sample_sizes: vec![],
    });
    tables.stts = Some(SttsData {
        version: 0,
        flags: 0,
        entry_count: 1,
        entries: vec![SttsEntry {
            sample_count: 3,
            sample_delta: 100,
        }],
    });
    tables.ctts = Some(CttsData {
        version: 0,
        flags: 0,
        entry_count: 3,
        entries: vec![
            CttsEntry {
                sample_count: 1,
                sample_offset: 0,
            },
            CttsEntry {
                sample_count: 1,
                sample_offset: 25,
            },
            CttsEntry {
                sample_count: 1,
                sample_offset: -10,
            },
        ],
    });
    let samples = build_sample_info(&tables, 1000);
    assert_eq!(samples[0].pts, 0);
    assert_eq!(samples[1].pts, 125);
    assert_eq!(samples[2].pts, 190);
    assert_eq!(samples[2].rendered_offset, -10);
}

#[test]
fn missing_chunk_tables_use_placeholder_offsets() {
    // Without a sample-to-chunk or chunk-offset table the documented
    // last-resort placeholder spaces samples 50000 bytes apart.
    let mut tables = empty_tables();
    tables.stsz = Some(StszData {
        version: 0,
        flags: 0,
        sample_size: 10,
        sample_count: 2,
        sample_sizes: vec![],
    });
    let samples = build_sample_info(&tables, 1000);
    assert_eq!(samples[0].file_offset, 0);
    assert_eq!(samples[1].file_offset, 50000);
}

#[test]
fn chunks_split_by_sample_to_chunk_entries() {
    // Two chunks: chunk 1 holds two samples, chunk 2 holds one.
    let mut tables = empty_tables();
    tables.stsz = Some(StszData {
        version: 0,
        flags: 0,
        sample_size: 0,
        sample_count: 3,
        sample_sizes: vec![10, 20, 30],
    });
    tables.stsc = Some(StscData {
        version: 0,
        flags: 0,
        entry_count: 2,
        entries: vec![
            StscEntry {
                first_chunk: 1,
                samples_per_chunk: 2,
                sample_description_index: 1,
            },
            StscEntry {
                first_chunk: 2,
                samples_per_chunk: 1,
                sample_description_index: 1,
            },
        ],
    });
    tables.stco = Some(StcoData {
        version: 0,
        flags: 0,
        entry_count: 2,
        chunk_offsets: vec![100, 900],
    });
    let samples = build_sample_info(&tables, 1000);
    assert_eq!(samples[0].file_offset, 100);
    assert_eq!(samples[1].file_offset, 110);
    assert_eq!(samples[2].file_offset, 900);
}
