use mp4box::api::{find_child, get_boxes};
use mp4box::samples::extract_track_samples;

/// A leaf box with the given type and payload.
fn push_box(v: &mut Vec<u8>, typ: &[u8; 4], payload: &[u8]) {
    v.extend_from_slice(&((8 + payload.len()) as u32).to_be_bytes());
    v.extend_from_slice(typ);
    v.extend_from_slice(payload);
}

/// A versioned box: version and flags precede the payload.
fn push_full_box(v: &mut Vec<u8>, typ: &[u8; 4], version: u8, flags: u32, payload: &[u8]) {
    v.extend_from_slice(&((12 + payload.len()) as u32).to_be_bytes());
    v.extend_from_slice(typ);
    v.push(version);
    v.extend_from_slice(&flags.to_be_bytes()[1..4]);
    v.extend_from_slice(payload);
}

/// A container box wrapping already-encoded children.
fn push_container(v: &mut Vec<u8>, typ: &[u8; 4], children: &[u8]) {
    v.extend_from_slice(&((8 + children.len()) as u32).to_be_bytes());
    v.extend_from_slice(typ);
    v.extend_from_slice(children);
}

fn minimal_file() -> Vec<u8> {
    let mut v = Vec::new();
    // ftyp: major "isom", minor 512, one compatible brand "isom"
    let mut ftyp = Vec::new();
    ftyp.extend_from_slice(b"isom");
    ftyp.extend_from_slice(&512u32.to_be_bytes());
    ftyp.extend_from_slice(b"isom");
    push_box(&mut v, b"ftyp", &ftyp);
    push_box(&mut v, b"free", &[]);
    push_box(&mut v, b"mdat", &[0u8; 8]);
    v
}

#[test]
fn tree_of_minimal_file() {
    let data = minimal_file();
    let boxes = get_boxes(&data, false).expect("get_boxes failed");
    assert_eq!(boxes.len(), 3);

    assert_eq!(boxes[0].typ, "ftyp");
    assert_eq!(boxes[0].offset, 0);
    assert_eq!(boxes[0].size, 20);
    assert_eq!(boxes[0].header_size, 8);
    assert_eq!(boxes[0].payload_offset, Some(8));
    assert_eq!(boxes[0].payload_size, Some(12));
    assert_eq!(boxes[0].kind, "leaf");
    assert_eq!(boxes[0].full_name, "File Type Box");
    assert!(boxes[0].decoded.is_none());

    assert_eq!(boxes[1].typ, "free");
    assert_eq!(boxes[1].offset, 20);
    assert_eq!(boxes[1].payload_size, None);

    assert_eq!(boxes[2].typ, "mdat");
    assert_eq!(boxes[2].offset, 28);
    assert_eq!(boxes[2].payload_size, Some(8));
}

#[test]
fn ftyp_decodes_round_trip() {
    // A tree built from a file with one ftyp box (major "isom",
    // minor 512, one compatible brand "isom") decodes to text naming
    // that major, that minor, and the brand exactly once.
    let data = minimal_file();
    let boxes = get_boxes(&data, true).expect("get_boxes failed");
    let decoded = boxes[0].decoded.as_ref().expect("ftyp not decoded");
    assert!(decoded.contains("major=isom"));
    assert!(decoded.contains("minor=512"));
    assert_eq!(decoded, "major=isom minor=512 compatible=[\"isom\"]");
    assert_eq!(decoded.matches("\"isom\"").count(), 1);
}

#[test]
fn containers_carry_children() {
    let mut mvhd_payload = Vec::new();
    // version 0 layout: creation, modification, timescale, duration
    mvhd_payload.extend_from_slice(&0u32.to_be_bytes());
    mvhd_payload.extend_from_slice(&0u32.to_be_bytes());
    mvhd_payload.extend_from_slice(&600u32.to_be_bytes());
    mvhd_payload.extend_from_slice(&1200u32.to_be_bytes());
    let mut inner = Vec::new();
    push_full_box(&mut inner, b"mvhd", 0, 0, &mvhd_payload);
    let mut data = Vec::new();
    push_container(&mut data, b"moov", &inner);

    let boxes = get_boxes(&data, true).expect("get_boxes failed");
    assert_eq!(boxes.len(), 1);
    assert_eq!(boxes[0].typ, "moov");
    assert_eq!(boxes[0].kind, "container");
    let kids = boxes[0].children.as_ref().unwrap();
    assert_eq!(kids.len(), 1);
    assert_eq!(kids[0].typ, "mvhd");
    assert_eq!(kids[0].kind, "full");
    assert_eq!(kids[0].version, Some(0));
    assert_eq!(kids[0].flags, Some(0));
    assert_eq!(
        kids[0].decoded.as_deref(),
        Some("timescale=600 duration=1200")
    );
}

fn synthetic_movie() -> Vec<u8> {
    // stbl children: stsz (sizes 1000/2000/3000), stsc (one chunk of
    // three samples), stco (chunk at 5000), stss (samples 1 and 3)
    let mut stsz = Vec::new();
    stsz.extend_from_slice(&0u32.to_be_bytes());
    stsz.extend_from_slice(&3u32.to_be_bytes());
    for s in [1000u32, 2000, 3000] {
        stsz.extend_from_slice(&s.to_be_bytes());
    }
    let mut stsc = Vec::new();
    stsc.extend_from_slice(&1u32.to_be_bytes());
    stsc.extend_from_slice(&1u32.to_be_bytes());
    stsc.extend_from_slice(&3u32.to_be_bytes());
    stsc.extend_from_slice(&1u32.to_be_bytes());
    let mut stco = Vec::new();
    stco.extend_from_slice(&1u32.to_be_bytes());
    stco.extend_from_slice(&5000u32.to_be_bytes());
    let mut stss = Vec::new();
    stss.extend_from_slice(&2u32.to_be_bytes());
    stss.extend_from_slice(&1u32.to_be_bytes());
    stss.extend_from_slice(&3u32.to_be_bytes());
    let mut stts = Vec::new();
    stts.extend_from_slice(&1u32.to_be_bytes());
    stts.extend_from_slice(&3u32.to_be_bytes());
    stts.extend_from_slice(&100u32.to_be_bytes());

    let mut stbl_kids = Vec::new();
    push_full_box(&mut stbl_kids, b"stts", 0, 0, &stts);
    push_full_box(&mut stbl_kids, b"stsz", 0, 0, &stsz);
    push_full_box(&mut stbl_kids, b"stsc", 0, 0, &stsc);
    push_full_box(&mut stbl_kids, b"stco", 0, 0, &stco);
    push_full_box(&mut stbl_kids, b"stss", 0, 0, &stss);
    let mut stbl = Vec::new();
    push_container(&mut stbl, b"stbl", &stbl_kids);

    // mdhd: creation, modification, timescale 1000, duration 300,
    // language "und", pre_defined
    let mut mdhd = Vec::new();
    mdhd.extend_from_slice(&0u32.to_be_bytes());
    mdhd.extend_from_slice(&0u32.to_be_bytes());
    mdhd.extend_from_slice(&1000u32.to_be_bytes());
    mdhd.extend_from_slice(&300u32.to_be_bytes());
    mdhd.extend_from_slice(&0u16.to_be_bytes());
    mdhd.extend_from_slice(&0u16.to_be_bytes());

    let mut minf = Vec::new();
    push_container(&mut minf, b"minf", &stbl);
    let mut mdia_kids = Vec::new();
    push_full_box(&mut mdia_kids, b"mdhd", 0, 0, &mdhd);
    mdia_kids.extend_from_slice(&minf);
    let mut mdia = Vec::new();
    push_container(&mut mdia, b"mdia", &mdia_kids);
    let mut trak = Vec::new();
    push_container(&mut trak, b"trak", &mdia);
    let mut data = Vec::new();
    push_container(&mut data, b"moov", &trak);
    data
}

#[test]
fn track_samples_from_synthetic_movie() {
    let data = synthetic_movie();
    let boxes = get_boxes(&data, true).expect("get_boxes failed");
    let moov = &boxes[0];
    assert_eq!(moov.typ, "moov");
    let trak = find_child(moov, "trak").expect("no trak");
    let ts = extract_track_samples(trak).expect("no track samples");

    assert_eq!(ts.timescale, 1000);
    assert_eq!(ts.duration, 300);
    assert_eq!(ts.sample_count, 3);
    assert_eq!(ts.samples.len(), 3);
    assert_eq!(ts.samples[0].file_offset, 5000);
    assert_eq!(ts.samples[1].file_offset, 6000);
    assert_eq!(ts.samples[2].file_offset, 8000);
    assert_eq!(ts.samples[0].dts, 0);
    assert_eq!(ts.samples[1].dts, 100);
    assert_eq!(ts.samples[2].dts, 200);
    assert!(ts.samples[0].is_sync);
    assert!(!ts.samples[1].is_sync);
    assert!(ts.samples[2].is_sync);
}

#[test]
fn track_without_sample_table_container_is_skipped() {
    let mut mdia = Vec::new();
    push_container(&mut mdia, b"mdia", &[]);
    let mut trak = Vec::new();
    push_container(&mut trak, b"trak", &mdia);
    let mut data = Vec::new();
    push_container(&mut data, b"moov", &trak);

    let boxes = get_boxes(&data, true).expect("get_boxes failed");
    let trak_node = find_child(&boxes[0], "trak").expect("no trak");
    assert!(extract_track_samples(trak_node).is_none());
}

#[test]
fn empty_sample_table_container_gives_empty_list() {
    // A sample-table container with no sample-size table yields an
    // empty sample list, not an error.
    let mut stbl = Vec::new();
    push_container(&mut stbl, b"stbl", &[]);
    let mut minf = Vec::new();
    push_container(&mut minf, b"minf", &stbl);
    let mut mdia = Vec::new();
    push_container(&mut mdia, b"mdia", &minf);
    let mut trak = Vec::new();
    push_container(&mut trak, b"trak", &mdia);
    let mut data = Vec::new();
    push_container(&mut data, b"moov", &trak);

    let boxes = get_boxes(&data, true).expect("get_boxes failed");
    let trak_node = find_child(&boxes[0], "trak").expect("no trak");
    let ts = extract_track_samples(trak_node).expect("expected a track record");
    assert_eq!(ts.sample_count, 0);
    assert!(ts.samples.is_empty());
}

#[test]
fn uuid_box_is_unknown_kind() {
    let mut v = Vec::new();
    v.extend_from_slice(&28u32.to_be_bytes());
    v.extend_from_slice(b"uuid");
    v.extend_from_slice(&[0xabu8; 16]);
    v.extend_from_slice(&[1u8; 4]);
    let boxes = get_boxes(&v, false).expect("get_boxes failed");
    assert_eq!(boxes[0].kind, "unknown");
    assert_eq!(boxes[0].uuid.as_deref(), Some("abababababababababababababababab"));
    assert_eq!(boxes[0].header_size, 24);
}
