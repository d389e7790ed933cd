use mp4box::boxes::{BoxHeader, BoxKey, FourCC};
use mp4box::registry::{default_registry, BoxValue, DecodeError, StructuredData};

fn header(typ: &[u8; 4]) -> BoxHeader {
    BoxHeader {
        typ: FourCC(*typ),
        uuid: None,
        size: 0,
        header_size: 8,
        start: 0,
    }
}

fn decode_text(typ: &[u8; 4], payload: &[u8], version: Option<u8>) -> String {
    let reg = default_registry();
    let res = reg
        .decode(&BoxKey::FourCC(FourCC(*typ)), payload, &header(typ), version, version.map(|_| 0))
        .expect("no decoder")
        .expect("decode failed");
    match res {
        BoxValue::Text(s) => s,
        other => panic!("expected text, got {:?}", other),
    }
}

#[test]
fn ftyp_reports_short_payload() {
    let s = decode_text(b"ftyp", &[1, 2, 3, 4, 5], None);
    assert_eq!(s, "ftyp: payload too short (5 bytes)");
}

#[test]
fn ftyp_lists_all_brands() {
    let mut p = Vec::new();
    p.extend_from_slice(b"isom");
    p.extend_from_slice(&512u32.to_be_bytes());
    p.extend_from_slice(b"iso2");
    p.extend_from_slice(b"avc1");
    let s = decode_text(b"ftyp", &p, None);
    assert_eq!(s, "major=isom minor=512 compatible=[\"iso2\", \"avc1\"]");
}

#[test]
fn mvhd_version_zero_layout() {
    let mut p = Vec::new();
    p.extend_from_slice(&0u32.to_be_bytes());
    p.extend_from_slice(&0u32.to_be_bytes());
    p.extend_from_slice(&600000u32.to_be_bytes());
    p.extend_from_slice(&65536u32.to_be_bytes());
    let s = decode_text(b"mvhd", &p, Some(0));
    assert_eq!(s, "timescale=600000 duration=65536");
}

#[test]
fn mvhd_version_one_layout() {
    let mut p = Vec::new();
    p.extend_from_slice(&0u64.to_be_bytes());
    p.extend_from_slice(&0u64.to_be_bytes());
    p.extend_from_slice(&90000u32.to_be_bytes());
    p.extend_from_slice(&123456789u64.to_be_bytes());
    let s = decode_text(b"mvhd", &p, Some(1));
    assert_eq!(s, "timescale=90000 duration=123456789");
}

#[test]
fn tkhd_full_layout_with_dimensions() {
    let mut p = Vec::new();
    p.extend_from_slice(&0u32.to_be_bytes()); // creation
    p.extend_from_slice(&0u32.to_be_bytes()); // modification
    p.extend_from_slice(&7u32.to_be_bytes()); // track_id
    p.extend_from_slice(&0u32.to_be_bytes()); // reserved
    p.extend_from_slice(&99u32.to_be_bytes()); // duration
    p.extend_from_slice(&[0u8; 8]); // reserved words
    p.extend_from_slice(&[0u8; 8]); // layer block
    p.extend_from_slice(&[0u8; 36]); // matrix
    p.extend_from_slice(&(1920u32 << 16).to_be_bytes()); // width 16.16
    p.extend_from_slice(&(1080u32 << 16).to_be_bytes()); // height 16.16
    let s = decode_text(b"tkhd", &p, Some(0));
    assert_eq!(s, "track_id=7 duration=99 width=1920 height=1080");
}

#[test]
fn tkhd_short_payload_drops_dimensions() {
    let mut p = Vec::new();
    p.extend_from_slice(&0u32.to_be_bytes());
    p.extend_from_slice(&0u32.to_be_bytes());
    p.extend_from_slice(&7u32.to_be_bytes());
    p.extend_from_slice(&0u32.to_be_bytes());
    p.extend_from_slice(&99u32.to_be_bytes());
    let s = decode_text(b"tkhd", &p, Some(0));
    assert_eq!(s, "track_id=7 duration=99 (no width/height, short payload)");
}

#[test]
fn sidx_summary() {
    let mut p = Vec::new();
    p.extend_from_slice(&1u32.to_be_bytes()); // reference id
    p.extend_from_slice(&48000u32.to_be_bytes()); // timescale
    p.extend_from_slice(&100u32.to_be_bytes()); // earliest presentation
    p.extend_from_slice(&2000u32.to_be_bytes()); // first offset
    p.extend_from_slice(&0u16.to_be_bytes()); // reserved
    p.extend_from_slice(&3u16.to_be_bytes()); // reference count
    let s = decode_text(b"sidx", &p, Some(0));
    assert_eq!(
        s,
        "timescale=48000 earliest_presentation_time=100 first_offset=2000 references=3"
    );
}

#[test]
fn elst_first_entry_summary() {
    let mut p = Vec::new();
    p.extend_from_slice(&1u32.to_be_bytes()); // entry count
    p.extend_from_slice(&77u32.to_be_bytes()); // duration
    p.extend_from_slice(&(-5i32).to_be_bytes()); // media time
    p.extend_from_slice(&1i16.to_be_bytes()); // rate integer
    p.extend_from_slice(&0i16.to_be_bytes()); // rate fraction
    let s = decode_text(b"elst", &p, Some(0));
    assert_eq!(s, "version=0 entries=1 first: duration=77 media_time=-5 rate=1/0");
}

#[test]
fn elst_zero_entries() {
    let p = 0u32.to_be_bytes().repeat(2);
    let s = decode_text(b"elst", &p, Some(0));
    assert_eq!(s, "version=0 entries=0");
}

#[test]
fn mdhd_language_unpacks() {
    // 'u','n','d' as five-bit letters offset from 0x60
    let code: u16 = ((0x15u16) << 10) | ((0x0eu16) << 5) | 0x04;
    let mut p = Vec::new();
    p.extend_from_slice(&0u32.to_be_bytes());
    p.extend_from_slice(&0u32.to_be_bytes());
    p.extend_from_slice(&1000u32.to_be_bytes());
    p.extend_from_slice(&300u32.to_be_bytes());
    p.extend_from_slice(&code.to_be_bytes());
    p.extend_from_slice(&0u16.to_be_bytes());
    let reg = default_registry();
    let res = reg
        .decode(&BoxKey::FourCC(FourCC(*b"mdhd")), &p, &header(b"mdhd"), Some(0), Some(0))
        .unwrap()
        .unwrap();
    match res {
        BoxValue::Structured(StructuredData::MediaHeader(m)) => {
            assert_eq!(m.timescale, 1000);
            assert_eq!(m.duration, 300);
            assert_eq!(m.language, "und");
        }
        other => panic!("expected media header, got {:?}", other),
    }
}

#[test]
fn mdhd_zero_language_is_undefined_token() {
    let mut p = Vec::new();
    p.extend_from_slice(&[0u8; 16]);
    p.extend_from_slice(&0u16.to_be_bytes());
    p.extend_from_slice(&0u16.to_be_bytes());
    let reg = default_registry();
    let res = reg
        .decode(&BoxKey::FourCC(FourCC(*b"mdhd")), &p, &header(b"mdhd"), Some(0), Some(0))
        .unwrap()
        .unwrap();
    match res {
        BoxValue::Structured(StructuredData::MediaHeader(m)) => {
            assert_eq!(m.language, "und");
        }
        other => panic!("expected media header, got {:?}", other),
    }
}

#[test]
fn hdlr_reads_type_and_name() {
    let mut p = Vec::new();
    p.extend_from_slice(&0u32.to_be_bytes()); // pre_defined
    p.extend_from_slice(b"vide");
    p.extend_from_slice(&[0u8; 12]); // reserved
    p.extend_from_slice(b"VideoHandler\0");
    let reg = default_registry();
    let res = reg
        .decode(&BoxKey::FourCC(FourCC(*b"hdlr")), &p, &header(b"hdlr"), Some(0), Some(0))
        .unwrap()
        .unwrap();
    match res {
        BoxValue::Structured(StructuredData::HandlerReference(h)) => {
            assert_eq!(h.handler_type, "vide");
            assert_eq!(h.name, "VideoHandler");
        }
        other => panic!("expected handler reference, got {:?}", other),
    }
}

#[test]
fn stsd_zero_entries_is_text() {
    let p = 0u32.to_be_bytes();
    let s = decode_text(b"stsd", &p, Some(0));
    assert_eq!(s, "entry_count=0");
}

#[test]
fn truncated_count_field_fails_the_decode() {
    // The stts entry count itself cannot be read: a decode error for
    // that box, distinguishable from decoder absence.
    let reg = default_registry();
    let r = reg.decode(&BoxKey::FourCC(FourCC(*b"stts")), &[0u8, 0], &header(b"stts"), Some(0), Some(0));
    assert_eq!(r, Some(Err(DecodeError::ShortPayload)));
}

#[test]
fn unregistered_key_is_absence_not_error() {
    let reg = default_registry();
    let r = reg.decode(&BoxKey::FourCC(FourCC(*b"abcd")), &[1u8, 2], &header(b"abcd"), None, None);
    assert!(r.is_none());
}

#[test]
fn decoding_twice_is_bit_identical() {
    let mut p = Vec::new();
    p.extend_from_slice(&1u32.to_be_bytes());
    p.extend_from_slice(&100u32.to_be_bytes());
    p.extend_from_slice(&1024u32.to_be_bytes());
    let reg = default_registry();
    let key = BoxKey::FourCC(FourCC(*b"stts"));
    let r1 = reg.decode(&key, &p, &header(b"stts"), Some(0), Some(0)).unwrap().unwrap();
    let r2 = reg.decode(&key, &p, &header(b"stts"), Some(0), Some(0)).unwrap().unwrap();
    assert_eq!(r1, r2);
}
