use mp4box::boxes::{BoxHeader, BoxKey, BoxRef, FourCC, NodeKind};
use mp4box::registry::{BoxDecoder, BoxValue, DecodeError, Registry};

#[test]
fn fourcc_from_str_needs_four_bytes() {
    assert_eq!(FourCC::from_str("ftyp"), Some(FourCC(*b"ftyp")));
    assert_eq!(FourCC::from_str("abc"), None);
    assert_eq!(FourCC::from_str("abcde"), None);
    assert_eq!(FourCC::from_str(""), None);
}

#[test]
fn fourcc_lossy_rendering() {
    assert_eq!(FourCC(*b"ftyp").as_str_lossy(), "ftyp");
    assert_eq!(FourCC([0x00, b'a', 0x7f, b'!']).as_str_lossy(), ".a.!");
}

struct EchoDecoder;

impl BoxDecoder for EchoDecoder {
    fn decode(
        &self,
        payload: &[u8],
        _hdr: &BoxHeader,
        _version: Option<u8>,
        _flags: Option<u32>,
    ) -> Result<BoxValue, DecodeError> {
        Ok(BoxValue::Bytes(payload.to_vec()))
    }
}

#[test]
fn registry_keys_by_uuid() {
    let id = [0xaau8; 16];
    let reg = Registry::new().with_decoder(BoxKey::Uuid(id), "vendor", EchoDecoder);
    let hdr = BoxHeader {
        start: 0,
        size: 28,
        header_size: 24,
        typ: FourCC(*b"uuid"),
        uuid: Some(id),
    };
    let hit = reg.decode(&BoxKey::Uuid(id), &[5u8, 6], &hdr, None, None);
    assert!(matches!(hit, Some(Ok(BoxValue::Bytes(b))) if b == vec![5u8, 6]));

    let miss = reg.decode(&BoxKey::Uuid([0xbbu8; 16]), &[5u8, 6], &hdr, None, None);
    assert!(miss.is_none());
}

#[test]
fn later_registration_overrides_earlier() {
    struct EmptyDecoder;
    impl BoxDecoder for EmptyDecoder {
        fn decode(
            &self,
            _payload: &[u8],
            _hdr: &BoxHeader,
            _version: Option<u8>,
            _flags: Option<u32>,
        ) -> Result<BoxValue, DecodeError> {
            Ok(BoxValue::Bytes(Vec::new()))
        }
    }
    enum Either {
        Echo(EchoDecoder),
        Empty(EmptyDecoder),
    }
    impl BoxDecoder for Either {
        fn decode(
            &self,
            payload: &[u8],
            hdr: &BoxHeader,
            version: Option<u8>,
            flags: Option<u32>,
        ) -> Result<BoxValue, DecodeError> {
            match self {
                Either::Echo(d) => d.decode(payload, hdr, version, flags),
                Either::Empty(d) => d.decode(payload, hdr, version, flags),
            }
        }
    }
    let key = BoxKey::FourCC(FourCC(*b"test"));
    let reg = Registry::new()
        .with_decoder(key.clone(), "first", Either::Echo(EchoDecoder))
        .with_decoder(key.clone(), "second", Either::Empty(EmptyDecoder));
    let hdr = BoxHeader {
        start: 0,
        size: 12,
        header_size: 8,
        typ: FourCC(*b"test"),
        uuid: None,
    };
    let r = reg.decode(&key, &[1u8, 2, 3], &hdr, None, None);
    assert!(matches!(r, Some(Ok(BoxValue::Bytes(b))) if b.is_empty()));
}

#[test]
fn payload_region_of_leaf_and_container() {
    let leaf = BoxRef {
        hdr: BoxHeader {
            start: 100,
            size: 20,
            header_size: 8,
            typ: FourCC(*b"mdat"),
            uuid: None,
        },
        kind: NodeKind::Leaf {
            data_offset: 108,
            data_len: 12,
        },
    };
    let r = mp4box::api::payload_region(&leaf).unwrap();
    assert!(matches!(r.0, BoxKey::FourCC(c) if c == FourCC(*b"mdat")));
    assert_eq!((r.1, r.2), (108, 12));
    assert_eq!(mp4box::api::payload_geometry(&leaf), Some((108, 12)));

    let container = BoxRef {
        hdr: BoxHeader {
            start: 0,
            size: 16,
            header_size: 8,
            typ: FourCC(*b"moov"),
            uuid: None,
        },
        kind: NodeKind::Container(Vec::new()),
    };
    assert!(mp4box::api::payload_region(&container).is_none());
    assert!(mp4box::api::payload_geometry(&container).is_none());
}

#[test]
fn custom_decoder_runs_through_the_tree() {
    // A tree with one box of a custom type, decoded through a
    // registry extended with a decoder for that type.
    let data = vec![
        0, 0, 0, 12, // size
        b'c', b'u', b's', b't', // type
        0, 1, 2, 3, // payload
    ];
    let reg = Registry::new().with_decoder(
        BoxKey::FourCC(FourCC(*b"cust")),
        "custom",
        EchoDecoder,
    );
    let boxes = mp4box::api::get_boxes_with(&data, true, &reg).expect("get_boxes_with failed");
    assert_eq!(boxes.len(), 1);
    assert_eq!(boxes[0].typ, "cust");
    // the echoed bytes are summarized by their length
    assert_eq!(boxes[0].decoded.as_deref(), Some("4 bytes"));
    assert!(boxes[0].structured_data.is_none());
}
