use mp4box::boxes::{BoxHeader, BoxKey, FourCC};
use mp4box::registry::{BoxDecoder, BoxValue, DecodeError, Registry};

struct DummyDecoder;

impl BoxDecoder for DummyDecoder {
    fn decode(
        &self,
        payload: &[u8],
        _hdr: &BoxHeader,
        _version: Option<u8>,
        _flags: Option<u32>,
    ) -> Result<BoxValue, DecodeError> {
        Ok(BoxValue::Bytes(payload.to_vec()))
    }
}

#[test]
fn registry_invokes_decoder() {
    let reg = Registry::new().with_decoder(BoxKey::FourCC(FourCC(*b"test")), "test", DummyDecoder);

    let hdr = BoxHeader {
        start: 0,
        size: 12,
        header_size: 8,
        typ: FourCC(*b"test"),
        uuid: None,
    };

    let payload = &[1u8, 2, 3, 4];

    let res = reg.decode(&BoxKey::FourCC(FourCC(*b"test")), payload, &hdr, None, None);
    assert!(res.is_some());

    match res.unwrap().unwrap() {
        BoxValue::Bytes(b) => assert_eq!(b, payload),
        _ => panic!("expected bytes"),
    }
}
