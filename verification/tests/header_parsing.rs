use mp4box::boxes::FourCC;
use mp4box::parser::{parse_children, read_box_header, ParseError};

#[test]
fn header_width_plain() {
    let mut v = Vec::new();
    v.extend_from_slice(&16u32.to_be_bytes());
    v.extend_from_slice(b"free");
    v.extend_from_slice(&[0u8; 8]);
    let hdr = read_box_header(&v, 0).unwrap();
    assert_eq!(hdr.header_size, 8);
    assert_eq!(hdr.size, 16);
    assert!(hdr.uuid.is_none());
}

#[test]
fn header_width_large_size() {
    // A 32-bit size of 1 announces a 64-bit size.
    let mut v = Vec::new();
    v.extend_from_slice(&1u32.to_be_bytes());
    v.extend_from_slice(b"mdat");
    v.extend_from_slice(&24u64.to_be_bytes());
    v.extend_from_slice(&[0u8; 8]);
    let hdr = read_box_header(&v, 0).unwrap();
    assert_eq!(hdr.header_size, 16);
    assert_eq!(hdr.size, 24);
}

#[test]
fn header_width_uuid() {
    let mut v = Vec::new();
    v.extend_from_slice(&24u32.to_be_bytes());
    v.extend_from_slice(b"uuid");
    v.extend_from_slice(&[7u8; 16]);
    let hdr = read_box_header(&v, 0).unwrap();
    assert_eq!(hdr.header_size, 24);
    assert_eq!(hdr.uuid, Some([7u8; 16]));
}

#[test]
fn header_width_large_size_and_uuid() {
    let mut v = Vec::new();
    v.extend_from_slice(&1u32.to_be_bytes());
    v.extend_from_slice(b"uuid");
    v.extend_from_slice(&32u64.to_be_bytes());
    v.extend_from_slice(&[9u8; 16]);
    let hdr = read_box_header(&v, 0).unwrap();
    assert_eq!(hdr.header_size, 32);
    assert_eq!(hdr.size, 32);
}

#[test]
fn size_below_header_width_is_structural_error() {
    // A declared size of 4 is below the 8-byte header width.
    let mut v = Vec::new();
    v.extend_from_slice(&4u32.to_be_bytes());
    v.extend_from_slice(b"free");
    assert!(matches!(read_box_header(&v, 0), Err(ParseError::InvalidSize)));
    // And no node is produced: the walk fails as a whole.
    assert!(matches!(parse_children(&v, 0, v.len()), Err(ParseError::InvalidSize)));
}

#[test]
fn truncated_header_is_an_error() {
    let v = vec![0u8, 0, 0];
    assert!(matches!(read_box_header(&v, 0), Err(ParseError::Truncated)));
}

#[test]
fn zero_size_extends_to_parent_end() {
    // A zero size is the to-end-of-parent sentinel, not an error.
    let mut v = Vec::new();
    v.extend_from_slice(&0u32.to_be_bytes());
    v.extend_from_slice(b"mdat");
    v.extend_from_slice(&[1u8; 12]);
    let hdr = read_box_header(&v, 0).unwrap();
    assert_eq!(hdr.size, 0);
    let nodes = parse_children(&v, 0, v.len()).unwrap();
    assert_eq!(nodes.len(), 1);
    assert_eq!(nodes[0].hdr.typ, FourCC(*b"mdat"));
}

#[test]
fn extent_past_parent_end_is_structural_error() {
    // The box claims 64 bytes but the range holds only 16: the walk
    // refuses to proceed past the enclosing range.
    let mut v = Vec::new();
    v.extend_from_slice(&64u32.to_be_bytes());
    v.extend_from_slice(b"free");
    v.extend_from_slice(&[0u8; 8]);
    assert!(matches!(parse_children(&v, 0, v.len()), Err(ParseError::InvalidSize)));
}

#[test]
fn siblings_are_walked_in_file_order() {
    let mut v = Vec::new();
    v.extend_from_slice(&12u32.to_be_bytes());
    v.extend_from_slice(b"free");
    v.extend_from_slice(&[0u8; 4]);
    v.extend_from_slice(&16u32.to_be_bytes());
    v.extend_from_slice(b"skip");
    v.extend_from_slice(&[0u8; 8]);
    let nodes = parse_children(&v, 0, v.len()).unwrap();
    assert_eq!(nodes.len(), 2);
    assert_eq!(nodes[0].hdr.start, 0);
    assert_eq!(nodes[0].hdr.size, 12);
    assert_eq!(nodes[1].hdr.start, 12);
    assert_eq!(nodes[1].hdr.size, 16);
}
