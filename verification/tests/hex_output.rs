use mp4box::api::hex_range;
use mp4box::parser::ParseError;
use mp4box::util::{hex_dump, read_slice};

#[test]
fn hex_range_reads_within_bounds() {
    let data = (0u8..64u8).collect::<Vec<_>>();

    let dump = hex_range(&data, 16, 16);

    assert_eq!(dump.offset, 16);
    assert_eq!(dump.length, 16);
    // the first byte of the region is 0x10
    assert!(dump.hex.contains("10"));
}

#[test]
fn hex_range_clamps_to_eof() {
    let data = (0u8..32u8).collect::<Vec<_>>();

    // ask past the end: only 8 bytes exist from 24 on
    let dump = hex_range(&data, 24, 32);

    assert_eq!(dump.offset, 24);
    assert_eq!(dump.length, 8);
}

#[test]
fn hex_range_of_empty_region() {
    let data = vec![1u8, 2, 3];
    let dump = hex_range(&data, 10, 4);
    assert_eq!(dump.length, 0);
    assert!(dump.hex.is_empty());
}

#[test]
fn hex_dump_line_format() {
    let s = hex_dump(&[0x41, 0x42], 0);
    let expected = format!("00000000  41 42 {} |AB|\n", " ".repeat(43));
    assert_eq!(s, expected);
}

#[test]
fn hex_dump_sixteen_bytes_per_line() {
    let data = (0u8..18u8).collect::<Vec<_>>();
    let s = hex_dump(&data, 0);
    let lines: Vec<&str> = s.lines().collect();
    assert_eq!(lines.len(), 2);
    assert!(lines[0].starts_with("00000000  00 01 02"));
    assert!(lines[1].starts_with("00000010  10 11"));
}

#[test]
fn hex_dump_non_printable_bytes_become_dots() {
    let s = hex_dump(&[0x00, 0x41, 0x7f], 0);
    assert!(s.contains("|.A.|"));
}

#[test]
fn read_slice_exact_range() {
    let data = (0u8..16u8).collect::<Vec<_>>();
    let v = read_slice(&data, 4, 8).unwrap();
    assert_eq!(v, (4u8..12u8).collect::<Vec<_>>());
}

#[test]
fn read_slice_fails_past_end() {
    let data = vec![0u8; 8];
    assert_eq!(read_slice(&data, 4, 8), Err(ParseError::Truncated));
}
