use zapp::firmware::ihex::{ihex_is_broken, parse_ihex};
use zapp::ZappError;

fn message(r: Result<Vec<u8>, ZappError>) -> String {
    match r {
        Err(ZappError::InvalidFirmware(m)) => m,
        other => panic!("expected InvalidFirmware, got {:?}", other),
    }
}

#[test]
fn test_simple_ihex() {
    // A minimal Intel HEX with one data record and EOF
    let hex = ":04000000DEADBEEFC4\n:00000001FF\n";
    let data = parse_ihex(hex.as_bytes()).unwrap();
    assert_eq!(data, vec![0xDE, 0xAD, 0xBE, 0xEF]);
}

#[test]
fn test_ihex_with_gap() {
    // Data at address 0x0000 and 0x0010, gap filled with 0xFF
    let hex = ":02000000AABB99\n:020010001122BB\n:00000001FF\n";
    let data = parse_ihex(hex.as_bytes()).unwrap();
    assert_eq!(data[0], 0xAA);
    assert_eq!(data[1], 0xBB);
    // Gap should be 0xFF
    for &b in &data[2..0x10] {
        assert_eq!(b, 0xFF);
    }
    assert_eq!(data[0x10], 0x11);
    assert_eq!(data[0x11], 0x22);
}

#[test]
fn test_ihex_bad_checksum() {
    let hex = ":04000000DEADBEEF00\n:00000001FF\n";
    assert!(parse_ihex(hex.as_bytes()).is_err());
}

#[test]
fn test_ihex_empty() {
    let hex = ":00000001FF\n";
    assert!(parse_ihex(hex.as_bytes()).is_err());
}

#[test]
fn ihex_error_messages() {
    assert_eq!(message(parse_ihex(&[0xFF, 0xFE])), "invalid UTF-8 in HEX file");
    assert_eq!(message(parse_ihex(b"\n\nabc\n")), "line 3: expected ':' prefix");
    assert_eq!(message(parse_ihex(b":0000\n")), "line 1: too short");
    assert_eq!(message(parse_ihex(b":00000001FG\n")), "line 1: invalid hex");
    assert_eq!(message(parse_ihex(b":00000001FFF\n")), "line 1: invalid hex");
    assert_eq!(message(parse_ihex(b":04000000DEADBEEF00\n")), "line 1: bad checksum");
    assert_eq!(message(parse_ihex(b":00000006FA\n")), "line 1: unknown record type 0x06");
    assert_eq!(message(parse_ihex(b":00000001FF\n")), "HEX file contains no data records");
    assert_eq!(message(parse_ihex(b"")), "HEX file contains no data records");
}

#[test]
fn ihex_lines_are_trimmed_and_numbered() {
    // CRLF endings, blank lines, surrounding spaces and a no-break space
    let text = "\r\n  :02000000AABB99  \r\n\n\u{a0}:00000001FF\r\n";
    assert_eq!(parse_ihex(text.as_bytes()).unwrap(), vec![0xAA, 0xBB]);
    // lines after the end record are not read
    let text = ":02000000AABB99\n:00000001FF\ngarbage\n";
    assert_eq!(parse_ihex(text.as_bytes()).unwrap(), vec![0xAA, 0xBB]);
    // lower-case digits and a missing final newline
    let text = ":02000000aabb99";
    assert_eq!(parse_ihex(text.as_bytes()).unwrap(), vec![0xAA, 0xBB]);
}

#[test]
fn ihex_extended_addresses() {
    // extended segment address 0x0001 -> base 0x10; data at 0x10 + 2
    let text = ":020000020001FB\n:0100020042BB\n:00000001FF\n";
    let data = parse_ihex(text.as_bytes()).unwrap();
    assert_eq!(data.len(), 0x13);
    assert_eq!(data[0x12], 0x42);
    assert!(data[..0x12].iter().all(|&b| b == 0xFF));
    // start address records are ignored
    let text = ":04000005000000CD2A\n:0100000042BD\n";
    assert_eq!(parse_ihex(text.as_bytes()).unwrap(), vec![0x42]);
}

#[test]
fn ihex_later_records_overwrite() {
    let text = ":020000001122CB\n:0100010033CB\n";
    assert_eq!(parse_ihex(text.as_bytes()).unwrap(), vec![0x11, 0x33]);
}

#[test]
fn ihex_zero_length_record_extends_image() {
    let text = ":0100000042BD\n:00000300FD\n";
    assert_eq!(parse_ihex(text.as_bytes()).unwrap(), vec![0x42, 0xFF, 0xFF]);
}

#[test]
fn ihex_plus_sign_pairs() {
    // "+0" reads as 0, as u8::from_str_radix accepts it
    let text = ":01000000+0FF\n";
    assert_eq!(parse_ihex(text.as_bytes()).unwrap(), vec![0x00]);
}

#[test]
fn ihex_broken_inputs() {
    // a data record that claims more bytes than it holds
    assert!(ihex_is_broken(b":0500000011EA\n"));
    // an address record of length two without its bytes
    assert!(ihex_is_broken(b":02000004FA\n"));
    // a pair that splits a three-byte character
    assert!(ihex_is_broken(":0\u{20ac}0000000000\n".as_bytes()));
    // well-formed texts are not broken
    assert!(!ihex_is_broken(b":04000000DEADBEEFC4\n:00000001FF\n"));
    assert!(!ihex_is_broken(b"abc"));
}

#[test]
fn ihex_text_after_end_of_file_is_ignored() {
    let head = ":02000000AABB99\n";
    let eof = ":00000001FF\n";
    let with_tail = format!("{head}{eof}:0200000011FFEE\nnot a record\n:04000000DEADBEEF00\n");
    let without_tail = format!("{head}{eof}");
    assert_eq!(parse_ihex(with_tail.as_bytes()).unwrap(), vec![0xAA, 0xBB]);
    assert_eq!(parse_ihex(with_tail.as_bytes()).unwrap(), parse_ihex(without_tail.as_bytes()).unwrap());
    // with nothing before the record, the tail is ignored too and no data is found
    let only_tail = format!("{eof}:02000000AABB99\n");
    assert_eq!(message(parse_ihex(only_tail.as_bytes())), "HEX file contains no data records");
    // a rejected line before the record is reported whatever follows
    let bad_head = format!("nonsense\n{eof}:02000000AABB99\n");
    assert_eq!(message(parse_ihex(bad_head.as_bytes())), "line 1: expected ':' prefix");
}
