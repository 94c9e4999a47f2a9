use zapp::firmware::dfu_bin::build_test_suffix;
use zapp::firmware::{firmware_description, load_firmware_from_bytes, load_would_break, DfuImage, Firmware};
use zapp::ZappError;

fn message(r: Result<Firmware, ZappError>) -> String {
    match r {
        Err(ZappError::InvalidFirmware(m)) => m,
        other => panic!("expected InvalidFirmware, got {:?}", other),
    }
}

#[test]
fn test_load_empty_file() {
    let result = load_firmware_from_bytes(b"");
    assert!(result.is_err());
    assert_eq!(message(result), "file is empty");
}

#[test]
fn test_load_single_dfu() {
    // Build a minimal DFU binary: 4 bytes of firmware + 16-byte suffix
    let firmware_data = vec![0xAA, 0xBB, 0xCC, 0xDD];
    let suffix = build_test_suffix(0x3297, 0x0791);
    let mut file = firmware_data.clone();
    file.extend_from_slice(&suffix);

    let fw = load_firmware_from_bytes(&file).unwrap();
    match fw {
        Firmware::DfuBinary { data, vid, pid } => {
            assert_eq!(data, firmware_data);
            assert_eq!(vid, 0x3297);
            assert_eq!(pid, 0x0791);
        }
        _ => panic!("expected DfuBinary"),
    }
}

#[test]
fn test_load_dual_dfu() {
    let fw1 = vec![0x01; 100];
    let fw2 = vec![0x02; 200];
    let suffix1 = build_test_suffix(0x3297, 0x0791);
    let suffix2 = build_test_suffix(0x3297, 0x1791);

    let mut file = fw1.clone();
    file.extend_from_slice(&suffix1);
    file.extend_from_slice(&fw2);
    file.extend_from_slice(&suffix2);

    let fw = load_firmware_from_bytes(&file).unwrap();
    match fw {
        Firmware::IgnitionDual { primary, alternate } => {
            assert_eq!(primary.data, fw1);
            assert_eq!(primary.pid, 0x0791);
            assert_eq!(alternate.data, fw2);
            assert_eq!(alternate.pid, 0x1791);
        }
        _ => panic!("expected IgnitionDual"),
    }
}

#[test]
fn load_intel_hex_and_errors() {
    match load_firmware_from_bytes(b":04000000DEADBEEFC4\n:00000001FF\n").unwrap() {
        Firmware::IntelHex { data } => assert_eq!(data, vec![0xDE, 0xAD, 0xBE, 0xEF]),
        _ => panic!("expected IntelHex"),
    }
    assert_eq!(message(load_firmware_from_bytes(b":00000001FF\n")), "HEX file contains no data records");
    assert_eq!(
        message(load_firmware_from_bytes(&[0u8; 64])),
        "not a valid firmware file (no DFU suffix or Intel HEX header found)"
    );
    let mut three = Vec::new();
    for pid in [1u16, 2, 3] {
        three.extend_from_slice(&[9u8; 3]);
        three.extend_from_slice(&build_test_suffix(0x3297, pid));
    }
    assert_eq!(message(load_firmware_from_bytes(&three)), "unexpected number of DFU suffixes: 3");
    assert!(load_would_break(b":0500000011EA\n"));
    assert!(!load_would_break(b"0500000011EA\n"));
}

#[test]
fn firmware_descriptions() {
    let fw = Firmware::DfuBinary { data: vec![0; 51200], vid: 0x3297, pid: 0x0791 };
    assert_eq!(firmware_description(&fw), "Voyager (STM32) (51200 bytes)");
    let fw = Firmware::IgnitionDual {
        primary: DfuImage { data: vec![0; 10], vid: 0x3297, pid: 0x1969 },
        alternate: DfuImage { data: vec![0; 2], vid: 0x3297, pid: 0x1972 },
    };
    assert_eq!(firmware_description(&fw), "Moonlander MK1 + Moonlander MK1 (10 + 2 bytes)");
    let fw = Firmware::IntelHex { data: vec![] };
    assert_eq!(firmware_description(&fw), "Ergodox EZ (0 bytes)");
}
