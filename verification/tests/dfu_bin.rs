use zapp::firmware::dfu_bin::{build_test_suffix, find_dfu_suffixes, DFU_SUFFIX_LENGTH};

#[test]
fn test_no_suffix() {
    let data = vec![0u8; 32];
    assert!(find_dfu_suffixes(&data).is_empty());
}

#[test]
fn test_too_short() {
    let data = vec![0u8; 8];
    assert!(find_dfu_suffixes(&data).is_empty());
}

#[test]
fn test_single_suffix() {
    let mut data = vec![0xAA; 1024];
    let suffix = build_test_suffix(0x3297, 0x1969);
    // Place suffix at the end
    let start = data.len() - DFU_SUFFIX_LENGTH;
    data[start..].copy_from_slice(&suffix);

    let results = find_dfu_suffixes(&data);
    assert_eq!(results.len(), 1);
    assert_eq!(results[0].vid, 0x3297);
    assert_eq!(results[0].pid, 0x1969);
    assert_eq!(results[0].data_end, start);
    assert_eq!(results[0].suffix_end, data.len());
}

#[test]
fn test_dual_suffix() {
    let mut data = Vec::new();
    // First firmware + suffix
    data.extend_from_slice(&[0x01; 512]);
    data.extend_from_slice(&build_test_suffix(0x3297, 0x0791));
    // Second firmware + suffix
    data.extend_from_slice(&[0x02; 256]);
    data.extend_from_slice(&build_test_suffix(0x3297, 0x1791));

    let results = find_dfu_suffixes(&data);
    assert_eq!(results.len(), 2);
    assert_eq!(results[0].pid, 0x0791);
    assert_eq!(results[0].data_end, 512);
    assert_eq!(results[1].pid, 0x1791);
    assert_eq!(results[1].data_end, 512 + DFU_SUFFIX_LENGTH + 256);
}

#[test]
fn built_suffix_layout() {
    let s = build_test_suffix(0x3297, 0x1969);
    assert_eq!(s, [0, 0, 0x69, 0x19, 0x97, 0x32, 0, 0, b'U', b'F', b'D', 0, 0, 0, 0, 0]);
}

#[test]
fn built_suffix_reads_back_alone() {
    let s = build_test_suffix(0x0483, 0xDF11);
    let found = find_dfu_suffixes(&s);
    assert_eq!(found.len(), 1);
    assert_eq!((found[0].vid, found[0].pid, found[0].data_end, found[0].suffix_end), (0x0483, 0xDF11, 0, 16));
    // a zero PID is no suffix
    assert!(find_dfu_suffixes(&build_test_suffix(0x3297, 0)).is_empty());
}

#[test]
fn suffixes_do_not_overlap() {
    // two magic windows 4 bytes apart: the second lies inside the first suffix and is skipped
    let mut data = vec![0u8; 40];
    data[..16].copy_from_slice(&build_test_suffix(1, 2));
    data[12] = b'U';
    data[13] = b'F';
    data[14] = b'D';
    data[6] = 7;
    let found = find_dfu_suffixes(&data);
    assert_eq!(found.len(), 1);
    for pair in found.windows(2) {
        assert!(pair[0].suffix_end <= pair[1].data_end);
    }
    // a magic window right after a suffix is found
    let mut data = build_test_suffix(1, 2).to_vec();
    data.extend_from_slice(&build_test_suffix(3, 4));
    let found = find_dfu_suffixes(&data);
    assert_eq!(found.len(), 2);
    assert_eq!((found[1].vid, found[1].pid, found[1].data_end), (3, 4, 16));
}

#[test]
fn suffix_in_the_middle_is_found() {
    let mut data = vec![0x11u8; 10];
    data.extend_from_slice(&build_test_suffix(0xABCD, 0x0102));
    data.extend_from_slice(&[0x22u8; 5]);
    let found = find_dfu_suffixes(&data);
    assert_eq!(found.len(), 1);
    assert_eq!((found[0].vid, found[0].pid, found[0].data_end, found[0].suffix_end), (0xABCD, 0x0102, 10, 26));
}
