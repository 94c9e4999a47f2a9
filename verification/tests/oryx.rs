use zapp::device::ids::Keyboard;
use zapp::oryx::{
    firmware_url, flash_url_variant, geometry_for, graphql_url, is_oryx_url, latest_revision_url,
    is_up_to_date, layout_of_serial, parse_url, revision_note, revision_note_request, revision_source, update_variant,
    FirmwareVariant, OryxError, RevisionSource, REVISION_NOTE_QUERY,
};

#[test]
fn test_parse_url_bare_layout() {
    let (geo, layout, rev) = parse_url("https://configure.zsa.io/voyager/layouts/abcde").unwrap();
    assert_eq!(geo, "voyager");
    assert_eq!(layout, "abcde");
    assert_eq!(rev, None);
}

#[test]
fn test_parse_url_latest() {
    let (geo, layout, rev) = parse_url("https://configure.zsa.io/voyager/layouts/abcde/latest").unwrap();
    assert_eq!(geo, "voyager");
    assert_eq!(layout, "abcde");
    assert_eq!(rev, None);
}

#[test]
fn test_parse_url_latest_with_zero() {
    let (geo, layout, rev) = parse_url("https://configure.zsa.io/voyager/layouts/abcde/latest/0").unwrap();
    assert_eq!(geo, "voyager");
    assert_eq!(layout, "abcde");
    assert_eq!(rev, None);
}

#[test]
fn test_parse_url_specific_revision() {
    let (geo, layout, rev) = parse_url("https://configure.zsa.io/moonlander/layouts/AbCdE/abc123").unwrap();
    assert_eq!(geo, "moonlander");
    assert_eq!(layout, "AbCdE");
    assert_eq!(rev, Some("abc123"));
}

#[test]
fn test_parse_url_trailing_slash() {
    let (geo, layout, rev) = parse_url("https://configure.zsa.io/voyager/layouts/abcde/").unwrap();
    assert_eq!(geo, "voyager");
    assert_eq!(layout, "abcde");
    assert_eq!(rev, None);
}

#[test]
fn test_parse_url_invalid_prefix() {
    assert!(parse_url("https://example.com/voyager/layouts/abcde").is_err());
}

#[test]
fn test_parse_url_missing_layouts_segment() {
    assert!(parse_url("https://configure.zsa.io/voyager/abcde").is_err());
}

#[test]
fn parse_url_edge_cases() {
    assert!(matches!(parse_url("https://configure.zsa.io/"), Err(OryxError::InvalidUrl)));
    assert!(matches!(parse_url("https://configure.zsa.io/voyager/layouts"), Err(OryxError::InvalidUrl)));
    assert!(matches!(parse_url("https://configure.zsa.io/voyager/Layouts/x"), Err(OryxError::InvalidUrl)));
    // several trailing slashes are all removed
    let (geo, layout, rev) = parse_url("https://configure.zsa.io/ergodox-ez/layouts/x9/r7///").unwrap();
    assert_eq!((geo, layout, rev), ("ergodox-ez", "x9", Some("r7")));
    // an empty layout piece is kept as it is
    let (geo, layout, rev) = parse_url("https://configure.zsa.io/voyager/layouts//r").unwrap();
    assert_eq!((geo, layout, rev), ("voyager", "", Some("r")));
    // non-ASCII pieces are sliced on character boundaries
    let (geo, layout, rev) = parse_url("https://configure.zsa.io/vöyager/layouts/ä€/x😀").unwrap();
    assert_eq!((geo, layout, rev), ("vöyager", "ä€", Some("x😀")));
}

#[test]
fn test_geometry_for() {
    assert_eq!(geometry_for(Keyboard::Voyager, 0x1977), "voyager");
    assert_eq!(geometry_for(Keyboard::Moonlander, 0x1972), "moonlander");
    assert_eq!(geometry_for(Keyboard::PlanckEz, 0x6060), "planck-ez");
}

#[test]
fn test_geometry_for_ergodox_splits_on_mcu() {
    // STM32 Ergodoxes are their own geometry in Oryx.
    assert_eq!(geometry_for(Keyboard::ErgodoxEz, 0x2010), "ergodox-ez-st");
    assert_eq!(geometry_for(Keyboard::ErgodoxEz, 0x2020), "ergodox-ez-st");
    assert_eq!(geometry_for(Keyboard::ErgodoxEz, 0x2030), "ergodox-ez-st");
    // AVR originals.
    assert_eq!(geometry_for(Keyboard::ErgodoxEz, 0x1307), "ergodox-ez");
    assert_eq!(geometry_for(Keyboard::ErgodoxEz, 0x4974), "ergodox-ez");
}

#[test]
fn oryx_urls_are_recognised() {
    assert!(is_oryx_url("https://configure.zsa.io/voyager/layouts/abc"));
    assert!(is_oryx_url("https://configure.zsa.io/"));
    assert!(!is_oryx_url("https://configure.zsa.io"));
    assert!(!is_oryx_url("firmware.bin"));
    assert!(!is_oryx_url("http://configure.zsa.io/voyager"));
}

#[test]
fn request_addresses() {
    assert_eq!(firmware_url("abc123", FirmwareVariant::Standard), "https://oryx.zsa.io/firmware/abc123");
    assert_eq!(firmware_url("abc123", FirmwareVariant::Alternate), "https://oryx.zsa.io/firmware/abc123?alt=true");
    assert_eq!(firmware_url("abc123", FirmwareVariant::Collated), "https://oryx.zsa.io/firmware/abc123?collate=true");
    assert_eq!(latest_revision_url("voyager", "default"), "https://oryx.zsa.io/firmware/latest/voyager/default");
    assert_eq!(latest_revision_url("voyager", "AbCdE"), "https://oryx.zsa.io/firmware/latest/AbCdE");
    assert_eq!(graphql_url(), "https://oryx.zsa.io/graphql");
    assert_eq!(FirmwareVariant::Alternate.query(), "?alt=true");
}

#[test]
fn revision_sources() {
    match revision_source("voyager", "AbCdE", Some("rev1")) {
        RevisionSource::Known(r) => assert_eq!(r, "rev1"),
        other => panic!("unexpected {:?}", other),
    }
    match revision_source("moonlander", "default", None) {
        RevisionSource::Latest(url) => assert_eq!(url, "https://oryx.zsa.io/firmware/latest/moonlander/default"),
        other => panic!("unexpected {:?}", other),
    }
}

#[test]
fn revision_note_request_body() {
    let body = revision_note_request("abc", "r1", "voyager");
    let expected = format!(
        "{{\"query\":\"{}\",\"variables\":{{\"geometry\":\"voyager\",\"hashId\":\"abc\",\"revisionId\":\"r1\"}}}}",
        REVISION_NOTE_QUERY
    );
    assert_eq!(body, expected);
    assert!(REVISION_NOTE_QUERY.starts_with("query ($hashId: String!, $revisionId: String!, $geometry: String) {layout("));
    // quotes and backslashes are escaped
    let body = revision_note_request("a\"b", "r\\1", "g");
    assert!(body.contains("\"hashId\":\"a\\\"b\""));
    assert!(body.contains("\"revisionId\":\"r\\\\1\""));
}

#[test]
fn revision_notes_are_trimmed() {
    assert_eq!(revision_note(None), None);
    assert_eq!(revision_note(Some("   ")), None);
    assert_eq!(revision_note(Some("")), None);
    assert_eq!(revision_note(Some("  Fix the thumb keys \n")), Some("Fix the thumb keys".to_string()));
    assert_eq!(revision_note(Some("\u{3000}note\u{2009}")), Some("note".to_string()));
}

#[test]
fn serial_numbers() {
    assert_eq!(layout_of_serial("AbCdE/rev42"), Some(("AbCdE", "rev42")));
    assert_eq!(layout_of_serial("AbCdE/rev/42"), Some(("AbCdE", "rev/42")));
    assert_eq!(layout_of_serial("AbCdE"), None);
    assert_eq!(layout_of_serial("/rev"), None);
    assert_eq!(layout_of_serial("AbCdE/"), None);
    assert_eq!(layout_of_serial(""), None);
}

#[test]
fn variants() {
    assert_eq!(flash_url_variant("moonlander"), FirmwareVariant::Collated);
    assert_eq!(flash_url_variant("voyager"), FirmwareVariant::Standard);
    assert_eq!(update_variant(0x1972), FirmwareVariant::Alternate);
    assert_eq!(update_variant(0x1969), FirmwareVariant::Standard);
}

#[test]
fn revision_note_request_escapes_control_characters() {
    let body = revision_note_request("a\u{1}b\n", "r\t1", "g\u{1f}");
    assert!(body.contains("\"hashId\":\"a\\u0001b\\n\""));
    assert!(body.contains("\"revisionId\":\"r\\t1\""));
    assert!(body.contains("\"geometry\":\"g\\u001f\""));
    // characters from U+0020 on, other than quote and backslash, are kept as they are
    let body = revision_note_request("\u{e9}/\u{7f}", "r", "g");
    assert!(body.contains("\"hashId\":\"\u{e9}/\u{7f}\""));
    let body = revision_note_request("\u{8}\u{c}\r", "r", "g");
    assert!(body.contains("\"hashId\":\"\\b\\f\\r\""));
}

#[test]
fn up_to_date_only_on_the_same_revision() {
    assert!(is_up_to_date("rev42", "rev42"));
    assert!(!is_up_to_date("rev42", "rev43"));
    assert!(!is_up_to_date("rev4", "rev42"));
    assert!(is_up_to_date("", ""));
}
