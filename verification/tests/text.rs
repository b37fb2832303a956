use lumitray::text::wide_string;

#[test]
fn wide_string_stops_at_nul() {
    let buf: Vec<u16> = "DISPLAY1\0garbage".encode_utf16().collect();
    assert_eq!(wide_string(&buf), "DISPLAY1");
}

#[test]
fn wide_string_without_nul_takes_everything() {
    let buf: Vec<u16> = "显示器".encode_utf16().collect();
    assert_eq!(wide_string(&buf), "显示器");
    assert_eq!(wide_string(&[]), "");
    assert_eq!(wide_string(&[0, 65]), "");
}

#[test]
fn wide_string_replaces_broken_surrogates() {
    assert_eq!(wide_string(&[0xD800, 0x41, 0]), "\u{FFFD}A");
}

#[test]
fn text_after_nul_is_ignored() {
    let a: Vec<u16> = "Dell".encode_utf16().collect();
    let mut buf = a.clone();
    buf.push(0);
    buf.extend_from_slice(&[0xD800, 0x42, 0]);
    assert_eq!(wide_string(&buf), wide_string(&a));
    assert_eq!(wide_string(&a), String::from_utf16_lossy(&a));
    assert!(!wide_string(&buf).contains('\0'));
}

#[test]
fn wide_string_decodes_pairs_and_lone_surrogates() {
    assert_eq!(wide_string(&[0xD83D, 0xDE00, 0x41]), "\u{1F600}A");
    assert_eq!(wide_string(&[0xDC00, 0xD800]), "\u{FFFD}\u{FFFD}");
    assert_eq!(wide_string(&[0xD800, 0xD83D, 0xDE00]), "\u{FFFD}\u{1F600}");
}
