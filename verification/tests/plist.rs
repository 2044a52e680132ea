use sparsebundle_tools::analysis::read_info;
use sparsebundle_tools::text::{is_white_space, to_u64};
use sparsebundle_tools::{plist_int, plist_str, AnalyseError, Health};

#[test]
fn plist_extracts_band_size_and_size() {
    let xml = r#"<plist><dict>
            <key>band-size</key><integer>268435456</integer>
            <key>size</key><integer>38291861393408</integer>
            <key>diskimage-bundle-type</key><string>com.apple.diskimage.sparsebundle</string>
        </dict></plist>"#;
    assert_eq!(plist_int(xml, "band-size"), Some(268435456));
    assert_eq!(plist_int(xml, "size"), Some(38291861393408));
    assert!(plist_str(xml, "diskimage-bundle-type")
        .unwrap()
        .contains("sparsebundle"));
    assert_eq!(plist_int(xml, "absent"), None);
}

#[test]
fn plist_values_are_trimmed() {
    let xml = "<key>a</key> <integer>\n\t 42\u{a0}</integer><key>b</key><string>  x — y\u{3000}</string>";
    assert_eq!(plist_int(xml, "a"), Some(42));
    assert_eq!(plist_str(xml, "b"), Some("x — y".to_string()));
}

#[test]
fn plist_value_is_the_next_of_its_kind_after_the_key() {
    let xml = "<integer>1</integer><key>k</key><string>s</string><integer>2</integer><key>k</key><integer>3</integer>";
    assert_eq!(plist_int(xml, "k"), Some(2));
    assert_eq!(plist_str(xml, "k"), Some("s".to_string()));
}

#[test]
fn plist_rejects_what_is_no_number() {
    assert_eq!(plist_int("<key>k</key><integer>12x</integer>", "k"), None);
    assert_eq!(plist_int("<key>k</key><integer>-1</integer>", "k"), None);
    assert_eq!(plist_int("<key>k</key><integer></integer>", "k"), None);
    assert_eq!(plist_int("<key>k</key><integer>18446744073709551616</integer>", "k"), None);
    assert_eq!(
        plist_int("<key>k</key><integer>18446744073709551615</integer>", "k"),
        Some(u64::MAX)
    );
    assert_eq!(plist_int("<key>k</key><integer>+7</integer>", "k"), Some(7));
    assert_eq!(plist_int("<key>k</key><integer>7", "k"), None);
    assert_eq!(plist_int("<key>k</key>7</integer>", "k"), None);
    assert_eq!(plist_str("<key>k</key><string>s", "k"), None);
}

#[test]
fn numbers_are_read_as_std_reads_them() {
    let samples = [
        "", "+", "++1", "+1", "-1", "-0", "0", "00", "007", "7f", "7F", "ff", "fffffffffffffffff",
        "ffffffffffffffff", "0ffffffffffffffff", "10000000000000000", "18446744073709551615",
        "18446744073709551616", "99999999999999999999", " 1", "1 ", "g", "G", "é", "١",
    ];
    for s in samples {
        let chars: Vec<char> = s.chars().collect();
        for radix in [2u32, 8, 10, 16, 36] {
            assert_eq!(
                to_u64(&chars, 0, chars.len(), radix as u64),
                u64::from_str_radix(s, radix).ok(),
                "{s:?} in base {radix}"
            );
        }
    }
}

#[test]
fn white_space_is_what_std_calls_white_space() {
    for code in 0..=0x10ffffu32 {
        if let Some(c) = char::from_u32(code) {
            assert_eq!(is_white_space(c), c.is_whitespace(), "{code:x}");
        }
    }
}

#[test]
fn info_gives_figures_without_notes() {
    let xml = "<key>band-size</key><integer>8388608</integer><key>size</key><integer>100</integer>\
               <key>bundle-backingstore-version</key><integer>1</integer>\
               <key>diskimage-bundle-type</key><string>com.apple.diskimage.sparsebundle</string>";
    let info = read_info(xml, false).unwrap();
    assert_eq!(info.band_size, 8388608);
    assert_eq!(info.declared_size, 100);
    assert_eq!(info.info_source, "Info.plist");
    assert_eq!(info.health, Health::Sound);
    assert!(info.notes.is_empty());
}

#[test]
fn info_notes_come_in_order() {
    let xml = "<key>band-size</key><integer>512</integer>\
               <key>bundle-backingstore-version</key><integer>22</integer>\
               <key>diskimage-bundle-type</key><string>com.example.other</string>";
    let info = read_info(xml, true).unwrap();
    assert_eq!(info.declared_size, 0);
    assert_eq!(info.info_source, "Info.bckup");
    assert_eq!(info.health, Health::Suspect);
    assert_eq!(
        info.notes,
        vec![
            "Info.plist unreadable — recovered from Info.bckup".to_string(),
            "unexpected bundle-backingstore-version 22 (expected 1)".to_string(),
            "unexpected bundle type com.example.other".to_string(),
        ]
    );
}

#[test]
fn odd_bundle_type_alone_leaves_health() {
    let xml = "<key>band-size</key><integer>512</integer>\
               <key>diskimage-bundle-type</key><string>x</string>";
    let info = read_info(xml, false).unwrap();
    assert_eq!(info.declared_size, 0);
    assert_eq!(info.health, Health::Sound);
    assert_eq!(info.notes, vec!["unexpected bundle type x".to_string()]);
}

#[test]
fn info_without_band_size_or_in_binary_is_refused() {
    assert!(matches!(read_info("bplist00\u{1}", false), Err(AnalyseError::BinaryPlist)));
    assert!(matches!(read_info("<plist/>", false), Err(AnalyseError::NoBandSize)));
    assert!(matches!(read_info("", true), Err(AnalyseError::NoBandSize)));
}
