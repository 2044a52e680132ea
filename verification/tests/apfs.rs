use sparsebundle_tools::partition::{parse_gpt_header, read_layout, trim_apm_kind, GptTable, Layout};
use sparsebundle_tools::{
    parse_apfs_superblock, parse_apm, parse_gpt, probe_fs, ApfsInfo, EncryptionEvidence, Probe,
};

fn superblock(keylocker_blocks: u64) -> Vec<u8> {
    let mut sb = vec![0u8; 0x618];
    sb[0x20..0x24].copy_from_slice(b"NXSB");
    sb[0x24..0x28].copy_from_slice(&4096u32.to_le_bytes());
    sb[0x28..0x30].copy_from_slice(&1_000_000u64.to_le_bytes());
    sb[0x610..0x618].copy_from_slice(&keylocker_blocks.to_le_bytes());
    sb
}

#[test]
fn reads_container_geometry() {
    let a = parse_apfs_superblock(&superblock(0)).unwrap();
    assert_eq!(a.block_size, 4096);
    assert_eq!(a.block_count, 1_000_000);
}

#[test]
fn keybag_is_evidence_not_a_verdict() {
    let none = parse_apfs_superblock(&superblock(0)).unwrap();
    assert_eq!(
        none.encryption_evidence(),
        EncryptionEvidence::NoContainerKeybagObserved,
        "absence of a keybag is an observation, not proof of readability"
    );
    let some = parse_apfs_superblock(&superblock(8)).unwrap();
    assert_eq!(
        some.encryption_evidence(),
        EncryptionEvidence::ContainerKeybagObserved
    );
    assert!(!none.encryption_evidence().label().contains("unencrypted"));
}

#[test]
fn rejects_non_apfs_and_short_buffers() {
    assert!(
        parse_apfs_superblock(&vec![0u8; 0x618]).is_none(),
        "no NXSB magic"
    );
    assert!(
        parse_apfs_superblock(&superblock(0)[..0x100]).is_none(),
        "truncated"
    );
}

#[test]
fn superblock_fields_are_little_endian_at_their_offsets() {
    let mut sb = superblock(0x0102_0304_0506_0708);
    sb[0x40..0x48].copy_from_slice(&0xfedc_ba98_7654_3210u64.to_le_bytes());
    sb.extend_from_slice(&[0xff; 10]);
    let a = parse_apfs_superblock(&sb).unwrap();
    assert_eq!(a.incompatible_features, 0xfedc_ba98_7654_3210);
    assert_eq!(a.keylocker_blocks, 0x0102_0304_0506_0708);
    assert!(parse_apfs_superblock(&sb[..0x617]).is_none());
}

#[test]
fn default_info_has_no_keybag() {
    let a = ApfsInfo::default();
    assert_eq!((a.block_size, a.block_count, a.incompatible_features), (0, 0, 0));
    assert_eq!(a.encryption_evidence(), EncryptionEvidence::NoContainerKeybagObserved);
}

#[test]
fn labels_are_worded_as_observations() {
    assert_eq!(
        EncryptionEvidence::NoContainerKeybagObserved.label(),
        "no container keybag observed"
    );
    assert_eq!(
        EncryptionEvidence::ContainerKeybagObserved.label(),
        "CONTAINER KEYBAG OBSERVED"
    );
    assert_eq!(EncryptionEvidence::Unknown.label(), "encryption state unknown");
}

fn filesystem(p: Probe) -> Option<&'static str> {
    match p {
        Probe::Filesystem(fs) => fs,
        Probe::NeedsVolumeHeader => panic!("the volume header was given"),
    }
}

#[test]
fn hfs_and_apfs_magics_are_distinguished() {
    let mut band = vec![0u8; 4096];
    band[1024] = b'H';
    band[1025] = b'+';
    assert!(matches!(probe_fs(&band[..64], None), Probe::NeedsVolumeHeader));
    assert_eq!(filesystem(probe_fs(&band[..64], Some(&band[1024..1026]))), Some("HFS+"));

    band[1024] = 0;
    band[1025] = 0;
    band[32..36].copy_from_slice(b"NXSB");
    assert_eq!(filesystem(probe_fs(&band[..64], None)), Some("APFS"));
    assert_eq!(filesystem(probe_fs(&band[..64], Some(&band[1024..1026]))), Some("APFS"));
}

#[test]
fn hfsx_and_unknown_volume_headers() {
    let sb = [0u8; 64];
    assert_eq!(filesystem(probe_fs(&sb, Some(b"HX"))), Some("HFSX"));
    assert_eq!(filesystem(probe_fs(&sb, Some(b"BD"))), None);
    assert_eq!(filesystem(probe_fs(&sb, Some(b"+H"))), None);
}

#[test]
fn layout_follows_the_signatures() {
    let mut head = vec![0u8; 17408];
    assert_eq!(read_layout(&head), Layout::Blank);
    head[511] = 1;
    assert_eq!(read_layout(&head), Layout::Unknown);
    head[511] = 0;
    head[600] = 1;
    assert_eq!(read_layout(&head), Layout::Blank, "only the first sector is looked at");
    head[..2].copy_from_slice(b"ER");
    assert_eq!(read_layout(&head), Layout::Apm);
    head[512..520].copy_from_slice(b"EFI PART");
    assert_eq!(read_layout(&head), Layout::Gpt);
}

#[test]
fn gpt_header_geometry_is_bounded() {
    let mut head = vec![0u8; 17408];
    head[584..592].copy_from_slice(&2u64.to_le_bytes());
    head[592..596].copy_from_slice(&1024u32.to_le_bytes());
    head[596..600].copy_from_slice(&128u32.to_le_bytes());
    assert_eq!(
        parse_gpt_header(&head),
        Some(GptTable { entry_lba: 2, n_entries: 1024, entry_size: 128 })
    );
    head[592..596].copy_from_slice(&1025u32.to_le_bytes());
    assert_eq!(parse_gpt_header(&head), None);
    head[592..596].copy_from_slice(&1u32.to_le_bytes());
    head[596..600].copy_from_slice(&127u32.to_le_bytes());
    assert_eq!(parse_gpt_header(&head), None);
    head[596..600].copy_from_slice(&4097u32.to_le_bytes());
    assert_eq!(parse_gpt_header(&head), None);
}

#[test]
fn gpt_entries_skip_unused_slots() {
    let geometry = GptTable { entry_lba: 2, n_entries: 5, entry_size: 128 };
    let mut table = vec![0u8; 640];
    let guids: [[u8; 16]; 4] = [
        [
            0x28, 0x73, 0x2a, 0xc1, 0x1f, 0xf8, 0xd2, 0x11, 0xba, 0x4b, 0x00, 0xa0, 0xc9, 0x3e,
            0xc9, 0x3b,
        ],
        [
            0xef, 0x57, 0x34, 0x7c, 0x00, 0x00, 0xaa, 0x11, 0xaa, 0x11, 0x00, 0x30, 0x65, 0x43,
            0xec, 0xac,
        ],
        [
            0x00, 0x53, 0x46, 0x48, 0x00, 0x00, 0xaa, 0x11, 0xaa, 0x11, 0x00, 0x30, 0x65, 0x43,
            0xec, 0xac,
        ],
        [1; 16],
    ];
    for (slot, guid) in [(0usize, 0usize), (2, 1), (3, 2), (4, 3)] {
        let at = slot * 128;
        table[at..at + 16].copy_from_slice(&guids[guid]);
        table[at + 32..at + 40].copy_from_slice(&(40 + slot as u64).to_le_bytes());
        table[at + 40..at + 48].copy_from_slice(&(42 + 2 * slot as u64).to_le_bytes());
    }
    table[4 * 128 + 40..4 * 128 + 48].copy_from_slice(&7u64.to_le_bytes());
    let got: Vec<(String, u64, Option<u64>)> = parse_gpt(&table, &geometry)
        .into_iter()
        .map(|e| (e.kind, e.start_lba, e.sectors))
        .collect();
    assert_eq!(
        got,
        vec![
            ("EFI".to_string(), 40, Some(3)),
            ("Apple_APFS".to_string(), 42, Some(5)),
            ("Apple_HFS".to_string(), 43, Some(6)),
            ("other".to_string(), 44, Some(1)),
        ]
    );
}

#[test]
fn gpt_entry_over_all_sectors_has_no_count() {
    let geometry = GptTable { entry_lba: 2, n_entries: 1, entry_size: 128 };
    let mut table = vec![0u8; 128];
    table[0] = 1;
    table[40..48].copy_from_slice(&u64::MAX.to_le_bytes());
    assert_eq!(parse_gpt(&table, &geometry)[0].sectors, None);
}

fn apm_sector(head: &mut [u8], i: usize, start: u32, blocks: u32, kind: &[u8]) {
    let at = i * 512;
    head[at..at + 2].copy_from_slice(b"PM");
    head[at + 8..at + 12].copy_from_slice(&start.to_be_bytes());
    head[at + 12..at + 16].copy_from_slice(&blocks.to_be_bytes());
    head[at + 48..at + 48 + kind.len()].copy_from_slice(kind);
}

#[test]
fn apm_entries_end_with_the_first_sector_without_signature() {
    let mut head = vec![0u8; 17408];
    apm_sector(&mut head, 1, 1, 63, b"Apple_partition_map");
    apm_sector(&mut head, 2, 0x0102_0304, 0x8000_0001, b" Apple_HFS \0\0");
    apm_sector(&mut head, 4, 9, 9, b"unreached");
    let got: Vec<(String, u64, Option<u64>, &str)> = parse_apm(&head)
        .into_iter()
        .map(|e| (e.kind, e.start_lba, e.sectors, e.scheme))
        .collect();
    assert_eq!(
        got,
        vec![
            ("Apple_partition_map".to_string(), 1, Some(63), "APM"),
            ("Apple_HFS".to_string(), 0x0102_0304, Some(0x8000_0001), "APM"),
        ]
    );
}

#[test]
fn apm_stops_after_fifteen_entries_or_with_the_buffer() {
    let mut head = vec![0u8; 17408];
    for i in 1..20 {
        apm_sector(&mut head, i, i as u32, 1, b"x");
    }
    assert_eq!(parse_apm(&head).len(), 15);
    assert_eq!(parse_apm(&head[..512 * 4 + 511]).len(), 3);
    assert_eq!(parse_apm(&head[..100]).len(), 0);
}

#[test]
fn apm_kind_is_decoded_as_std_does() {
    let fields: [&[u8]; 4] = [b"caf\xc3\xa9", b"bad\xffbytes", b"\xe2\x82", b"\0\0in\0side\0"];
    for field in fields {
        let mut head = vec![0u8; 17408];
        apm_sector(&mut head, 1, 1, 1, field);
        let expected = String::from_utf8_lossy(&head[512 + 48..512 + 80])
            .trim_end_matches('\0')
            .trim()
            .to_string();
        assert_eq!(parse_apm(&head)[0].kind, expected);
    }
    let mut head = vec![0u8; 17408];
    apm_sector(&mut head, 1, 1, 1, b"bad\xffbytes");
    assert_eq!(parse_apm(&head)[0].kind, "bad\u{fffd}bytes");
}

#[test]
fn apm_kind_loses_padding_before_white_space() {
    assert_eq!(trim_apm_kind(" Apple_HFS \0\0"), "Apple_HFS");
    assert_eq!(trim_apm_kind("x\0 "), "x\0");
    assert_eq!(trim_apm_kind("\0\0"), "");
}
