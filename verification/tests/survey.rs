use sparsebundle_tools::{
    analyse, band_name, plan, read_at, AnalyseError, Analysis, BandEntry, FileFacts, Health,
    Reply, Request, Survey,
};

/// A bundle in memory.
struct Mem {
    directory: bool,
    info: Result<String, String>,
    backup: Result<String, String>,
    bands: Option<Vec<(String, Vec<u8>)>>,
    broken_offset: Option<u64>,
}

const PLIST: &str = "<key>band-size</key><integer>1048576</integer>\
                     <key>size</key><integer>10737418240</integer>\
                     <key>bundle-backingstore-version</key><integer>1</integer>\
                     <key>diskimage-bundle-type</key><string>com.apple.diskimage.sparsebundle</string>";

fn mem(bands: Vec<(&str, Vec<u8>)>) -> Mem {
    Mem {
        directory: true,
        info: Ok(PLIST.to_string()),
        backup: Err("no backup".to_string()),
        bands: Some(bands.into_iter().map(|(n, c)| (n.to_string(), c)).collect()),
        broken_offset: None,
    }
}

impl Mem {
    fn read(&self, band_size: u64, offset: u64, len: usize) -> Result<Vec<u8>, String> {
        if self.broken_offset == Some(offset) {
            return Err("disk on fire".to_string());
        }
        let files = self.bands.as_ref().unwrap();
        let mut held: Vec<Option<Vec<u8>>> = Vec::new();
        for p in plan(band_size, offset, len) {
            let name = band_name(p.index);
            held.push(files.iter().find(|(n, _)| *n == name).map(|(_, c)| {
                let from = c.len().min(p.within.min(usize::MAX as u64) as usize);
                let to = c.len().min(from + p.len);
                c[from..to].to_vec()
            }));
        }
        Ok(read_at(band_size, offset, len, &held))
    }

    fn reply(&self, request: Request) -> Reply {
        match request {
            Request::IsDirectory => Reply::Directory(self.directory),
            Request::ReadInfo => Reply::Text(self.info.clone()),
            Request::ReadBackup => Reply::Text(self.backup.clone()),
            Request::ListBands => Reply::Listing(match &self.bands {
                None => Err("no such directory".to_string()),
                Some(v) => Ok(v
                    .iter()
                    .map(|(name, c)| BandEntry {
                        name: name.clone(),
                        facts: Some(FileFacts { is_file: true, len: c.len() as u64 }),
                    })
                    .collect()),
            }),
            Request::Read { band_size, offset, len } => {
                Reply::Bytes(self.read(band_size, offset, len))
            }
            Request::Nothing => panic!("nothing was asked"),
        }
    }

    fn survey(&self) -> (Result<Analysis, AnalyseError>, Vec<Request>) {
        let mut survey = analyse();
        let mut asked: Vec<Request> = Vec::new();
        loop {
            let request = survey.request();
            if request == Request::Nothing {
                break;
            }
            asked.push(request);
            survey = survey.advance(self.reply(request));
        }
        match survey {
            Survey::Done(result) => (result, asked),
            other => panic!("not done: {other:?}"),
        }
    }

    fn analysis(&self) -> Analysis {
        self.survey().0.unwrap()
    }
}

const APFS_GUID: [u8; 16] = [
    0xef, 0x57, 0x34, 0x7c, 0x00, 0x00, 0xaa, 0x11, 0xaa, 0x11, 0x00, 0x30, 0x65, 0x43, 0xec, 0xac,
];

/// A first band with a GPT of these partitions: type, first sector, last sector.
fn gpt(partitions: &[([u8; 16], u64, u64)]) -> Vec<u8> {
    let mut band = vec![0u8; 1 << 20];
    band[512..520].copy_from_slice(b"EFI PART");
    band[584..592].copy_from_slice(&2u64.to_le_bytes());
    band[592..596].copy_from_slice(&128u32.to_le_bytes());
    band[596..600].copy_from_slice(&128u32.to_le_bytes());
    for (i, (guid, start, end)) in partitions.iter().enumerate() {
        let at = 1024 + i * 128;
        band[at..at + 16].copy_from_slice(guid);
        band[at + 32..at + 40].copy_from_slice(&start.to_le_bytes());
        band[at + 40..at + 48].copy_from_slice(&end.to_le_bytes());
    }
    band
}

fn put_apfs(band: &mut [u8], lba: usize, keylocker_blocks: u64) {
    let at = lba * 512;
    band[at + 0x20..at + 0x24].copy_from_slice(b"NXSB");
    band[at + 0x24..at + 0x28].copy_from_slice(&4096u32.to_le_bytes());
    band[at + 0x28..at + 0x30].copy_from_slice(&77u64.to_le_bytes());
    band[at + 0x610..at + 0x618].copy_from_slice(&keylocker_blocks.to_le_bytes());
}

#[test]
fn a_sound_bundle() {
    let mut band = gpt(&[(APFS_GUID, 40, 139), ([9; 16], 200, 299)]);
    put_apfs(&mut band, 40, 0);
    band[200 * 512 + 1024..200 * 512 + 1026].copy_from_slice(b"HX");
    let m = mem(vec![("7", vec![1]), ("0", band)]);
    let (result, asked) = m.survey();
    let a = result.unwrap();
    assert_eq!(a.health, Health::Sound);
    assert_eq!((a.band_size, a.declared_size), (1048576, 10737418240));
    assert_eq!((a.band_count, a.zero_length_bands), (2, 0));
    assert_eq!(a.info_source, "Info.plist");
    assert!(a.notes.is_empty());
    assert_eq!(a.partitions.len(), 2);
    let p = &a.partitions[0];
    assert_eq!((p.scheme, p.kind.as_str(), p.start_lba, p.sectors), ("GPT", "Apple_APFS", 40, 100));
    assert_eq!(p.filesystem, Some("APFS"));
    let info = p.apfs.as_ref().unwrap();
    assert_eq!((info.block_size, info.block_count, info.keylocker_blocks), (4096, 77, 0));
    let q = &a.partitions[1];
    assert_eq!((q.kind.as_str(), q.start_lba, q.sectors), ("other", 200, 100));
    assert_eq!(q.filesystem, Some("HFSX"));
    assert!(q.apfs.is_none());
    let read = |offset: u64, len: usize| Request::Read { band_size: 1048576, offset, len };
    assert_eq!(
        asked,
        vec![
            Request::IsDirectory,
            Request::ReadInfo,
            Request::ListBands,
            read(0, 17408),
            read(1024, 16384),
            read(40 * 512, 64),
            read(40 * 512, 0x618),
            read(200 * 512, 64),
            read(200 * 512 + 1024, 2),
        ]
    );
}

#[test]
fn an_encrypted_image_is_suspect() {
    let mut band = gpt(&[(APFS_GUID, 40, 139)]);
    put_apfs(&mut band, 40, 8);
    let a = mem(vec![("0", band.clone())]).analysis();
    assert_eq!(a.health, Health::Suspect);
    assert_eq!(
        a.notes,
        vec!["container keybag observed — encryption is in play; contents may not be readable without a key"]
    );
    let b = mem(vec![("0", band), ("1", vec![])]).analysis();
    assert_eq!(b.health, Health::Suspect, "the keybag has the last word");
    assert_eq!(b.notes[0], "1 zero-length bands — signature of a truncated copy");
}

#[test]
fn a_truncated_band_set_is_unusable() {
    let a = mem(vec![]).analysis();
    assert_eq!(a.health, Health::Unusable);
    assert_eq!(a.notes, vec!["bands/ is empty — no data at all"]);
    let b = mem(vec![("1", vec![1]), ("2", vec![])]).analysis();
    assert_eq!(b.health, Health::Unusable);
    assert_eq!(
        b.notes,
        vec![
            "1 zero-length bands — signature of a truncated copy",
            "band 0 absent — partition map unreadable, image cannot mount",
        ]
    );
    assert!(b.partitions.is_empty());
}

#[test]
fn an_unrecognised_filesystem_is_unusable() {
    let a = mem(vec![("0", gpt(&[([1; 16], 40, 139)]))]).analysis();
    assert_eq!(a.health, Health::Unusable);
    assert_eq!(a.partitions[0].filesystem, None);
    assert_eq!(
        a.notes,
        vec!["partitions found but no recognised filesystem — this is what 'no mountable file systems' means"]
    );
}

#[test]
fn a_damaged_or_blank_map_is_unusable() {
    let mut damaged = vec![0u8; 4096];
    damaged[3] = 1;
    let a = mem(vec![("0", damaged)]).analysis();
    assert_eq!(a.health, Health::Unusable);
    assert_eq!(a.notes, vec!["no GPT or APM signature at offset 0 — partition map damaged"]);
    let b = mem(vec![("0", vec![0u8; 10])]).analysis();
    assert_eq!(b.health, Health::Unusable);
    assert_eq!(
        b.notes,
        vec![
            "no GPT or APM signature at offset 0 — partition map damaged",
            "band 0 is entirely zero — image was never formatted",
        ]
    );
    assert!(b.partitions.is_empty());
}

const EMPTY_MAP: &str = "partition map lists no usable partition — no filesystem found";

#[test]
fn a_map_without_partitions_is_not_sound() {
    let a = mem(vec![("0", gpt(&[]))]).analysis();
    assert_eq!(a.health, Health::Suspect);
    assert!(a.partitions.is_empty());
    assert_eq!(a.notes, vec![EMPTY_MAP]);
    let mut odd = gpt(&[(APFS_GUID, 40, 139)]);
    odd[596..600].copy_from_slice(&0u32.to_le_bytes());
    let b = mem(vec![("0", odd)]).analysis();
    assert_eq!(b.health, Health::Suspect);
    assert!(b.partitions.is_empty());
    assert_eq!(b.notes, vec![EMPTY_MAP]);
    let c = mem(vec![("0", b"ER".to_vec())]).analysis();
    assert_eq!(c.health, Health::Suspect);
    assert_eq!(c.notes, vec!["Apple Partition Map (pre-GPT layout)", EMPTY_MAP]);
    let d = mem(vec![("0", gpt(&[])), ("1", vec![])]).analysis();
    assert_eq!(d.health, Health::Unusable, "an empty map makes nothing better");
    assert_eq!(d.notes[1], EMPTY_MAP);
}

#[test]
fn a_map_may_span_bands() {
    let mut image = gpt(&[(APFS_GUID, 40, 139)]);
    put_apfs(&mut image, 40, 3);
    let mut m = mem(vec![]);
    m.info = Ok(PLIST.replace("1048576", "512"));
    m.bands = Some(
        image.chunks(512).enumerate().map(|(i, c)| (band_name(i as u64), c.to_vec())).collect(),
    );
    let a = m.analysis();
    assert_eq!(a.partitions.len(), 1);
    assert_eq!(a.partitions[0].apfs.as_ref().unwrap().keylocker_blocks, 3);
    assert_eq!(a.health, Health::Suspect);
}

#[test]
fn an_apple_partition_map_is_followed() {
    let mut band = vec![0u8; 1 << 20];
    band[..2].copy_from_slice(b"ER");
    band[512..514].copy_from_slice(b"PM");
    band[512 + 8..512 + 12].copy_from_slice(&64u32.to_be_bytes());
    band[512 + 12..512 + 16].copy_from_slice(&1000u32.to_be_bytes());
    band[512 + 48..512 + 57].copy_from_slice(b"Apple_HFS");
    band[1024..1026].copy_from_slice(b"PM");
    band[1024 + 8..1024 + 12].copy_from_slice(&128u32.to_be_bytes());
    band[64 * 512 + 1024..64 * 512 + 1026].copy_from_slice(b"H+");
    put_apfs(&mut band, 128, 5);
    let a = mem(vec![("0", band)]).analysis();
    assert_eq!(a.health, Health::Sound);
    assert_eq!(a.notes, vec!["Apple Partition Map (pre-GPT layout)"]);
    assert_eq!(a.partitions.len(), 2);
    let p = &a.partitions[0];
    assert_eq!((p.scheme, p.kind.as_str(), p.start_lba, p.sectors), ("APM", "Apple_HFS", 64, 1000));
    assert_eq!(p.filesystem, Some("HFS+"));
    let q = &a.partitions[1];
    assert_eq!(q.filesystem, Some("APFS"));
    assert!(q.apfs.is_none(), "no superblock is read behind an Apple Partition Map");
}

#[test]
fn the_backup_recovers_the_property_list() {
    let mut m = mem(vec![("0", gpt(&[]))]);
    m.info = Err("torn".to_string());
    m.backup = Ok(PLIST.to_string());
    let (result, asked) = m.survey();
    let a = result.unwrap();
    assert_eq!(a.health, Health::Suspect);
    assert_eq!(a.info_source, "Info.bckup");
    assert_eq!(a.notes, vec!["Info.plist unreadable — recovered from Info.bckup", EMPTY_MAP]);
    assert_eq!(asked[2], Request::ReadBackup);
}

#[test]
fn a_binary_property_list_falls_back_to_the_backup() {
    let mut m = mem(vec![("1", vec![1])]);
    m.info = Ok("bplist00".to_string());
    m.backup = Ok("<key>band-size</key><integer>512</integer>".to_string());
    let (result, asked) = m.survey();
    let a = result.unwrap();
    assert_eq!((a.info_source, a.band_size), ("Info.bckup", 512));
    assert_eq!(a.notes[0], "Info.plist unreadable — recovered from Info.bckup");
    assert_eq!(asked[2], Request::ReadBackup);
    m.backup = Ok("bplist00".to_string());
    assert_eq!(failure(&m), "binary plist — not parsed by this reader");
    m.backup = Err("no backup".to_string());
    assert_eq!(failure(&m), "binary plist — not parsed by this reader");
    m.info = Err("torn".to_string());
    m.backup = Ok("bplist00".to_string());
    assert_eq!(failure(&m), "binary plist — not parsed by this reader");
}

#[test]
fn a_readable_property_list_needs_no_backup() {
    let mut m = mem(vec![("0", gpt(&[]))]);
    m.backup = Ok("<key>band-size</key><integer>512</integer>".to_string());
    let (result, asked) = m.survey();
    assert_eq!(result.unwrap().info_source, "Info.plist");
    assert!(!asked.contains(&Request::ReadBackup));
}

fn failure(m: &Mem) -> String {
    m.survey().0.unwrap_err().message()
}

#[test]
fn failures_are_worded() {
    let mut m = mem(vec![("0", gpt(&[]))]);
    m.directory = false;
    assert_eq!(failure(&m), "not a directory — bundle missing");
    m.directory = true;
    m.info = Err("torn".to_string());
    assert_eq!(failure(&m), "neither Info.plist nor Info.bckup readable: no backup");
    m.info = Ok("bplist00...".to_string());
    assert_eq!(failure(&m), "binary plist — not parsed by this reader");
    m.info = Ok("<plist/>".to_string());
    assert_eq!(failure(&m), "no band-size in plist — band map unusable");
    m.info = Ok(PLIST.to_string());
    m.broken_offset = Some(0);
    assert_eq!(failure(&m), "disk on fire");
    m.broken_offset = Some(1024);
    assert_eq!(failure(&m), "disk on fire");
    m.bands = None;
    assert_eq!(failure(&m), "no bands directory: no such directory");
}

#[test]
fn a_failing_read_of_a_partition_ends_the_survey() {
    let mut band = gpt(&[(APFS_GUID, 40, 139)]);
    put_apfs(&mut band, 40, 0);
    let mut m = mem(vec![("0", band.clone())]);
    m.broken_offset = Some(40 * 512);
    assert!(matches!(m.survey().0, Err(AnalyseError::Unreadable(_))));
    band[40 * 512 + 0x20] = 0;
    let mut n = mem(vec![("0", band)]);
    n.broken_offset = Some(40 * 512 + 1024);
    assert!(matches!(n.survey().0, Err(AnalyseError::Unreadable(_))));
}

#[test]
fn a_band_size_of_zero_is_refused_where_it_is_needed() {
    let mut m = mem(vec![("0", gpt(&[]))]);
    m.info = Ok("<key>band-size</key><integer>0</integer>".to_string());
    assert!(matches!(m.survey().0, Err(AnalyseError::ZeroBandSize)));
    m.bands = Some(vec![("1".to_string(), vec![1])]);
    assert_eq!(m.analysis().health, Health::Unusable);
}

#[test]
fn what_64_bits_cannot_reach_is_refused() {
    let mut far_table = gpt(&[]);
    far_table[584..592].copy_from_slice(&(1u64 << 55).to_le_bytes());
    assert!(matches!(mem(vec![("0", far_table)]).survey().0, Err(AnalyseError::OutOfRange)));
    let far_start = gpt(&[([1; 16], 1 << 55, 1 << 55)]);
    assert!(matches!(mem(vec![("0", far_start)]).survey().0, Err(AnalyseError::OutOfRange)));
    let far_header = gpt(&[([1; 16], (1 << 55) - 1, 1 << 55)]);
    assert!(matches!(mem(vec![("0", far_header)]).survey().0, Err(AnalyseError::OutOfRange)));
    let all_sectors = gpt(&[([1; 16], 0, u64::MAX)]);
    assert!(matches!(mem(vec![("0", all_sectors)]).survey().0, Err(AnalyseError::OutOfRange)));
    let far_but_reachable = gpt(&[([1; 16], (1 << 55) - 3, u64::MAX)]);
    assert_eq!(mem(vec![("0", far_but_reachable)]).analysis().partitions.len(), 1);
}

#[test]
fn only_files_with_a_band_name_count() {
    let entry = |name: &str, facts: Option<FileFacts>| BandEntry { name: name.to_string(), facts };
    let survey = analyse()
        .advance(Reply::Directory(true))
        .advance(Reply::Text(Ok(PLIST.to_string())))
        .advance(Reply::Listing(Ok(vec![
            entry("0", Some(FileFacts { is_file: false, len: 0 })),
            entry("0", None),
            entry("3", Some(FileFacts { is_file: true, len: 9 })),
            entry("1a", Some(FileFacts { is_file: true, len: 0 })),
            entry(".DS_Store", Some(FileFacts { is_file: true, len: 0 })),
        ])));
    match survey {
        Survey::Done(Ok(a)) => {
            assert_eq!((a.band_count, a.zero_length_bands), (2, 1));
            assert_eq!(a.health, Health::Unusable);
        }
        other => panic!("{other:?}"),
    }
}

#[test]
fn a_listing_without_files_is_empty() {
    let survey = analyse()
        .advance(Reply::Directory(true))
        .advance(Reply::Text(Ok(PLIST.to_string())))
        .advance(Reply::Listing(Ok(vec![
            BandEntry { name: "0".to_string(), facts: Some(FileFacts { is_file: false, len: 0 }) },
            BandEntry { name: "1".to_string(), facts: None },
        ])));
    match survey {
        Survey::Done(Ok(a)) => {
            assert_eq!((a.band_count, a.health), (0, Health::Unusable));
            assert_eq!(a.notes, vec!["bands/ is empty — no data at all"]);
        }
        other => panic!("{other:?}"),
    }
}

#[test]
fn a_stray_file_is_no_truncated_band() {
    let mut band = gpt(&[(APFS_GUID, 40, 139)]);
    put_apfs(&mut band, 40, 0);
    let a = mem(vec![("0", band), (".DS_Store", vec![])]).analysis();
    assert_eq!((a.band_count, a.zero_length_bands), (1, 0));
    assert_eq!(a.health, Health::Sound);
    let b = mem(vec![(".DS_Store", vec![])]).analysis();
    assert_eq!((b.band_count, b.health), (0, Health::Unusable));
    assert_eq!(
        b.notes,
        vec!["band 0 absent — partition map unreadable, image cannot mount"],
        "a directory with a file in it is not empty"
    );
}

#[test]
fn absent_bands_change_the_count_alone() {
    let mut band = gpt(&[(APFS_GUID, 40, 139)]);
    put_apfs(&mut band, 40, 0);
    let a = mem(vec![("0", band.clone())]).analysis();
    let b = mem(vec![("0", band), ("1", vec![1]), ("ff", vec![1])]).analysis();
    assert_eq!((a.health, a.notes), (b.health, b.notes));
    assert_eq!((a.band_count, b.band_count), (1, 3));
}

#[test]
fn the_declared_size_is_no_fault() {
    let mut m = mem(vec![("0", gpt(&[]))]);
    let a = m.analysis();
    m.info = Ok(PLIST.replace("10737418240", "1"));
    let b = m.analysis();
    assert_eq!((a.health, &a.notes), (b.health, &b.notes));
    assert_eq!(b.declared_size, 1);
    for odd in ["", "about ten", "-1", "18446744073709551616", " \u{a0}"] {
        m.info = Ok(PLIST.replace("10737418240", odd));
        let c = m.analysis();
        assert_eq!((a.health, &a.notes), (c.health, &c.notes));
        assert_eq!((a.band_size, a.band_count), (c.band_size, c.band_count));
        assert_eq!(c.declared_size, 0, "{odd:?} is no size");
    }
}
