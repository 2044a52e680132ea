use sparsebundle_tools::{Analysis, ApfsInfo, Health, Partition};

fn plain(health: Health, band_count: usize, band_size: u64, declared_size: u64) -> Analysis {
    Analysis {
        health,
        band_size,
        declared_size,
        band_count,
        zero_length_bands: 0,
        info_source: "Info.plist",
        partitions: Vec::new(),
        notes: Vec::new(),
    }
}

fn gib(n: u64) -> String {
    format!("{:.1}", n as f64 / 1_073_741_824.0)
}

#[test]
fn summary_reads_as_documented() {
    let mut a = plain(Health::Sound, 2956, 268435456, 4831838208000);
    a.partitions.push(Partition {
        scheme: "GPT",
        kind: "Apple_APFS".to_string(),
        start_lba: 40,
        sectors: 9436974284,
        filesystem: Some("APFS"),
        apfs: Some(ApfsInfo {
            block_size: 4096,
            block_count: 9374660,
            incompatible_features: 2,
            keylocker_blocks: 0,
        }),
    });
    assert_eq!(
        a.render(),
        "  Sound · bands 2956 (739.0 GiB allocated of 4500.0 GiB declared) · info from Info.plist\n    \
         GPT Apple_APFS @ LBA 40 (4499.9 GiB) fs=APFS [9374660 blocks of 4096B · no container keybag observed]\n"
    );
}

#[test]
fn notes_and_unrecognised_partitions_have_their_lines() {
    let mut a = plain(Health::Unusable, 0, 1, 0);
    a.info_source = "Info.bckup";
    a.partitions.push(Partition {
        scheme: "APM",
        kind: String::new(),
        start_lba: 0,
        sectors: 0,
        filesystem: None,
        apfs: None,
    });
    a.partitions.push(Partition {
        scheme: "GPT",
        kind: "other".to_string(),
        start_lba: 1,
        sectors: 2097152,
        filesystem: Some("APFS"),
        apfs: Some(ApfsInfo {
            block_size: 1,
            block_count: 0,
            incompatible_features: 0,
            keylocker_blocks: 1,
        }),
    });
    a.notes.push("first".to_string());
    a.notes.push("second — note".to_string());
    assert_eq!(
        a.render(),
        "  Unusable · bands 0 (0.0 GiB allocated of 0.0 GiB declared) · info from Info.bckup\n    \
         APM  @ LBA 0 (0.0 GiB) fs=unrecognised\n    \
         GPT other @ LBA 1 (1.0 GiB) fs=APFS [0 blocks of 1B · CONTAINER KEYBAG OBSERVED]\n    \
         note: first\n    note: second — note\n"
    );
    assert!(plain(Health::Suspect, 1, 1, 1).render().starts_with("  Suspect · bands 1 ("));
}

#[test]
fn gibibytes_are_printed_as_doubles_would_be() {
    let mut samples: Vec<u64> = Vec::new();
    for shift in 0..64 {
        let p = 1u64 << shift;
        for d in [0i64, 1, 2, 3, -1, -2, -3, 1024, -1024, 1025, 2047, 2048, 2049] {
            samples.push(p.wrapping_add(d as u64));
        }
    }
    // Halfway between two tenths, and next to it.
    for k in 0..200u64 {
        let half = (2 * k + 1) * 53687091;
        for d in 0..4 {
            samples.push(half + d);
        }
        samples.push(k * 268435456);
        samples.push(k * 134217728);
    }
    let mut x: u64 = 99;
    for _ in 0..5000 {
        x = x.wrapping_mul(6364136223846793005).wrapping_add(1442695040888963407);
        samples.push(x);
        samples.push(x >> 11);
        samples.push(x >> 30);
    }
    samples.push(u64::MAX);
    for n in samples {
        let a = plain(Health::Sound, 1, n, n);
        assert_eq!(
            a.render(),
            format!(
                "  Sound · bands 1 ({} GiB allocated of {} GiB declared) · info from Info.plist\n",
                gib(n),
                gib(n)
            )
        );
        let mut b = plain(Health::Sound, 0, 0, 0);
        b.partitions.push(Partition {
            scheme: "GPT",
            kind: "other".to_string(),
            start_lba: n,
            sectors: n,
            filesystem: None,
            apfs: None,
        });
        let line = format!(
            "    GPT other @ LBA {} ({:.1} GiB) fs=unrecognised\n",
            n,
            n as f64 * 512f64 / 1_073_741_824.0
        );
        assert!(b.render().ends_with(&line), "{n}");
    }
}

#[test]
fn halves_go_to_the_even_tenth() {
    assert!(plain(Health::Sound, 1, 268435456, 805306368)
        .render()
        .contains("(0.2 GiB allocated of 0.8 GiB declared)"));
}

#[test]
fn allocated_is_bands_times_band_size() {
    assert_eq!(plain(Health::Sound, 2956, 268435456, 1).allocated_bytes(), 793495207936);
    assert_eq!(plain(Health::Sound, 0, u64::MAX, 1).allocated_bytes(), 0);
    assert_eq!(plain(Health::Sound, 1, u64::MAX, 1).allocated_bytes(), u64::MAX);
}
