use sparsebundle_tools::{adjacent_head, bands, cut_head, stream_band, BandStream, CHUNK, OVERLAP};

/// Collect every window of a band of a bundle in memory, for assertions.
fn windows(files: &[(&str, &[u8])], which: usize) -> Vec<(u64, Vec<u8>)> {
    let names: Vec<String> = files.iter().map(|(n, _)| n.to_string()).collect();
    let content = |name: &str| files.iter().find(|(n, _)| *n == name).unwrap().1;
    let list = bands(&names);
    let tail = adjacent_head(&list[which], list.get(which + 1))
        .map(|b| cut_head(content(&b.name).to_vec()));
    stream_band(content(&list[which].name), tail)
        .0
        .into_iter()
        .map(|w| (w.at, w.bytes))
        .collect()
}

#[test]
fn adjacent_bands_are_spliced() {
    let got = windows(&[("0", b"aaaa"), ("1", b"bbbb")], 0);
    assert!(
        got.iter()
            .any(|(_, b)| b.windows(8).any(|w| w == b"aaaabbbb")),
        "consecutive bands must be seen spliced: {got:?}"
    );
}

#[test]
fn non_adjacent_bands_are_never_spliced() {
    let files: [(&str, &[u8]); 2] = [("0", b"aaaa"), ("5", b"bbbb")];
    let list = bands(&vec!["0".to_string(), "5".to_string()]);
    assert!(
        adjacent_head(&list[0], list.get(1)).is_none(),
        "a gap must break adjacency"
    );
    let got = windows(&files, 0);
    assert!(
        !got.iter().any(|(_, b)| b.windows(2).any(|w| w == b"ab")),
        "band 0 and band 5 must never appear joined"
    );
}

#[test]
fn a_secret_split_across_a_window_boundary_is_still_seen() {
    let mut data = vec![b'.'; CHUNK - 10];
    data.extend_from_slice(b"SPLIT-ACROSS-THE-WINDOW-BOUNDARY");
    data.extend(vec![b'.'; 1000]);
    let got = windows(&[("0", &data)], 0);
    assert!(
        got.iter().any(|(_, b)| b
            .windows(32)
            .any(|w| w == b"SPLIT-ACROSS-THE-WINDOW-BOUNDARY")),
        "the overlap between windows must keep a straddling secret intact"
    );
}

#[test]
fn window_offsets_are_absolute_within_the_band() {
    let data = vec![b'x'; CHUNK * 2 + 4096];
    let got = windows(&[("0", &data)], 0);
    assert!(
        got.len() >= 2,
        "expected multiple windows, got {}",
        got.len()
    );
    assert_eq!(got[0].0, 0, "first window starts at 0");
    for w in got.windows(2) {
        assert!(
            w[1].0 > w[0].0,
            "window offsets must advance: {:?}",
            (w[0].0, w[1].0)
        );
        let ends_at = w[0].0 + w[0].1.len() as u64;
        assert!(
            w[1].0 < ends_at,
            "gap between windows: {} ends at {ends_at}, next starts at {}",
            w[0].0,
            w[1].0
        );
        assert_eq!(
            ends_at - w[1].0,
            OVERLAP as u64,
            "consecutive windows must overlap by exactly OVERLAP"
        );
    }
}

#[test]
fn sizes_of_chunk_and_overlap() {
    assert_eq!(CHUNK, 8 * 1024 * 1024);
    assert_eq!(OVERLAP, 64 * 1024);
}

#[test]
fn a_band_of_whole_chunks_has_no_empty_window() {
    let data = vec![7u8; CHUNK];
    let (got, total) = stream_band(&data, None);
    assert_eq!(got.len(), 1);
    assert_eq!(got[0].bytes.len(), CHUNK);
    assert_eq!(total, CHUNK as u64);
}

#[test]
fn an_empty_band_shows_only_the_next_head() {
    let (got, total) = stream_band(&[], None);
    assert!(got.is_empty());
    assert_eq!(total, 0);
    let (got, total) = stream_band(&[], Some(b"head".to_vec()));
    assert_eq!(got.len(), 1);
    assert_eq!((got[0].at, &got[0].bytes[..]), (0, &b"head"[..]));
    assert_eq!(total, 0);
}

#[test]
fn the_tail_window_starts_an_overlap_before_the_end() {
    let data: Vec<u8> = (0..OVERLAP + 100).map(|i| (i % 251) as u8).collect();
    let (got, _) = stream_band(&data, Some(vec![1, 2, 3]));
    assert_eq!(got.len(), 2);
    assert_eq!(got[1].at, 100);
    assert_eq!(&got[1].bytes[..OVERLAP], &data[100..]);
    assert_eq!(&got[1].bytes[OVERLAP..], &[1, 2, 3]);
}

#[test]
fn feeding_keeps_what_came_last() {
    let mut s = BandStream::new();
    assert!(!s.ended());
    let first = s.feed(&vec![1u8; CHUNK]).unwrap();
    assert_eq!((first.at, first.bytes.len()), (0, CHUNK));
    assert!(!s.ended());
    let second = s.feed(&[2, 3]).unwrap();
    assert_eq!(second.at, (CHUNK - OVERLAP) as u64);
    assert_eq!(&second.bytes[OVERLAP..], &[2, 3]);
    assert!(s.ended());
    assert_eq!(s.read_total(), CHUNK as u64 + 2);
    let last = s.finish(Some(vec![4])).unwrap();
    assert_eq!(last.at, (CHUNK + 2 - OVERLAP) as u64);
    assert_eq!(&last.bytes[OVERLAP - 2..], &[2, 3, 4]);
}

#[test]
fn an_empty_chunk_ends_the_stream_without_a_window() {
    let mut s = BandStream::new();
    s.feed(&vec![1u8; CHUNK]);
    assert!(s.feed(&[]).is_none());
    assert!(s.ended());
    assert_eq!(s.read_total(), CHUNK as u64);
    assert!(s.finish(None).is_none());
}
