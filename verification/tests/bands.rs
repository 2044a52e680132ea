use sparsebundle_tools::{
    adjacent_head, band_index, band_name, bands, cut_head, next_piece, plan, read_at, Band, Piece,
    OVERLAP,
};

fn names(list: &[&str]) -> Vec<String> {
    list.iter().map(|s| s.to_string()).collect()
}

/// Reads from a bundle in memory: band files by name.
fn read_from(files: &[(&str, Vec<u8>)], band_size: u64, offset: u64, len: usize) -> Vec<u8> {
    let mut held: Vec<Option<Vec<u8>>> = Vec::new();
    for p in plan(band_size, offset, len) {
        let name = band_name(p.index);
        held.push(files.iter().find(|(n, _)| *n == name).map(|(_, content)| {
            let from = content.len().min(p.within as usize);
            let to = content.len().min(from + p.len);
            content[from..to].to_vec()
        }));
    }
    read_at(band_size, offset, len, &held)
}

#[test]
fn band_filenames_are_unpadded_lowercase_hex() {
    assert_eq!(band_name(0u64), "0");
    assert_eq!(band_name(255u64), "ff");
    assert_eq!(band_name(4096u64), "1000");
    assert_eq!(band_name(255u64), format!("{:x}", 255u64));
    assert_eq!(band_name(u64::MAX), format!("{:x}", u64::MAX));
}

#[test]
fn missing_band_reads_as_zeros_not_an_error() {
    let got = read_from(&[], 1024, 8192, 16);
    assert_eq!(got, vec![0u8; 16]);
}

#[test]
fn read_at_resolves_offset_to_the_right_band() {
    // band-size 256, so offset 512 is band 2 ("2"), 16 bytes in.
    let files = [("2", vec![0xAB; 256])];
    assert_eq!(next_piece(256, 512 + 16, 4), Piece { index: 2, within: 16, len: 4 });
    let got = read_from(&files, 256, 512 + 16, 4);
    assert_eq!(got, vec![0xAB; 4]);
}

#[test]
fn a_read_goes_on_in_the_next_band() {
    let files = [("0", vec![1, 1, 1, 1]), ("1", vec![2, 2, 2, 2])];
    assert_eq!(read_from(&files, 4, 2, 4), vec![1, 1, 2, 2]);
    assert_eq!(read_from(&files, 4, 3, 7), vec![1, 2, 2, 2, 2, 0, 0]);
    let gap = [("0", vec![1; 4]), ("2", vec![3; 4])];
    assert_eq!(read_from(&gap, 4, 2, 8), vec![1, 1, 0, 0, 0, 0, 3, 3]);
    for i in 0..8 {
        assert_eq!(read_from(&gap, 4, 2, 8)[i], read_from(&gap, 4, 2 + i as u64, 1)[0]);
    }
}

#[test]
fn read_beyond_the_band_file_is_zeros() {
    let files = [("0", vec![1, 2, 3]), ("1", vec![9; 4])];
    assert_eq!(read_from(&files, 4, 1, 6), vec![2, 3, 0, 9, 9, 9]);
    assert_eq!(read_from(&files, 4, 3, 2), vec![0, 9]);
    assert_eq!(read_from(&files, 4, 4, 2), vec![9, 9]);
    assert_eq!(read_from(&files, 4, 0, 0), Vec::<u8>::new());
    let long = [("0", vec![7; 9])];
    assert_eq!(read_from(&long, 4, 2, 4), vec![7, 7, 0, 0], "a band ends where the next begins");
}

#[test]
fn pieces_end_with_their_band() {
    let piece = |index: u64, within: u64, len: usize| Piece { index, within, len };
    assert_eq!(next_piece(256, 0, 1), piece(0, 0, 1));
    assert_eq!(next_piece(256, 255, 2), piece(0, 255, 1));
    assert_eq!(next_piece(256, 256, 512), piece(1, 0, 256));
    assert_eq!(next_piece(u64::MAX, u64::MAX - 1, 5), piece(0, u64::MAX - 1, 1));
    assert_eq!(plan(4, 2, 9), vec![piece(0, 2, 2), piece(1, 0, 4), piece(2, 0, 3)]);
    assert_eq!(plan(4, 2, 0), vec![]);
}

#[test]
fn nothing_lies_beyond_64_bits() {
    assert_eq!(plan(1, u64::MAX, 3), vec![Piece { index: u64::MAX, within: 0, len: 1 }]);
    let files = [("ffffffffffffffff", vec![5])];
    assert_eq!(read_from(&files, 1, u64::MAX, 3), vec![5, 0, 0]);
    assert_eq!(read_from(&files, 1, u64::MAX - 1, 2), vec![0, 5]);
}

#[test]
fn distinct_canonical_names_rise_strictly() {
    let list: Vec<String> = [300u64, 2, 16, 0, 15, 255, 3].iter().map(|i| band_name(*i)).collect();
    let got = bands(&list);
    assert_eq!(got.len(), list.len());
    assert!(got.windows(2).all(|w| w[0].index < w[1].index));
}

#[test]
fn names_give_indices() {
    assert_eq!(band_index("b8b"), Some(0xb8b));
    assert_eq!(band_index("FF"), Some(255));
    assert_eq!(band_index(".DS_Store"), None);
    assert_eq!(band_index(""), None);
}

#[test]
fn a_head_is_cut_to_the_overlap() {
    assert_eq!(cut_head(vec![1, 2, 3]), vec![1, 2, 3]);
    assert_eq!(cut_head(vec![4; OVERLAP + 1]), vec![4; OVERLAP]);
    assert_eq!(cut_head(Vec::new()), Vec::<u8>::new());
}

#[test]
fn bands_sort_numerically_not_lexically() {
    let got: Vec<u64> = bands(&names(&["0", "a", "10", "2"]))
        .iter()
        .map(|b| b.index)
        .collect();
    assert_eq!(got, vec![0, 2, 10, 16]);
}

#[test]
fn other_names_are_no_bands() {
    let got: Vec<(u64, String)> =
        bands(&names(&["token", "b8b", ".DS_Store", "", "+", "-1", "10000000000000000", "\u{fffd}", "1"]))
            .into_iter()
            .map(|b| (b.index, b.name))
            .collect();
    assert_eq!(got, vec![(1, "1".to_string()), (0xb8b, "b8b".to_string())]);
}

#[test]
fn names_of_the_same_index_keep_their_order() {
    let got: Vec<String> = bands(&names(&["A", "3", "0a", "a", "03", "+a"]))
        .into_iter()
        .map(|b| b.name)
        .collect();
    assert_eq!(got, names(&["3", "03", "A", "0a", "a", "+a"]));
}

#[test]
fn many_bands_are_sorted_as_a_stable_sort_would() {
    let mut list: Vec<String> = Vec::new();
    let mut x: u64 = 12345;
    for _ in 0..20000 {
        x = x.wrapping_mul(6364136223846793005).wrapping_add(1442695040888963407);
        list.push(format!("{:x}", (x >> 40) % 9000));
    }
    let mut expected: Vec<(u64, String)> = list
        .iter()
        .map(|n| (u64::from_str_radix(n, 16).unwrap(), n.clone()))
        .collect();
    expected.sort_by_key(|b| b.0);
    let got: Vec<(u64, String)> = bands(&list).into_iter().map(|b| (b.index, b.name)).collect();
    assert_eq!(got, expected);
}

#[test]
fn band_names_are_read_back() {
    for index in [0u64, 1, 9, 10, 15, 16, 255, 0xb8b, u64::MAX] {
        let got = bands(&vec![band_name(index)]);
        assert_eq!(got.len(), 1);
        assert_eq!(got[0].index, index);
    }
}

#[test]
fn adjacency_is_exactly_one_greater() {
    let band = |index: u64| Band { index, name: band_name(index) };
    assert_eq!(adjacent_head(&band(4), Some(&band(5))).map(|b| b.index), Some(5));
    assert!(adjacent_head(&band(4), Some(&band(6))).is_none());
    assert!(adjacent_head(&band(4), Some(&band(4))).is_none());
    assert!(adjacent_head(&band(4), Some(&band(3))).is_none());
    assert!(adjacent_head(&band(4), None).is_none());
    assert!(adjacent_head(&band(u64::MAX), Some(&band(0))).is_none());
}
