use let_engine::assets::{AssetError, Cache, Compression};
use let_engine::packing::{clamp_to_compression_level, pack_group, sort_groups};

#[test]
fn small_assets_fill_sections_in_order() {
    let groups = vec![("a", 4), ("b", 4), ("c", 4), ("d", 1)];
    assert_eq!(sort_groups(groups, 10), vec![vec!["a", "b"], vec!["c", "d"]]);
}

#[test]
fn large_assets_get_sections_of_their_own_at_once() {
    let groups = vec![("a", 3), ("big", 20), ("b", 3), ("c", 9)];
    assert_eq!(sort_groups(groups, 10), vec![vec!["big"], vec!["a", "b"], vec!["c"]]);
}

#[test]
fn a_full_section_closes_before_the_asset_that_would_overflow_it() {
    let groups = vec![("a", 10), ("b", 1)];
    assert_eq!(sort_groups(groups, 10), vec![vec!["a"], vec!["b"]]);
}

#[test]
fn no_assets_no_sections() {
    let groups: Vec<(&str, usize)> = vec![];
    assert_eq!(sort_groups(groups, 10), Vec::<Vec<&str>>::new());
}

#[test]
fn every_asset_lands_in_exactly_one_section() {
    let sizes = [5usize, 0, 12, 7, 3, 3, 30, 1, 9, 2];
    let groups: Vec<(usize, usize)> = sizes.iter().copied().enumerate().collect();
    let sections = sort_groups(groups, 10);
    let mut seen: Vec<usize> = sections.iter().flatten().copied().collect();
    seen.sort();
    assert_eq!(seen, (0..sizes.len()).collect::<Vec<_>>());
    for section in &sections {
        assert!(!section.is_empty());
        let total: usize = section.iter().map(|i| sizes[*i]).sum();
        assert!(total <= 10 || (section.len() == 1 && sizes[section[0]] > 10));
    }
}

#[test]
fn compression_levels_are_clamped_per_algorithm() {
    assert_eq!(clamp_to_compression_level(100, &Compression::Uncompressed), 100);
    assert_eq!(clamp_to_compression_level(100, &Compression::Deflate), 9);
    assert_eq!(clamp_to_compression_level(100, &Compression::Bwt), 9);
    assert_eq!(clamp_to_compression_level(100, &Compression::Zstd), 22);
    assert_eq!(clamp_to_compression_level(100, &Compression::Lzma), 9);
    assert_eq!(clamp_to_compression_level(100, &Compression::Lz4), 16);
    assert_eq!(clamp_to_compression_level(5, &Compression::Zstd), 5);
}

#[test]
fn compressed_data_decompresses_to_itself() {
    let data: Vec<u8> = (0..200u8).cycle().take(5000).collect();
    for compression in [
        Compression::Uncompressed,
        Compression::Deflate,
        Compression::Bwt,
        Compression::Zstd,
        Compression::Lzma,
        Compression::Lz4,
    ] {
        let packed = compression.compress(&data, 5).unwrap();
        if compression != Compression::Uncompressed {
            assert!(packed.len() < data.len(), "{compression:?}");
        }
        assert_eq!(compression.decompress(&packed).unwrap(), data, "{compression:?}");
    }
}

#[test]
fn compression_names_in_any_case() {
    assert_eq!(Compression::from_name("Deflate"), Some(Compression::Deflate));
    assert_eq!(Compression::from_name("flate"), Some(Compression::Deflate));
    assert_eq!(Compression::from_name("BZIP2"), Some(Compression::Bwt));
    assert_eq!(Compression::from_name("Burrows-Wheeler-Transform"), Some(Compression::Bwt));
    assert_eq!(Compression::from_name("ZStandard"), Some(Compression::Zstd));
    assert_eq!(Compression::from_name("LZMA"), Some(Compression::Lzma));
    assert_eq!(Compression::from_name("lz4"), Some(Compression::Lz4));
    assert_eq!(Compression::from_name("none"), None);
    assert_eq!(Compression::from_name("gzip"), None);
}

fn assets(entries: &[(&str, &[u8])]) -> Vec<(String, Vec<u8>)> {
    entries.iter().map(|(k, v)| (k.to_string(), v.to_vec())).collect()
}

#[test]
fn packed_assets_read_back() {
    for compression in [
        Compression::Uncompressed,
        Compression::Deflate,
        Compression::Bwt,
        Compression::Zstd,
        Compression::Lzma,
        Compression::Lz4,
    ] {
        let file = pack_group(assets(&[("a.txt", b"first"), ("dir/b.bin", &[0, 1, 2, 255])]), compression, 3).unwrap();
        let mut cache = Cache::new();
        assert_eq!(&*cache.load_group("a.txt", compression, &file).unwrap(), b"first", "{compression:?}");
        assert_eq!(&*cache.get("dir/b.bin").unwrap(), &[0u8, 1, 2, 255], "{compression:?}");
        assert!(cache.get("c").is_none());
    }
}

#[test]
fn a_path_packed_twice_keeps_its_later_data() {
    let file = pack_group(assets(&[("a", b"old"), ("b", b"x"), ("a", b"new")]), Compression::Zstd, 3).unwrap();
    let mut cache = Cache::new();
    assert_eq!(&*cache.load_group("a", Compression::Zstd, &file).unwrap(), b"new");
    assert_eq!(&*cache.get("b").unwrap(), b"x");
}

#[test]
fn a_packed_group_without_the_asset_is_an_unsupported_format() {
    let file = pack_group(assets(&[("a", b"x")]), Compression::Lz4, 3).unwrap();
    let mut cache = Cache::new();
    assert!(matches!(cache.load_group("b", Compression::Lz4, &file), Err(AssetError::UnsupportedFormat(_))));
    assert_eq!(&*cache.get("a").unwrap(), b"x");
}
