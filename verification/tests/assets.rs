use std::collections::HashMap;
use std::io::Write;

use std::sync::Arc;

use let_engine::assets::{unused_keys, AssetError, Cache, Compression};

fn group(entries: &[(&str, &[u8])]) -> Vec<u8> {
    let map: HashMap<String, Vec<u8>> = entries.iter().map(|(k, v)| (k.to_string(), v.to_vec())).collect();
    bincode::serde::encode_to_vec(&map, bincode::config::standard()).unwrap()
}

#[test]
fn compression_defaults_to_none() {
    assert_eq!(Compression::default(), Compression::Uncompressed);
}

#[test]
fn uncompressed_data_is_copied() {
    assert_eq!(Compression::Uncompressed.decompress(&[1, 2, 3]).unwrap(), vec![1, 2, 3]);
}

#[test]
fn deflate_round_trip() {
    let mut e = flate2::write::GzEncoder::new(Vec::new(), flate2::Compression::default());
    e.write_all(b"hello asset").unwrap();
    let packed = e.finish().unwrap();
    assert_ne!(packed, b"hello asset".to_vec());
    assert_eq!(Compression::Deflate.decompress(&packed).unwrap(), b"hello asset".to_vec());
}

#[test]
fn bzip2_round_trip() {
    let mut e = bzip2::write::BzEncoder::new(Vec::new(), bzip2::Compression::default());
    e.write_all(b"hello asset").unwrap();
    let packed = e.finish().unwrap();
    assert_eq!(Compression::Bwt.decompress(&packed).unwrap(), b"hello asset".to_vec());
}

#[test]
fn zstd_round_trip() {
    let packed = zstd::encode_all(&b"hello asset"[..], 3).unwrap();
    assert_eq!(Compression::Zstd.decompress(&packed).unwrap(), b"hello asset".to_vec());
}

#[test]
fn lzma_round_trip() {
    let mut e = xz2::write::XzEncoder::new(Vec::new(), 6);
    e.write_all(b"hello asset").unwrap();
    let packed = e.finish().unwrap();
    assert_eq!(Compression::Lzma.decompress(&packed).unwrap(), b"hello asset".to_vec());
}

#[test]
fn lz4_round_trip() {
    let mut e = lz4::EncoderBuilder::new().build(Vec::new()).unwrap();
    e.write_all(b"hello asset").unwrap();
    let (packed, result) = e.finish();
    result.unwrap();
    assert_eq!(Compression::Lz4.decompress(&packed).unwrap(), b"hello asset".to_vec());
}

#[test]
fn corrupt_data_does_not_decompress() {
    assert!(Compression::Deflate.decompress(&[1, 2, 3, 4]).is_err());
    assert!(Compression::Zstd.decompress(&[1, 2, 3, 4]).is_err());
}

#[test]
fn empty_cache_holds_nothing() {
    let cache = Cache::new();
    assert!(cache.get("textures/stone.png").is_none());
}

#[test]
fn loading_a_group_caches_all_its_assets() {
    let mut cache = Cache::new();
    let file = group(&[("textures/stone.png", &[1, 2]), ("textures/grass.png", &[3])]);
    let data = cache.load_group("textures/stone.png", Compression::Uncompressed, &file).unwrap();
    assert_eq!(&*data, &[1, 2]);
    assert_eq!(&*cache.get("textures/stone.png").unwrap(), &[1, 2]);
    assert_eq!(&*cache.get("textures/grass.png").unwrap(), &[3]);
}

#[test]
fn loading_keeps_cached_assets() {
    let mut cache = Cache::new();
    let first = group(&[("a", &[1])]);
    cache.load_group("a", Compression::Uncompressed, &first).unwrap();
    let second = group(&[("a", &[9]), ("b", &[2])]);
    let b = cache.load_group("b", Compression::Uncompressed, &second).unwrap();
    assert_eq!(&*b, &[2]);
    assert_eq!(&*cache.get("a").unwrap(), &[1]);
}

#[test]
fn a_group_without_the_asset_is_an_unsupported_format() {
    let mut cache = Cache::new();
    let file = group(&[("a", &[1])]);
    let r = cache.load_group("missing", Compression::Uncompressed, &file);
    assert!(matches!(r, Err(AssetError::UnsupportedFormat(_))));
    assert_eq!(&*cache.get("a").unwrap(), &[1]);
}

#[test]
fn an_undecodable_group_leaves_the_cache_alone() {
    let mut cache = Cache::new();
    let r = cache.load_group("a", Compression::Deflate, &[0, 1, 2]);
    assert!(matches!(r, Err(AssetError::UnsupportedFormat(_))));
    assert!(cache.get("a").is_none());
}

#[test]
fn compressed_groups_load() {
    let mut e = flate2::write::GzEncoder::new(Vec::new(), flate2::Compression::default());
    e.write_all(&group(&[("sounds/growl.oga", &[7, 7, 7])])).unwrap();
    let file = e.finish().unwrap();
    let mut cache = Cache::new();
    let data = cache.load_group("sounds/growl.oga", Compression::Deflate, &file).unwrap();
    assert_eq!(&*data, &[7, 7, 7]);
}

#[test]
fn clear_drops_unused_assets_only() {
    let mut cache = Cache::new();
    let file = group(&[("a", &[1]), ("b", &[2])]);
    let held = cache.load_group("a", Compression::Uncompressed, &file).unwrap();
    cache.clear();
    assert_eq!(&*cache.get("a").unwrap(), &[1]);
    assert!(cache.get("b").is_none());
    drop(held);
    cache.clear();
    assert!(cache.get("a").is_none());
}

#[test]
fn unused_keys_are_those_with_at_most_one_holder() {
    let keys = vec!["a".to_string(), "b".to_string(), "c".to_string(), "d".to_string()];
    assert_eq!(unused_keys(&keys, &vec![1, 2, 3, 1]), vec!["a".to_string(), "d".to_string()]);
    assert_eq!(unused_keys(&keys, &vec![2, 2, 2, 2]), Vec::<String>::new());
}

#[test]
fn clear_keeps_a_held_asset_and_its_data() {
    let mut cache = Cache::new();
    let file = group(&[("p", &[7, 8]), ("q", &[9])]);
    let held = cache.load_group("p", Compression::Uncompressed, &file).unwrap();
    let q_before = cache.get("q").unwrap().to_vec();
    cache.clear();
    assert!(Arc::ptr_eq(&cache.get("p").unwrap(), &held));
    assert!(cache.get("q").is_none());
    let reloaded = cache.load_group("q", Compression::Uncompressed, &file).unwrap();
    assert_eq!(reloaded.to_vec(), q_before);
}
