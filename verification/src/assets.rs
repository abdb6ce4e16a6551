//! The asset cache: packed asset groups are decompressed, decoded into their entries, and kept
//! by their asset directory relative paths in a `foldhash` hash map.
//!
//! Reading the packed group files and the index of which group file holds which asset are the
//! caller's part; this module decides what a lookup gives and what loading a group adds.

use std::io::{Read, Write};
use std::sync::Arc;
use vstd::prelude::*;

use crate::shared::{copy_bytes, share_bytes, share_clone};

verus! {

/// The error type of the `anyhow` crate.
#[verifier::external_type_specification]
#[verifier::external_body]
pub struct ExAnyhowError(anyhow::Error);

/// The I/O error type of the standard library.
#[verifier::external_type_specification]
#[verifier::external_body]
pub struct ExIoError(std::io::Error);

/// The compression algorithm used for the resources.
#[derive(Debug, Clone, Copy, PartialEq, Eq, Structural)]
pub enum Compression {
    /// No compression at all.
    Uncompressed,
    /// Deflate or Flate compression algorithm provided by the `flate2` library, in a gzip stream.
    Deflate,
    /// Burrows-Wheeler Transform compression algorithm provided by the `bzip2` library.
    Bwt,
    /// Z Standard compression algorithm provided by the `zstd` library.
    Zstd,
    /// LZMA compression algorithm provided by the `xz2` library, in an xz stream.
    Lzma,
    /// LZ4 compression algorithm provided by the `lz4` library, in an LZ4 frame.
    Lz4,
}

impl Default for Compression {
    fn default() -> (r: Self)
        ensures
            r == Compression::Uncompressed,
    {
        Compression::Uncompressed
    }
}

/// What the `flate2` gzip decoder writes for `data`; `None` when it reports an error.
pub uninterp spec fn gzip_decompressed(data: Seq<u8>) -> Option<Seq<u8>>;

/// What the `bzip2` decoder writes for `data`; `None` when it reports an error.
pub uninterp spec fn bzip2_decompressed(data: Seq<u8>) -> Option<Seq<u8>>;

/// What `zstd::decode_all` returns for `data`; `None` when it reports an error.
pub uninterp spec fn zstd_decompressed(data: Seq<u8>) -> Option<Seq<u8>>;

/// What the `xz2` decoder writes for `data`; `None` when it reports an error.
pub uninterp spec fn xz_decompressed(data: Seq<u8>) -> Option<Seq<u8>>;

/// What the `lz4` frame decoder reads from `data`; `None` when it reports an error.
pub uninterp spec fn lz4_decompressed(data: Seq<u8>) -> Option<Seq<u8>>;

/// Decompresses `data` with `flate2::write::GzDecoder`: writes all of it, then finishes.
/// Claims only that the output, or the failure, is the one named `gzip_decompressed`.
#[verifier::external_body]
fn gzip_decompress(data: &[u8]) -> (r: Result<Vec<u8>, anyhow::Error>)
    ensures
        r is Ok <==> gzip_decompressed(data@) is Some,
        r matches Ok(v) ==> Some(v@) == gzip_decompressed(data@),
{
    let mut out = Vec::new();
    let mut decoder = flate2::write::GzDecoder::new(&mut out);
    decoder.write_all(data)?;
    decoder.finish()?;
    Ok(out)
}

/// Decompresses `data` with `bzip2::write::BzDecoder`: writes all of it, then finishes and
/// flushes. Claims only that the output, or the failure, is the one named `bzip2_decompressed`.
#[verifier::external_body]
fn bzip2_decompress(data: &[u8]) -> (r: Result<Vec<u8>, anyhow::Error>)
    ensures
        r is Ok <==> bzip2_decompressed(data@) is Some,
        r matches Ok(v) ==> Some(v@) == bzip2_decompressed(data@),
{
    let mut out = Vec::new();
    {
        let mut decoder = bzip2::write::BzDecoder::new(&mut out);
        decoder.write_all(data)?;
        decoder.finish()?.flush()?;
    }
    Ok(out)
}

/// Decompresses `data` with `zstd::decode_all`. Claims only that the output, or the failure,
/// is the one named `zstd_decompressed`.
#[verifier::external_body]
fn zstd_decompress(data: &[u8]) -> (r: Result<Vec<u8>, anyhow::Error>)
    ensures
        r is Ok <==> zstd_decompressed(data@) is Some,
        r matches Ok(v) ==> Some(v@) == zstd_decompressed(data@),
{
    Ok(zstd::decode_all(data)?)
}

/// Decompresses `data` with `xz2::write::XzDecoder`: writes all of it, then finishes and
/// flushes. Claims only that the output, or the failure, is the one named `xz_decompressed`.
#[verifier::external_body]
fn xz_decompress(data: &[u8]) -> (r: Result<Vec<u8>, anyhow::Error>)
    ensures
        r is Ok <==> xz_decompressed(data@) is Some,
        r matches Ok(v) ==> Some(v@) == xz_decompressed(data@),
{
    let mut out = Vec::new();
    {
        let mut decoder = xz2::write::XzDecoder::new(&mut out);
        decoder.write_all(data)?;
        decoder.finish()?.flush()?;
    }
    Ok(out)
}

/// Decompresses `data` with `lz4::Decoder`, reading it to the end. Claims only that the
/// output, or the failure, is the one named `lz4_decompressed`.
#[verifier::external_body]
fn lz4_decompress(data: &[u8]) -> (r: Result<Vec<u8>, anyhow::Error>)
    ensures
        r is Ok <==> lz4_decompressed(data@) is Some,
        r matches Ok(v) ==> Some(v@) == lz4_decompressed(data@),
{
    let mut out = Vec::new();
    let mut decoder = lz4::Decoder::new(data)?;
    decoder.read_to_end(&mut out)?;
    Ok(out)
}

impl Compression {
    /// The bytes that decompressing `data` with this algorithm gives; `None` for a failure.
    pub open spec fn spec_decompressed(self, data: Seq<u8>) -> Option<Seq<u8>> {
        match self {
            Compression::Uncompressed => Some(data),
            Compression::Deflate => gzip_decompressed(data),
            Compression::Bwt => bzip2_decompressed(data),
            Compression::Zstd => zstd_decompressed(data),
            Compression::Lzma => xz_decompressed(data),
            Compression::Lz4 => lz4_decompressed(data),
        }
    }

    /// Decompresses the given buffer using the compression algorithm of self.
    pub fn decompress(&self, buffer: &[u8]) -> (r: Result<Vec<u8>, anyhow::Error>)
        ensures
            r is Ok <==> self.spec_decompressed(buffer@) is Some,
            r matches Ok(v) ==> Some(v@) == self.spec_decompressed(buffer@),
    {
        match self {
            Compression::Uncompressed => Ok(copy_bytes(buffer)),
            Compression::Deflate => gzip_decompress(buffer),
            Compression::Bwt => bzip2_decompress(buffer),
            Compression::Zstd => zstd_decompress(buffer),
            Compression::Lzma => xz_decompress(buffer),
            Compression::Lz4 => lz4_decompress(buffer),
        }
    }
}

/// An error that can occur by trying to load an asset using the asset system.
#[derive(Debug)]
pub enum AssetError {
    /// The asset you are trying to open does not exist.
    NotListed,
    /// The compression format this asset has is not supported by the game, or its file does
    /// not hold it.
    UnsupportedFormat(anyhow::Error),
    /// The asset file can not be read.
    Io(std::io::Error),
}

/// The map that a sequence of (key, bytes) pairs describes; a later pair wins over an
/// earlier one with the same key.
pub open spec fn pairs_map(pairs: Seq<(Seq<char>, Seq<u8>)>) -> Map<Seq<char>, Seq<u8>>
    decreases pairs.len(),
{
    if pairs.len() == 0 {
        Map::empty()
    } else {
        pairs_map(pairs.drop_last()).insert(pairs.last().0, pairs.last().1)
    }
}

/// Whether no two pairs have the same key.
pub open spec fn distinct_keys(pairs: Seq<(Seq<char>, Seq<u8>)>) -> bool {
    forall|a: int, b: int| 0 <= a < b < pairs.len() ==> pairs[a].0 != pairs[b].0
}

/// The (key, bytes) pairs of decoded group entries.
pub open spec fn entry_pairs(entries: Seq<(String, Vec<u8>)>) -> Seq<(Seq<char>, Seq<u8>)> {
    entries.map_values(|e: (String, Vec<u8>)| (e.0@, e.1@))
}

/// What `bincode` decodes from a packed asset group as a map from asset paths to asset data;
/// `None` when it reports an error.
pub uninterp spec fn decoded_group(data: Seq<u8>) -> Option<Map<Seq<char>, Seq<u8>>>;

/// Decodes a packed asset group, a `bincode`-serialized map from asset paths to asset data,
/// with `bincode::serde::decode_from_slice` and the standard configuration, and hands out its
/// entries in the map's iteration order. Claims that the entries describe the map named
/// `decoded_group` and that their keys are distinct, as a map's are; the order is left open.
#[verifier::external_body]
fn decode_group(data: &[u8]) -> (r: Result<Vec<(String, Vec<u8>)>, anyhow::Error>)
    ensures
        r is Ok <==> decoded_group(data@) is Some,
        r matches Ok(v) ==> distinct_keys(entry_pairs(v@)) && Some(pairs_map(entry_pairs(v@)))
            == decoded_group(data@),
{
    let (map, _): (foldhash::HashMap<String, Vec<u8>>, usize) =
        bincode::serde::decode_from_slice(data, bincode::config::standard())?;
    Ok(map.into_iter().collect())
}

/// The assets that a group file compressed with `compression` holds: its decompressed bytes
/// decoded as a map from asset path to asset data; `None` when it does not decompress or decode.
pub open spec fn group_in_file(compression: Compression, file: Seq<u8>) -> Option<Map<Seq<char>, Seq<u8>>> {
    match compression.spec_decompressed(file) {
        Some(bytes) => decoded_group(bytes),
        None => None,
    }
}

/// The error for a group file that does not hold the requested asset.
#[verifier::external_body]
fn missing_asset_error(key: &str) -> (r: anyhow::Error) {
    anyhow::Error::msg(format!("The format of the asset file {key} is not compatible."))
}

/// The assets that a `foldhash` hash map from asset path to shared data holds, by path.
pub uninterp spec fn cached_assets(map: foldhash::HashMap<String, Arc<[u8]>>) -> Map<Seq<char>, Seq<u8>>;

/// An empty hash map, made with `Default::default`.
#[verifier::external_body]
fn cache_map_new() -> (r: foldhash::HashMap<String, Arc<[u8]>>)
    ensures
        cached_assets(r).dom() == Set::<Seq<char>>::empty(),
{
    foldhash::HashMap::default()
}

/// The data the hash map holds under `key`, looked up with `HashMap::get` and shared with
/// `Arc::clone`.
#[verifier::external_body]
fn cache_map_get(map: &foldhash::HashMap<String, Arc<[u8]>>, key: &str) -> (r: Option<Arc<[u8]>>)
    ensures
        r is Some <==> cached_assets(*map).contains_key(key@),
        r matches Some(d) ==> d@ == cached_assets(*map)[key@],
{
    map.get(key).cloned()
}

/// Puts `data` under `key` with `HashMap::entry` and `Entry::or_insert`, which keeps the data
/// already held under `key`.
#[verifier::external_body]
fn cache_map_insert_absent(map: &mut foldhash::HashMap<String, Arc<[u8]>>, key: String, data: Arc<[u8]>)
    ensures
        cached_assets(*final(map)) == if cached_assets(*old(map)).contains_key(key@) {
            cached_assets(*old(map))
        } else {
            cached_assets(*old(map)).insert(key@, data@)
        },
{
    map.entry(key).or_insert(data);
}

/// Takes `key` out of the hash map with `HashMap::remove`.
#[verifier::external_body]
fn cache_map_remove(map: &mut foldhash::HashMap<String, Arc<[u8]>>, key: &str)
    ensures
        cached_assets(*final(map)) == cached_assets(*old(map)).remove(key@),
{
    map.remove(key);
}

/// The paths the hash map holds, walked with `HashMap::keys`, each once. The order follows the
/// hasher's seed, which each map draws anew, and is left open.
#[verifier::external_body]
fn cache_map_keys(map: &foldhash::HashMap<String, Arc<[u8]>>) -> (r: Vec<String>)
    ensures
        forall|a: int, b: int| 0 <= a < b < r@.len() ==> r@[a]@ != r@[b]@,
        forall|a: int| 0 <= a < r@.len() ==> cached_assets(*map).contains_key(#[trigger] r@[a]@),
        forall|k: Seq<char>| #[trigger] cached_assets(*map).contains_key(k) ==> exists|a: int| 0 <= a < r@.len() && r@[a]@ == k,
{
    map.keys().cloned().collect()
}

/// How many hold the data under `key`, from `Arc::strong_count`: at least the map itself when
/// it holds `key`, and 0 when it does not. The count depends on the handles held elsewhere at
/// this moment, so nothing more is claimed of it.
#[verifier::external_body]
fn cache_map_holders(map: &foldhash::HashMap<String, Arc<[u8]>>, key: &str) -> (r: usize)
    ensures
        cached_assets(*map).contains_key(key@) ==> r >= 1,
        !cached_assets(*map).contains_key(key@) ==> r == 0,
{
    match map.get(key) {
        Some(data) => Arc::strong_count(data),
        None => 0,
    }
}

/// The asset cache holding all currently loaded assets.
#[derive(Debug)]
pub struct Cache {
    map: foldhash::HashMap<String, Arc<[u8]>>,
}

impl Cache {
    /// The cached assets by path.
    pub closed spec fn view(&self) -> Map<Seq<char>, Seq<u8>> {
        cached_assets(self.map)
    }

    /// The cache holds finitely many assets.
    pub closed spec fn wf(&self) -> bool {
        self.view().dom().finite()
    }

    /// An empty cache.
    pub fn new() -> (r: Self)
        ensures
            r.wf(),
            r.view() == Map::<Seq<char>, Seq<u8>>::empty(),
    {
        let r = Cache { map: cache_map_new() };
        proof {
            assert(r.view() =~= Map::<Seq<char>, Seq<u8>>::empty());
        }
        r
    }

    /// Returns the data of a cached asset, if it is cached.
    pub fn get(&self, key: &str) -> (r: Option<Arc<[u8]>>)
        requires
            self.wf(),
        ensures
            r is Some <==> self.view().contains_key(key@),
            r matches Some(d) ==> d@ == self.view()[key@],
    {
        cache_map_get(&self.map, key)
    }

    /// Loads a packed asset group into the cache and returns the data of the asset `key` from
    /// it: `file` is the group file's content, compressed with `compression`.
    ///
    /// Every asset of the group that is not cached yet gets cached; cached ones keep their data.
    /// Fails with [`AssetError::UnsupportedFormat`] when the file does not decompress or decode,
    /// leaving the cache as it was, or when the group does not hold `key`.
    pub fn load_group(&mut self, key: &str, compression: Compression, file: &[u8]) -> (r: Result<Arc<[u8]>, AssetError>)
        requires
            old(self).wf(),
        ensures
            final(self).wf(),
            ({
                let group = group_in_file(compression, file@);
                &&& group is None ==> (r matches Err(e) && e is UnsupportedFormat)
                &&& group is None ==> final(self).view() == old(self).view()
                &&& group matches Some(g) ==> {
                    &&& final(self).view() == g.union_prefer_right(old(self).view())
                    &&& (r is Ok <==> g.contains_key(key@))
                    &&& r matches Ok(d) ==> d@ == g[key@]
                    &&& r matches Err(e) ==> e is UnsupportedFormat
                }
            }),
    {
        let data = match compression.decompress(file) {
            Ok(data) => data,
            Err(e) => {
                return Err(AssetError::UnsupportedFormat(e));
            },
        };
        let group = match decode_group(data.as_slice()) {
            Ok(group) => group,
            Err(e) => {
                return Err(AssetError::UnsupportedFormat(e));
            },
        };
        let ghost g = pairs_map(entry_pairs(group@));
        let ghost old_view = self.view();
        let key = key.to_owned();
        let mut result: Option<Arc<[u8]>> = None;
        let mut i: usize = 0;
        let n = group.len();
        let mut group = group;
        while i < n
            invariant
                n == group@.len(),
                i <= n,
                self.wf(),
                distinct_keys(entry_pairs(group@)),
                g == pairs_map(entry_pairs(group@)),
                self.view() == pairs_map(entry_pairs(group@).take(i as int)).union_prefer_right(old_view),
                result is Some <==> pairs_map(entry_pairs(group@).take(i as int)).contains_key(key@),
                result matches Some(d) ==> d@ == pairs_map(entry_pairs(group@).take(i as int))[key@],
            decreases n - i,
        {
            let ghost pairs = entry_pairs(group@);
            let ghost prefix = pairs_map(pairs.take(i as int));
            let entry_key = group[i].0.clone();
            let entry_bytes = group[i].1.clone();
            proof {
                assert(entry_bytes@ =~= group@[i as int].1@);
            }
            let entry_data = share_bytes(entry_bytes);
            proof {
                assert(pairs[i as int] == (entry_key@, entry_data@));
                lemma_take_step(pairs, i as int);
                lemma_distinct_prefix_absent(pairs, i as int);
            }
            if entry_key == key {
                result = Some(share_clone(&entry_data));
            }
            self.insert_absent(entry_key, entry_data);
            proof {
                let next = pairs_map(pairs.take(i + 1));
                assert(next == prefix.insert(pairs[i as int].0, pairs[i as int].1));
                assert(self.view() =~= next.union_prefer_right(old_view));
            }
            i = i + 1;
        }
        proof {
            assert(entry_pairs(group@).take(n as int) =~= entry_pairs(group@));
        }
        match result {
            Some(d) => Ok(d),
            None => Err(AssetError::UnsupportedFormat(missing_asset_error(key.as_str()))),
        }
    }

    /// Caches `data` under `key` unless `key` is cached already.
    fn insert_absent(&mut self, key: String, data: Arc<[u8]>)
        requires
            old(self).wf(),
        ensures
            final(self).wf(),
            final(self).view() == if old(self).view().contains_key(key@) {
                old(self).view()
            } else {
                old(self).view().insert(key@, data@)
            },
    {
        cache_map_insert_absent(&mut self.map, key, data);
    }

    /// Removes all the resources that are not used: those whose data no one but the cache holds.
    ///
    /// How many hold an asset's data is counted at this moment, with `Arc::strong_count`; the
    /// cache drops exactly the assets whose data it alone holds, those [`unused_keys`] picks
    /// with those counts.
    pub fn clear(&mut self)
        requires
            old(self).wf(),
        ensures
            final(self).wf(),
            exists|held: Map<Seq<char>, usize>|
                #![trigger held.dom()]
                held.dom() == old(self).view().dom() && (forall|k: Seq<char>| #[trigger] held.contains_key(k) ==> held[k] >= 1)
                    && final(self).view() == old(self).view().remove_keys(
                    Set::new(|k: Seq<char>| held.contains_key(k) && held[k] <= 1),
                ),
    {
        let keys = cache_map_keys(&self.map);
        let mut counts: Vec<usize> = Vec::new();
        let mut i: usize = 0;
        while i < keys.len()
            invariant
                i <= keys@.len(),
                counts@.len() == i,
                forall|a: int| 0 <= a < keys@.len() ==> self.view().contains_key(#[trigger] keys@[a]@),
                forall|j: int| 0 <= j < i ==> #[trigger] counts@[j] >= 1,
            decreases keys@.len() - i,
        {
            let count = cache_map_holders(&self.map, keys[i].as_str());
            proof {
                assert(self.view().contains_key(keys@[i as int]@));
            }
            counts.push(count);
            i = i + 1;
        }
        let unused = unused_keys(&keys, &counts);
        let ghost old_view = self.view();
        let ghost held = Map::new(
            |k: Seq<char>| old_view.contains_key(k),
            |k: Seq<char>| counts@[choose|a: int| 0 <= a < keys@.len() && keys@[a]@ == k],
        );
        let ghost drop = Set::new(|k: Seq<char>| held.contains_key(k) && held[k] <= 1);
        proof {
            assert(drop =~= unused_upto(keys@, counts@, keys@.len() as int)) by {
                assert forall|k: Seq<char>| drop.contains(k) <==> unused_upto(keys@, counts@, keys@.len() as int).contains(k) by {
                    if drop.contains(k) {
                        let a = choose|a: int| 0 <= a < keys@.len() && keys@[a]@ == k;
                        assert(keys@[a]@ == k && counts@[a] <= 1);
                    }
                    if unused_upto(keys@, counts@, keys@.len() as int).contains(k) {
                        let a = choose|a: int| 0 <= a < keys@.len() && #[trigger] keys@[a]@ == k && counts@[a] <= 1;
                        assert(old_view.contains_key(keys@[a]@));
                        let b = choose|b: int| 0 <= b < keys@.len() && keys@[b]@ == k;
                        assert(a == b);
                    }
                }
            }
            assert(key_set(unused@.subrange(0, 0)) =~= Set::<Seq<char>>::empty());
            assert(old_view.remove_keys(Set::<Seq<char>>::empty()) =~= old_view);
        }
        let mut j: usize = 0;
        while j < unused.len()
            invariant
                j <= unused@.len(),
                self.view().dom().finite(),
                self.view() == old_view.remove_keys(key_set(unused@.subrange(0, j as int))),
            decreases unused@.len() - j,
        {
            cache_map_remove(&mut self.map, unused[j].as_str());
            proof {
                let before = key_set(unused@.subrange(0, j as int));
                let after = key_set(unused@.subrange(0, j + 1));
                assert(after =~= before.insert(unused@[j as int]@)) by {
                    assert forall|k: Seq<char>| after.contains(k) <==> before.contains(k) || k == unused@[j as int]@ by {
                        if after.contains(k) {
                            let a = choose|a: int| 0 <= a < j + 1 && #[trigger] unused@.subrange(0, j + 1)[a]@ == k;
                            if a < j {
                                assert(unused@.subrange(0, j as int)[a] == unused@[a]);
                            }
                        }
                        if before.contains(k) {
                            let a = choose|a: int| 0 <= a < j && #[trigger] unused@.subrange(0, j as int)[a]@ == k;
                            assert(unused@.subrange(0, j + 1)[a] == unused@[a]);
                        }
                        if k == unused@[j as int]@ {
                            assert(unused@.subrange(0, j + 1)[j as int] == unused@[j as int]);
                        }
                    }
                }
                assert(self.view() =~= old_view.remove_keys(after));
            }
            j = j + 1;
        }
        proof {
            assert(unused@.subrange(0, unused@.len() as int) =~= unused@);
            assert(self.view() =~= old_view.remove_keys(drop));
            assert(held.dom() =~= old_view.dom());
        }
    }
}

/// The paths that a list of paths holds.
pub open spec fn key_set(keys: Seq<String>) -> Set<Seq<char>> {
    Set::new(|k: Seq<char>| exists|a: int| 0 <= a < keys.len() && #[trigger] keys[a]@ == k)
}

/// The paths among the first `n` of `keys` whose count, at the same position in `counts`, is
/// at most 1.
pub open spec fn unused_upto(keys: Seq<String>, counts: Seq<usize>, n: int) -> Set<Seq<char>> {
    Set::new(|k: Seq<char>| exists|b: int| 0 <= b < n && #[trigger] keys[b]@ == k && counts[b] <= 1)
}

/// Picks, among asset paths and the number of holders of each one's data, the paths whose data
/// has at most one holder: those that only the cache holds, which it can drop. The paths keep
/// their order.
pub fn unused_keys(keys: &Vec<String>, counts: &Vec<usize>) -> (r: Vec<String>)
    requires
        counts@.len() == keys@.len(),
    ensures
        key_set(r@) == unused_upto(keys@, counts@, keys@.len() as int),
{
    let mut r: Vec<String> = Vec::new();
    let mut i: usize = 0;
    proof {
        assert(key_set(r@) =~= unused_upto(keys@, counts@, 0));
    }
    while i < keys.len()
        invariant
            i <= keys@.len(),
            counts@.len() == keys@.len(),
            key_set(r@) == unused_upto(keys@, counts@, i as int),
        decreases keys@.len() - i,
    {
        let ghost before = r@;
        if counts[i] <= 1 {
            r.push(keys[i].clone());
        }
        proof {
            assert(key_set(r@) =~= unused_upto(keys@, counts@, i + 1)) by {
                assert forall|k: Seq<char>| key_set(r@).contains(k) <==> unused_upto(keys@, counts@, i + 1).contains(k) by {
                    if key_set(r@).contains(k) {
                        let a = choose|a: int| 0 <= a < r@.len() && #[trigger] r@[a]@ == k;
                        if a < before.len() {
                            assert(before[a]@ == k);
                            assert(key_set(before).contains(k));
                            let b = choose|b: int| 0 <= b < i && #[trigger] keys@[b]@ == k && counts@[b] <= 1;
                        } else {
                            assert(keys@[i as int]@ == k && counts@[i as int] <= 1);
                        }
                    }
                    if unused_upto(keys@, counts@, i + 1).contains(k) {
                        let b = choose|b: int| 0 <= b < i + 1 && #[trigger] keys@[b]@ == k && counts@[b] <= 1;
                        if b < i {
                            assert(unused_upto(keys@, counts@, i as int).contains(k));
                            let a = choose|a: int| 0 <= a < before.len() && #[trigger] before[a]@ == k;
                            assert(r@[a]@ == k);
                        } else {
                            assert(r@[before.len() as int]@ == k);
                        }
                    }
                }
            }
        }
        i = i + 1;
    }
    r
}

/// What loading a group gives reads back: when the cache did not hold `key` and the group
/// holds it, the cache afterwards holds the group's data at `key`; an asset the cache already
/// held keeps its data.
pub proof fn law_loaded_group_reads_back(before: Cache, after: Cache, group: Map<Seq<char>, Seq<u8>>, key: Seq<char>)
    requires
        after.view() == group.union_prefer_right(before.view()),
    ensures
        group.contains_key(key) && !before.view().contains_key(key) ==> after.view().contains_key(key)
            && after.view()[key] == group[key],
        before.view().contains_key(key) ==> after.view().contains_key(key) && after.view()[key]
            == before.view()[key],
        !group.contains_key(key) && !before.view().contains_key(key) ==> !after.view().contains_key(key),
{
}

/// A key that no pair has is not in the map of the pairs.
proof fn lemma_pairs_map_absent(pairs: Seq<(Seq<char>, Seq<u8>)>, k: Seq<char>)
    requires
        forall|j: int| 0 <= j < pairs.len() ==> #[trigger] pairs[j].0 != k,
    ensures
        !pairs_map(pairs).contains_key(k),
    decreases pairs.len(),
{
    if pairs.len() > 0 {
        lemma_pairs_map_absent(pairs.drop_last(), k);
    }
}

/// The map of the first `i + 1` pairs is that of the first `i` with pair `i` inserted.
proof fn lemma_take_step(pairs: Seq<(Seq<char>, Seq<u8>)>, i: int)
    requires
        0 <= i < pairs.len(),
    ensures
        pairs_map(pairs.take(i + 1)) == pairs_map(pairs.take(i)).insert(pairs[i].0, pairs[i].1),
{
    assert(pairs.take(i + 1).drop_last() =~= pairs.take(i));
}

/// With distinct keys, pair `i`'s key is in none of the earlier pairs.
proof fn lemma_distinct_prefix_absent(pairs: Seq<(Seq<char>, Seq<u8>)>, i: int)
    requires
        distinct_keys(pairs),
        0 <= i < pairs.len(),
    ensures
        !pairs_map(pairs.take(i)).contains_key(pairs[i].0),
{
    lemma_pairs_map_absent(pairs.take(i), pairs[i].0);
}

} // verus!
