//! Packing assets into group files: the assets of a group are split into sections whose sizes
//! stay under a threshold, and each section is compressed into one file.

use std::io::Write;
use vstd::prelude::*;

use crate::assets::{
    bzip2_decompressed, decoded_group, distinct_keys, entry_pairs, group_in_file, gzip_decompressed,
    lz4_decompressed, pairs_map, xz_decompressed, zstd_decompressed, Cache, Compression,
};
use crate::shared::copy_bytes;

verus! {

/// The state after packing a prefix of the assets: the finished sections, the section being
/// filled and the total size of that section, all by asset index.
pub type PackState = (Seq<Seq<int>>, Seq<int>, int);

/// Packs asset `i` of size `size`: an asset larger than `threshold` gets a section of its own
/// at once; another one closes the section being filled when it would overflow it (and that
/// section is not empty), then joins the section being filled.
pub open spec fn pack_step(state: PackState, i: int, size: int, threshold: int) -> PackState {
    let (done, current, sum) = state;
    if size > threshold {
        (done.push(seq![i]), current, sum)
    } else if sum + size > threshold && current.len() > 0 {
        (done.push(current), seq![i], size)
    } else {
        (done, current.push(i), sum + size)
    }
}

/// The state after packing the assets of the given sizes, in order.
pub open spec fn pack_state(sizes: Seq<usize>, threshold: int) -> PackState
    decreases sizes.len(),
{
    if sizes.len() == 0 {
        (Seq::empty(), Seq::empty(), 0)
    } else {
        pack_step(
            pack_state(sizes.drop_last(), threshold),
            sizes.len() - 1,
            sizes.last() as int,
            threshold,
        )
    }
}

/// The sections of asset indices that packing assets of the given sizes gives: the finished
/// ones, then the one being filled when it is not empty.
pub open spec fn packed_sections(sizes: Seq<usize>, threshold: int) -> Seq<Seq<int>> {
    let (done, current, _) = pack_state(sizes, threshold);
    if current.len() > 0 {
        done.push(current)
    } else {
        done
    }
}

/// The total size of the assets at the given indices.
pub open spec fn size_of(sizes: Seq<usize>, indices: Seq<int>) -> int
    decreases indices.len(),
{
    if indices.len() == 0 {
        0
    } else {
        size_of(sizes, indices.drop_last()) + sizes[indices.last()]
    }
}

/// The sizes of the assets.
pub open spec fn sizes_of<T>(groups: Seq<(T, usize)>) -> Seq<usize> {
    groups.map_values(|g: (T, usize)| g.1)
}

/// Splits assets, given with their sizes, into sections for the group files, in order: an
/// asset larger than `threshold` gets a section of its own as soon as it comes; the others
/// fill a section until the next one would take its size over `threshold`.
pub fn sort_groups<T>(groups: Vec<(T, usize)>, threshold: usize) -> (r: Vec<Vec<T>>)
    ensures
        r@.len() == packed_sections(sizes_of(groups@), threshold as int).len(),
        forall|k: int|
            0 <= k < r@.len() ==> (#[trigger] r@[k])@.len() == packed_sections(sizes_of(groups@), threshold as int)[k].len(),
        forall|k: int, p: int|
            0 <= k < r@.len() && 0 <= p < r@[k]@.len() ==> #[trigger] r@[k]@[p] == groups@[packed_sections(
                sizes_of(groups@),
                threshold as int,
            )[k][p]].0,
{
    let ghost items = groups@;
    let ghost sizes = sizes_of(items);
    let ghost t = threshold as int;
    let mut result: Vec<Vec<T>> = Vec::new();
    let mut current_vec: Vec<T> = Vec::new();
    let mut current_sum: usize = 0;
    let ghost mut done: Seq<Seq<int>> = Seq::empty();
    let ghost mut current: Seq<int> = Seq::empty();
    for group in it: groups
        invariant
            it.seq() == items,
            sizes == sizes_of(items),
            t == threshold as int,
            pack_state(sizes.take(it.index() as int), t) == (done, current, current_sum as int),
            current_sum <= threshold,
            current.len() == 0 ==> current_sum == 0,
            result@.len() == done.len(),
            forall|k: int| 0 <= k < done.len() ==> (#[trigger] result@[k])@.len() == done[k].len(),
            forall|k: int, p: int|
                0 <= k < done.len() && 0 <= p < done[k].len() ==> #[trigger] result@[k]@[p] == items[done[k][p]].0,
            current_vec@.len() == current.len(),
            forall|p: int| 0 <= p < current.len() ==> #[trigger] current_vec@[p] == items[current[p]].0,
    {
        let ghost i = it.index() as int;
        let (item, size) = group;
        proof {
            assert(items[i] == group);
            assert(sizes.take(i + 1).drop_last() =~= sizes.take(i));
            assert(sizes[i] == size);
        }
        if size > threshold {
            let mut single: Vec<T> = Vec::new();
            single.push(item);
            result.push(single);
            proof {
                done = done.push(seq![i]);
            }
        } else {
            if size > threshold - current_sum && current_vec.len() > 0 {
                let mut finished: Vec<T> = Vec::new();
                std::mem::swap(&mut finished, &mut current_vec);
                result.push(finished);
                current_sum = 0;
                proof {
                    done = done.push(current);
                    current = Seq::empty();
                }
            }
            current_sum = current_sum + size;
            current_vec.push(item);
            proof {
                current = current.push(i);
            }
        }
    }
    proof {
        assert(sizes.take(items.len() as int) =~= sizes);
    }
    if current_vec.len() > 0 {
        result.push(current_vec);
    }
    result
}


/// Whether a section is a single asset larger than `threshold`, or assets no larger than
/// `threshold` whose sizes add up to at most `threshold`.
pub open spec fn section_fits(sizes: Seq<usize>, threshold: int, section: Seq<int>) -> bool {
    ||| section.len() == 1 && sizes[section[0]] > threshold
    ||| (forall|p: int| 0 <= p < section.len() ==> sizes[#[trigger] section[p]] <= threshold) && size_of(
        sizes,
        section,
    ) <= threshold
}

/// What holds after packing the first `m` assets: finished sections are not empty and fit;
/// the section being filled holds assets no larger than `threshold` and `sum` is their total
/// size, at most `threshold`; and the finished sections followed by the one being filled list
/// each of the first `m` asset indices exactly once.
pub open spec fn pack_state_wf(sizes: Seq<usize>, threshold: int, m: int, state: PackState) -> bool {
    let (done, current, sum) = state;
    let all = done.flatten_alt() + current;
    &&& forall|k: int| 0 <= k < done.len() ==> (#[trigger] done[k]).len() > 0
    &&& forall|k: int| 0 <= k < done.len() ==> section_fits(sizes, threshold, #[trigger] done[k])
    &&& forall|p: int| 0 <= p < current.len() ==> sizes[#[trigger] current[p]] <= threshold
    &&& sum == size_of(sizes, current)
    &&& sum <= threshold
    &&& current.len() == 0 ==> sum == 0
    &&& all.len() == m
    &&& all.no_duplicates()
    &&& forall|q: int| 0 <= q < all.len() ==> 0 <= #[trigger] all[q] < m
}

proof fn lemma_pack_prefix(sizes: Seq<usize>, threshold: int, m: int)
    requires
        threshold >= 0,
        0 <= m <= sizes.len(),
    ensures
        pack_state_wf(sizes, threshold, m, pack_state(sizes.take(m), threshold)),
    decreases m,
{
    if m == 0 {
        assert(sizes.take(0) =~= Seq::<usize>::empty());
        assert(Seq::<Seq<int>>::empty().flatten_alt() + Seq::<int>::empty() =~= Seq::<int>::empty());
    } else {
        lemma_pack_prefix(sizes, threshold, m - 1);
        let i = m - 1;
        assert(sizes.take(m).drop_last() =~= sizes.take(i));
        assert(sizes.take(m).last() == sizes[i]);
        let (done, current, sum) = pack_state(sizes.take(i), threshold);
        let all = done.flatten_alt() + current;
        let size = sizes[i] as int;
        if size > threshold {
            let done2 = done.push(seq![i]);
            assert(done2.drop_last() =~= done);
            assert(done2.flatten_alt() == done.flatten_alt() + seq![i]);
            let all2 = done2.flatten_alt() + current;
            let fa = done.flatten_alt();
            assert(all2 =~= fa + seq![i] + current);
            assert forall|a: int, b: int| 0 <= a < all2.len() && 0 <= b < all2.len() && a != b implies all2[a]
                != all2[b] by {
                let fl = fa.len() as int;
                if a == fl {
                    if b < fl {
                        assert(all2[b] == all[b]);
                    } else {
                        assert(all2[b] == all[b - 1]);
                    }
                } else if b == fl {
                    if a < fl {
                        assert(all2[a] == all[a]);
                    } else {
                        assert(all2[a] == all[a - 1]);
                    }
                } else {
                    let a0 = if a < fl { a } else { a - 1 };
                    let b0 = if b < fl { b } else { b - 1 };
                    assert(all2[a] == all[a0]);
                    assert(all2[b] == all[b0]);
                }
            }
            assert forall|q: int| 0 <= q < all2.len() implies 0 <= #[trigger] all2[q] < m by {
                let fl = fa.len() as int;
                if q < fl {
                    assert(all2[q] == all[q]);
                } else if q > fl {
                    assert(all2[q] == all[q - 1]);
                }
            }
            assert forall|k: int| 0 <= k < done2.len() implies section_fits(sizes, threshold, #[trigger] done2[k]) by {
                if k < done.len() {
                    assert(done2[k] == done[k]);
                }
            }
        } else if sum + size > threshold && current.len() > 0 {
            let done2 = done.push(current);
            assert(done2.drop_last() =~= done);
            let all2 = done2.flatten_alt() + seq![i];
            assert(all2 =~= all.push(i));
            assert(seq![i].drop_last() =~= Seq::<int>::empty());
            assert(size_of(sizes, Seq::<int>::empty()) == 0);
            assert(seq![i].last() == i);
            assert(size_of(sizes, seq![i]) == size_of(sizes, seq![i].drop_last()) + sizes[i]);
            assert(size_of(sizes, seq![i]) == size);
            assert forall|k: int| 0 <= k < done2.len() implies section_fits(sizes, threshold, #[trigger] done2[k]) by {
                if k < done.len() {
                    assert(done2[k] == done[k]);
                }
            }
            assert forall|a: int, b: int| 0 <= a < all2.len() && 0 <= b < all2.len() && a != b implies all2[a]
                != all2[b] by {
                if a < all.len() && b < all.len() {
                    assert(all2[a] == all[a]);
                    assert(all2[b] == all[b]);
                } else if a < all.len() {
                    assert(all2[a] == all[a]);
                } else if b < all.len() {
                    assert(all2[b] == all[b]);
                }
            }
        } else {
            let current2 = current.push(i);
            assert(current2.drop_last() =~= current);
            let all2 = done.flatten_alt() + current2;
            assert(all2 =~= all.push(i));
            assert forall|a: int, b: int| 0 <= a < all2.len() && 0 <= b < all2.len() && a != b implies all2[a]
                != all2[b] by {
                if a < all.len() && b < all.len() {
                    assert(all2[a] == all[a]);
                    assert(all2[b] == all[b]);
                } else if a < all.len() {
                    assert(all2[a] == all[a]);
                } else if b < all.len() {
                    assert(all2[b] == all[b]);
                }
            }
        }
    }
}

/// No section is empty.
pub proof fn law_packed_sections_are_not_empty(sizes: Seq<usize>, threshold: int)
    requires
        threshold >= 0,
    ensures
        forall|k: int|
            0 <= k < packed_sections(sizes, threshold).len() ==> (#[trigger] packed_sections(sizes, threshold)[k]).len()
                > 0,
{
    lemma_pack_prefix(sizes, threshold, sizes.len() as int);
    assert(sizes.take(sizes.len() as int) =~= sizes);
    let (done, current, sum) = pack_state(sizes, threshold);
    assert forall|k: int| 0 <= k < packed_sections(sizes, threshold).len() implies (#[trigger] packed_sections(
        sizes,
        threshold,
    )[k]).len() > 0 by {
        if k < done.len() {
            assert(packed_sections(sizes, threshold)[k] == done[k]);
        }
    }
}

/// Every section is a single asset larger than the threshold, or assets no larger than the
/// threshold whose sizes add up to at most the threshold.
pub proof fn law_packed_sections_fit(sizes: Seq<usize>, threshold: int)
    requires
        threshold >= 0,
    ensures
        forall|k: int|
            0 <= k < packed_sections(sizes, threshold).len() ==> section_fits(
                sizes,
                threshold,
                #[trigger] packed_sections(sizes, threshold)[k],
            ),
{
    lemma_pack_prefix(sizes, threshold, sizes.len() as int);
    assert(sizes.take(sizes.len() as int) =~= sizes);
    let (done, current, sum) = pack_state(sizes, threshold);
    assert forall|k: int| 0 <= k < packed_sections(sizes, threshold).len() implies section_fits(
        sizes,
        threshold,
        #[trigger] packed_sections(sizes, threshold)[k],
    ) by {
        if k < done.len() {
            assert(packed_sections(sizes, threshold)[k] == done[k]);
        }
    }
}

/// The sections, one after another, list every asset index exactly once: as many indices as
/// assets, none twice, each a valid index.
pub proof fn law_packed_sections_hold_each_asset_once(sizes: Seq<usize>, threshold: int)
    requires
        threshold >= 0,
    ensures
        packed_sections(sizes, threshold).flatten().len() == sizes.len(),
        packed_sections(sizes, threshold).flatten().no_duplicates(),
        forall|q: int|
            0 <= q < sizes.len() ==> 0 <= #[trigger] packed_sections(sizes, threshold).flatten()[q] < sizes.len(),
{
    lemma_pack_prefix(sizes, threshold, sizes.len() as int);
    assert(sizes.take(sizes.len() as int) =~= sizes);
    let (done, current, sum) = pack_state(sizes, threshold);
    let sections = packed_sections(sizes, threshold);
    sections.lemma_flatten_and_flatten_alt_are_equivalent();
    if current.len() > 0 {
        assert(sections.drop_last() =~= done);
    } else {
        assert(done.flatten_alt() + current =~= done.flatten_alt());
    }
}


/// Whether every asset of a section is no larger than `threshold`.
pub open spec fn all_small(sizes: Seq<usize>, threshold: int, section: Seq<int>) -> bool {
    forall|p: int| 0 <= p < section.len() ==> sizes[#[trigger] section[p]] <= threshold
}

/// Whether each section of small assets that another section follows, when that next section
/// starts with a small asset, was closed because that asset would take it over `threshold`.
pub open spec fn closed_on_overflow(sizes: Seq<usize>, threshold: int, sections: Seq<Seq<int>>) -> bool {
    forall|k: int|
        0 <= k < sections.len() - 1 && all_small(sizes, threshold, #[trigger] sections[k]) && sizes[sections[k
            + 1][0]] <= threshold ==> size_of(sizes, sections[k]) + sizes[sections[k + 1][0]] > threshold
}

/// After packing the first `m` assets, every finished section of small assets was closed only
/// because the asset that followed it would overflow it, and so was the last finished one, when
/// it holds small assets, for the first asset of the section being filled.
proof fn lemma_pack_closes(sizes: Seq<usize>, threshold: int, m: int)
    requires
        threshold >= 0,
        0 <= m <= sizes.len(),
    ensures
        ({
            let (done, current, sum) = pack_state(sizes.take(m), threshold);
            &&& closed_on_overflow(sizes, threshold, done)
            &&& done.len() > 0 && current.len() > 0 && all_small(sizes, threshold, done.last()) ==> size_of(
                sizes,
                done.last(),
            ) + sizes[current[0]] > threshold
            &&& current.len() == 0 && done.len() > 0 ==> !all_small(sizes, threshold, done.last())
        }),
    decreases m,
{
    if m > 0 {
        lemma_pack_closes(sizes, threshold, m - 1);
        lemma_pack_prefix(sizes, threshold, m - 1);
        let i = m - 1;
        assert(sizes.take(m).drop_last() =~= sizes.take(i));
        assert(sizes.take(m).last() == sizes[i]);
        let (done, current, sum) = pack_state(sizes.take(i), threshold);
        let size = sizes[i] as int;
        if size > threshold {
            let done2 = done.push(seq![i]);
            assert(done2.last()[0] == i);
            assert(!all_small(sizes, threshold, done2.last()));
            assert forall|k: int|
                0 <= k < done2.len() - 1 && all_small(sizes, threshold, #[trigger] done2[k]) && sizes[done2[k
                    + 1][0]] <= threshold implies size_of(sizes, done2[k]) + sizes[done2[k + 1][0]] > threshold by {
                assert(done2[k] == done[k]);
                if k + 1 < done.len() {
                    assert(done2[k + 1] == done[k + 1]);
                } else {
                    assert(done2[k + 1] == seq![i]);
                }
            }
        } else if sum + size > threshold && current.len() > 0 {
            let done2 = done.push(current);
            assert(done2.last() == current);
            assert forall|k: int|
                0 <= k < done2.len() - 1 && all_small(sizes, threshold, #[trigger] done2[k]) && sizes[done2[k
                    + 1][0]] <= threshold implies size_of(sizes, done2[k]) + sizes[done2[k + 1][0]] > threshold by {
                assert(done2[k] == done[k]);
                if k + 1 < done.len() {
                    assert(done2[k + 1] == done[k + 1]);
                } else {
                    assert(done2[k + 1] == current);
                    assert(done.last() == done[k]);
                }
            }
            assert(seq![i][0] == i);
        } else {
            let current2 = current.push(i);
            if current.len() > 0 {
                assert(current2[0] == current[0]);
            }
        }
    }
}

/// A section is closed only because the next asset would overflow it: of two sections one
/// after the other, when the first holds assets no larger than `threshold` and the second
/// starts with such an asset, that asset and the first section together exceed `threshold`.
pub proof fn law_sections_close_only_on_overflow(sizes: Seq<usize>, threshold: int)
    requires
        threshold >= 0,
    ensures
        closed_on_overflow(sizes, threshold, packed_sections(sizes, threshold)),
{
    lemma_pack_closes(sizes, threshold, sizes.len() as int);
    assert(sizes.take(sizes.len() as int) =~= sizes);
    let (done, current, sum) = pack_state(sizes, threshold);
    let sections = packed_sections(sizes, threshold);
    if current.len() > 0 {
        assert forall|k: int|
            0 <= k < sections.len() - 1 && all_small(sizes, threshold, #[trigger] sections[k]) && sizes[sections[k
                + 1][0]] <= threshold implies size_of(sizes, sections[k]) + sizes[sections[k + 1][0]] > threshold by {
            assert(sections[k] == done[k]);
            if k + 1 < done.len() {
                assert(sections[k + 1] == done[k + 1]);
            } else {
                assert(sections[k + 1] == current);
                assert(done.last() == done[k]);
            }
        }
    }
}

/// The highest compression level of each algorithm; levels above it are brought down to it.
pub open spec fn max_compression_level(compression: Compression) -> Option<u32> {
    match compression {
        Compression::Uncompressed => None,
        Compression::Deflate => Some(9),
        Compression::Bwt => Some(9),
        Compression::Zstd => Some(22),
        Compression::Lzma => Some(9),
        Compression::Lz4 => Some(16),
    }
}

/// Brings a compression level into the range of the algorithm: 0 to 9 for deflate, bzip2 and
/// LZMA, 0 to 22 for Z Standard, 0 to 16 for LZ4; without compression any level stays.
pub fn clamp_to_compression_level(input: u32, compression: &Compression) -> (r: u32)
    ensures
        r == match max_compression_level(*compression) {
            Some(max) => if input > max {
                max
            } else {
                input
            },
            None => input,
        },
{
    let max: u32 = match compression {
        Compression::Uncompressed => {
            return input;
        },
        Compression::Deflate => 9,
        Compression::Bwt => 9,
        Compression::Zstd => 22,
        Compression::Lzma => 9,
        Compression::Lz4 => 16,
    };
    if input > max {
        max
    } else {
        input
    }
}

/// What the `flate2` gzip encoder writes for `data` at `level`; `None` when it reports an error.
pub uninterp spec fn gzip_compressed(data: Seq<u8>, level: u32) -> Option<Seq<u8>>;

/// What the `bzip2` encoder writes for `data` at `level`; `None` when it reports an error.
pub uninterp spec fn bzip2_compressed(data: Seq<u8>, level: u32) -> Option<Seq<u8>>;

/// What the `zstd` stream encoder writes for `data` at `level`; `None` when it reports an error.
pub uninterp spec fn zstd_compressed(data: Seq<u8>, level: u32) -> Option<Seq<u8>>;

/// What the `xz2` encoder writes for `data` at `level`; `None` when it reports an error.
pub uninterp spec fn xz_compressed(data: Seq<u8>, level: u32) -> Option<Seq<u8>>;

/// What the `lz4` frame encoder, favouring decompression speed, writes for `data` at `level`;
/// `None` when it reports an error.
pub uninterp spec fn lz4_compressed(data: Seq<u8>, level: u32) -> Option<Seq<u8>>;

/// Compresses `data` with `flate2::write::GzEncoder` at `flate2::Compression::new(level)`, whose
/// levels run from 0 to 9 (the compressor backends assert as much in debug builds): writes all
/// of it, then finishes and flushes. Claims that the output, or the failure, is the
/// one named `gzip_compressed`, and that the gzip decoder gives `data` back from the output.
#[verifier::external_body]
fn gzip_compress(data: &[u8], level: u32) -> (r: Result<Vec<u8>, anyhow::Error>)
    requires
        level <= 9,
    ensures
        r is Ok <==> gzip_compressed(data@, level) is Some,
        r matches Ok(v) ==> Some(v@) == gzip_compressed(data@, level),
        r matches Ok(v) ==> gzip_decompressed(v@) == Some(data@),
{
    let mut out = Vec::new();
    {
        let mut encoder = flate2::write::GzEncoder::new(&mut out, flate2::Compression::new(level));
        encoder.write_all(data)?;
        encoder.finish()?.flush()?;
    }
    Ok(out)
}

/// Compresses `data` with `bzip2::write::BzEncoder` at `bzip2::Compression::new(level)`, which
/// panics outside levels 1 to 9: writes all of it, then finishes and flushes. Claims that the
/// output, or the failure, is the one named `bzip2_compressed`, and that the bzip2 decoder gives
/// `data` back from the output.
#[verifier::external_body]
fn bzip2_compress(data: &[u8], level: u32) -> (r: Result<Vec<u8>, anyhow::Error>)
    requires
        1 <= level <= 9,
    ensures
        r is Ok <==> bzip2_compressed(data@, level) is Some,
        r matches Ok(v) ==> Some(v@) == bzip2_compressed(data@, level),
        r matches Ok(v) ==> bzip2_decompressed(v@) == Some(data@),
{
    let mut out = Vec::new();
    {
        let mut encoder = bzip2::write::BzEncoder::new(&mut out, bzip2::Compression::new(level));
        encoder.write_all(data)?;
        encoder.finish()?.flush()?;
    }
    Ok(out)
}

/// Compresses `data` with `zstd::Encoder` at level `level as i32`: writes all of it, then
/// finishes and flushes. Claims that the output, or the failure, is the one named
/// `zstd_compressed`, and that `zstd::decode_all` gives `data` back from the output.
#[verifier::external_body]
fn zstd_compress(data: &[u8], level: u32) -> (r: Result<Vec<u8>, anyhow::Error>)
    ensures
        r is Ok <==> zstd_compressed(data@, level) is Some,
        r matches Ok(v) ==> Some(v@) == zstd_compressed(data@, level),
        r matches Ok(v) ==> zstd_decompressed(v@) == Some(data@),
{
    let mut out = Vec::new();
    {
        let mut encoder = zstd::Encoder::new(&mut out, level as i32)?;
        encoder.write_all(data)?;
        encoder.finish()?.flush()?;
    }
    Ok(out)
}

/// Compresses `data` with `xz2::write::XzEncoder` at preset `level`, which panics above 9:
/// writes all of it, then finishes and flushes. Claims that the output, or the failure, is the
/// one named `xz_compressed`, and that the xz decoder gives `data` back from the output.
#[verifier::external_body]
fn xz_compress(data: &[u8], level: u32) -> (r: Result<Vec<u8>, anyhow::Error>)
    requires
        level <= 9,
    ensures
        r is Ok <==> xz_compressed(data@, level) is Some,
        r matches Ok(v) ==> Some(v@) == xz_compressed(data@, level),
        r matches Ok(v) ==> xz_decompressed(v@) == Some(data@),
{
    let mut out = Vec::new();
    {
        let mut encoder = xz2::write::XzEncoder::new(&mut out, level);
        encoder.write_all(data)?;
        encoder.finish()?.flush()?;
    }
    Ok(out)
}

/// Compresses `data` with an `lz4::Encoder` built by `lz4::EncoderBuilder` favouring
/// decompression speed at `level`: writes all of it, flushes, finishes and flushes the output.
/// Claims that the output, or the failure, is the one named `lz4_compressed`, and that the LZ4
/// frame decoder gives `data` back from the output.
#[verifier::external_body]
fn lz4_compress(data: &[u8], level: u32) -> (r: Result<Vec<u8>, anyhow::Error>)
    ensures
        r is Ok <==> lz4_compressed(data@, level) is Some,
        r matches Ok(v) ==> Some(v@) == lz4_compressed(data@, level),
        r matches Ok(v) ==> lz4_decompressed(v@) == Some(data@),
{
    let mut out = Vec::new();
    {
        let mut encoder = lz4::EncoderBuilder::new().favor_dec_speed(true).level(level).build(&mut out)?;
        encoder.write_all(data)?;
        encoder.flush()?;
        let (writer, result) = encoder.finish();
        writer.flush()?;
        result?;
    }
    Ok(out)
}

impl Compression {
    /// The bytes that compressing `data` with this algorithm at `level` gives; `None` for a
    /// failure.
    pub open spec fn spec_compressed(self, data: Seq<u8>, level: u32) -> Option<Seq<u8>> {
        match self {
            Compression::Uncompressed => Some(data),
            Compression::Deflate => gzip_compressed(data, level),
            Compression::Bwt => bzip2_compressed(data, level),
            Compression::Zstd => zstd_compressed(data, level),
            Compression::Lzma => xz_compressed(data, level),
            Compression::Lz4 => lz4_compressed(data, level),
        }
    }

    /// Whether `level` is one the algorithm's encoder takes without panicking: bzip2 takes 1 to
    /// 9, Deflate and LZMA 0 to 9, the others any level.
    pub open spec fn accepts_level(self, level: u32) -> bool {
        match self {
            Compression::Deflate => level <= 9,
            Compression::Bwt => 1 <= level <= 9,
            Compression::Lzma => level <= 9,
            _ => true,
        }
    }

    /// Compresses the given buffer using the compression algorithm of self at the given level.
    ///
    /// What it gives decompresses with the same algorithm to the buffer again.
    pub fn compress(&self, buffer: &[u8], compression_level: u32) -> (r: Result<Vec<u8>, anyhow::Error>)
        requires
            self.accepts_level(compression_level),
        ensures
            r is Ok <==> self.spec_compressed(buffer@, compression_level) is Some,
            r matches Ok(v) ==> Some(v@) == self.spec_compressed(buffer@, compression_level),
            r matches Ok(v) ==> self.spec_decompressed(v@) == Some(buffer@),
    {
        match self {
            Compression::Uncompressed => Ok(copy_bytes(buffer)),
            Compression::Deflate => gzip_compress(buffer, compression_level),
            Compression::Bwt => bzip2_compress(buffer, compression_level),
            Compression::Zstd => zstd_compress(buffer, compression_level),
            Compression::Lzma => xz_compress(buffer, compression_level),
            Compression::Lz4 => lz4_compress(buffer, compression_level),
        }
    }
}


/// Encodes a group's entries, whose paths are distinct, as a map from asset path to asset data
/// with `bincode::serde::encode_to_vec` and the standard configuration. Claims that `bincode`
/// decodes the output back into the map that the entries describe, the one `decoded_group`
/// names. The bytes themselves follow the order in which the map is walked, which each process
/// seeds anew, so nothing is claimed of them, nor of whether encoding succeeds.
#[verifier::external_body]
fn encode_group(entries: Vec<(String, Vec<u8>)>) -> (r: Result<Vec<u8>, anyhow::Error>)
    requires
        distinct_keys(entry_pairs(entries@)),
    ensures
        r matches Ok(v) ==> decoded_group(v@) == Some(pairs_map(entry_pairs(entries@))),
{
    let map: std::collections::HashMap<String, Vec<u8>> = entries.into_iter().collect();
    Ok(bincode::serde::encode_to_vec(&map, bincode::config::standard())?)
}

/// With distinct keys, giving pair `i` new bytes gives the map with its key mapped to them.
proof fn lemma_pairs_map_update(pairs: Seq<(Seq<char>, Seq<u8>)>, i: int, v: Seq<u8>)
    requires
        distinct_keys(pairs),
        0 <= i < pairs.len(),
    ensures
        pairs_map(pairs.update(i, (pairs[i].0, v))) == pairs_map(pairs).insert(pairs[i].0, v),
    decreases pairs.len(),
{
    let updated = pairs.update(i, (pairs[i].0, v));
    if i == pairs.len() - 1 {
        assert(updated.drop_last() =~= pairs.drop_last());
        assert(pairs_map(updated) =~= pairs_map(pairs).insert(pairs[i].0, v));
    } else {
        let rest = pairs.drop_last();
        assert(distinct_keys(rest));
        lemma_pairs_map_update(rest, i, v);
        assert(updated.drop_last() =~= rest.update(i, (rest[i].0, v)));
        assert(pairs[i].0 != pairs.last().0);
        assert(pairs_map(updated) =~= pairs_map(pairs).insert(pairs[i].0, v));
    }
}

/// Sets the data of `key` among `entries`: replaces the data of the entry with that key, or
/// appends an entry for it.
fn set_entry(entries: &mut Vec<(String, Vec<u8>)>, key: String, data: Vec<u8>)
    requires
        distinct_keys(entry_pairs(old(entries)@)),
    ensures
        distinct_keys(entry_pairs(final(entries)@)),
        pairs_map(entry_pairs(final(entries)@)) == pairs_map(entry_pairs(old(entries)@)).insert(key@, data@),
{
    let ghost before = entries@;
    let mut i: usize = 0;
    while i < entries.len()
        invariant
            i <= entries@.len(),
            entries@ == before,
            before == old(entries)@,
            distinct_keys(entry_pairs(before)),
            forall|j: int| 0 <= j < i ==> #[trigger] entries@[j].0@ != key@,
        decreases entries@.len() - i,
    {
        if entries[i].0 == key {
            proof {
                let pairs = entry_pairs(before);
                assert(pairs[i as int].0 == key@);
                lemma_pairs_map_update(pairs, i as int, data@);
            }
            let ghost k = key@;
            let ghost d = data@;
            entries.set(i, (key, data));
            proof {
                let pairs = entry_pairs(before);
                assert(entry_pairs(entries@) =~= pairs.update(i as int, (pairs[i as int].0, d)));
            }
            return;
        }
        i = i + 1;
    }
    let ghost k = key@;
    let ghost d = data@;
    entries.push((key, data));
    proof {
        let pairs = entry_pairs(entries@);
        assert(pairs.drop_last() =~= entry_pairs(before));
        assert forall|a: int, b: int| 0 <= a < b < pairs.len() implies pairs[a].0 != pairs[b].0 by {
            assert(pairs[a] == entry_pairs(before)[a]);
            if b < before.len() {
                assert(pairs[b] == entry_pairs(before)[b]);
            } else {
                assert(before[a].0@ != k);
            }
        }
    }
}

/// Packs a group's assets, each an asset's path and its data, into the content of a group
/// file: a `bincode`-serialized map from path to data, compressed with `compression` at
/// `compression_level`. A path given twice keeps its later data.
///
/// Whatever it gives, loading it back with the same compression gives the map that the assets
/// describe.
pub fn pack_group(assets: Vec<(String, Vec<u8>)>, compression: Compression, compression_level: u32) -> (r: Result<Vec<u8>, anyhow::Error>)
    requires
        compression.accepts_level(compression_level),
    ensures
        r matches Ok(file) ==> group_in_file(compression, file@) == Some(pairs_map(entry_pairs(assets@))),
{
    let mut entries: Vec<(String, Vec<u8>)> = Vec::new();
    let mut i: usize = 0;
    while i < assets.len()
        invariant
            i <= assets@.len(),
            distinct_keys(entry_pairs(entries@)),
            pairs_map(entry_pairs(entries@)) == pairs_map(entry_pairs(assets@).take(i as int)),
        decreases assets@.len() - i,
    {
        let key = assets[i].0.clone();
        let data = assets[i].1.clone();
        proof {
            assert(data@ =~= assets@[i as int].1@);
            let pairs = entry_pairs(assets@);
            assert(pairs.take(i + 1).drop_last() =~= pairs.take(i as int));
            assert(pairs.take(i + 1).last() == (key@, data@));
        }
        set_entry(&mut entries, key, data);
        i = i + 1;
    }
    proof {
        assert(entry_pairs(assets@).take(assets@.len() as int) =~= entry_pairs(assets@));
    }
    let bytes = match encode_group(entries) {
        Ok(bytes) => bytes,
        Err(e) => {
            return Err(e);
        },
    };
    compression.compress(bytes.as_slice(), compression_level)
}

/// What packing writes, loading reads back: once a group file holding packed assets is loaded
/// into the cache, each packed asset that the cache did not hold before reads back with its
/// packed data, and each asset that it held keeps its data.
pub proof fn law_packed_assets_read_back(
    assets: Seq<(Seq<char>, Seq<u8>)>,
    compression: Compression,
    file: Seq<u8>,
    before: Cache,
    after: Cache,
    key: Seq<char>,
)
    requires
        group_in_file(compression, file) == Some(pairs_map(assets)),
        group_in_file(compression, file) matches Some(g) ==> after.view() == g.union_prefer_right(before.view()),
    ensures
        pairs_map(assets).contains_key(key) && !before.view().contains_key(key) ==> after.view().contains_key(key)
            && after.view()[key] == pairs_map(assets)[key],
        before.view().contains_key(key) ==> after.view().contains_key(key) && after.view()[key]
            == before.view()[key],
{
}

/// What `str::to_lowercase` returns for `s`: its Unicode lowercase mapping.
pub uninterp spec fn lowercased(s: Seq<char>) -> Seq<char>;

/// Lower-cases `s` with `str::to_lowercase`. Claims only that the result is the one named
/// `lowercased`.
#[verifier::external_body]
fn to_lowercase(s: &str) -> (r: String)
    ensures
        r@ == lowercased(s@),
{
    s.to_lowercase()
}

/// The compression algorithm that a lower-cased name in a group configuration stands for.
pub open spec fn compression_of_name(name: Seq<char>) -> Option<Compression> {
    if name == "deflate"@ || name == "flate"@ {
        Some(Compression::Deflate)
    } else if name == "bwt"@ || name == "burrows-wheeler-transform"@ || name == "bzip2"@ || name == "bzip"@
        || name == "bz"@ {
        Some(Compression::Bwt)
    } else if name == "zstd"@ || name == "zstandard"@ {
        Some(Compression::Zstd)
    } else if name == "lzma"@ || name == "lempel-ziv-markov-chain-algorithm"@ {
        Some(Compression::Lzma)
    } else if name == "lz4"@ {
        Some(Compression::Lz4)
    } else {
        None
    }
}

/// The names of the group configuration and the algorithms they stand for: "deflate" and
/// "flate" for Deflate; "bwt", "burrows-wheeler-transform", "bzip2", "bzip" and "bz" for the
/// Burrows-Wheeler transform; "zstd" and "zstandard" for Z Standard; "lzma" and
/// "lempel-ziv-markov-chain-algorithm" for LZMA; "lz4" for LZ4. No other name stands for an
/// algorithm.
pub proof fn law_compression_names(name: Seq<char>)
    ensures
        (name == "deflate"@ || name == "flate"@) <==> compression_of_name(name) == Some(Compression::Deflate),
        (name == "bwt"@ || name == "burrows-wheeler-transform"@ || name == "bzip2"@ || name == "bzip"@ || name
            == "bz"@) <==> compression_of_name(name) == Some(Compression::Bwt),
        (name == "zstd"@ || name == "zstandard"@) <==> compression_of_name(name) == Some(Compression::Zstd),
        (name == "lzma"@ || name == "lempel-ziv-markov-chain-algorithm"@) <==> compression_of_name(name) == Some(
            Compression::Lzma,
        ),
        name == "lz4"@ <==> compression_of_name(name) == Some(Compression::Lz4),
        compression_of_name(name) != Some(Compression::Uncompressed),
{
    reveal_strlit("deflate");
    reveal_strlit("flate");
    reveal_strlit("bwt");
    reveal_strlit("burrows-wheeler-transform");
    reveal_strlit("bzip2");
    reveal_strlit("bzip");
    reveal_strlit("bz");
    reveal_strlit("zstd");
    reveal_strlit("zstandard");
    reveal_strlit("lzma");
    reveal_strlit("lempel-ziv-markov-chain-algorithm");
    reveal_strlit("lz4");
    assert("deflate"@[0] == 'd' && "flate"@[0] == 'f');
    assert("bwt"@[0] == 'b' && "burrows-wheeler-transform"@[0] == 'b' && "bzip2"@[0] == 'b' && "bzip"@[0] == 'b'
        && "bz"@[0] == 'b');
    if name == "bwt"@ || name == "burrows-wheeler-transform"@ || name == "bzip2"@ || name == "bzip"@ || name == "bz"@ {
        assert(name[0] == 'b');
    }
    if name == "zstd"@ || name == "zstandard"@ {
        assert(name[0] == 'z');
    }
    assert("zstd"@[0] == 'z' && "zstandard"@[0] == 'z');
    assert("lzma"@[2] == 'm' && "lempel-ziv-markov-chain-algorithm"@[2] == 'm');
    if name == "lz4"@ {
        assert(name[0] == 'l' && name[2] == '4');
    }
}

impl Compression {
    /// The compression algorithm a group configuration names, in any letter case; `None` for
    /// a name of no algorithm.
    pub fn from_name(name: &str) -> (r: Option<Compression>)
        ensures
            r == compression_of_name(lowercased(name@)),
    {
        let lower = to_lowercase(name);
        if lower == "deflate".to_owned() || lower == "flate".to_owned() {
            Some(Compression::Deflate)
        } else if lower == "bwt".to_owned() || lower == "burrows-wheeler-transform".to_owned() || lower
            == "bzip2".to_owned() || lower == "bzip".to_owned() || lower == "bz".to_owned() {
            Some(Compression::Bwt)
        } else if lower == "zstd".to_owned() || lower == "zstandard".to_owned() {
            Some(Compression::Zstd)
        } else if lower == "lzma".to_owned() || lower == "lempel-ziv-markov-chain-algorithm".to_owned() {
            Some(Compression::Lzma)
        } else if lower == "lz4".to_owned() {
            Some(Compression::Lz4)
        } else {
            None
        }
    }
}

} // verus!
