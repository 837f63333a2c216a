//! The container's round-trip law: an archive encoded from any entry list
//! decodes back to exactly that list, even though every offset was
//! re-derived from scratch.

use vstd::prelude::*;

use crate::asset::{lemma_record_round_trip, spec_parse_record, spec_record_bytes};
use crate::bnl::{
    chunks_of, enc_desc_range, enc_pool_range, enc_recs_range, enc_views_range,
    lemma_enc_ranges_len_mono, lemma_enc_ranges_snoc, lemma_header_round_trip, spec_asset_dvl_bytes,
    spec_asset_record, spec_asset_views, spec_decode_bnl, spec_decode_chunks,
    spec_decode_combined, spec_decode_record, spec_decode_records, spec_encode_fits,
    spec_encode_header, spec_encoded_sections, spec_header_bytes, spec_parse_header, BNLFileView,
    BNLHeaderView, RawAssetView,
};
use crate::bytes::{le32, lemma_le32_round_trip, u32_le_bytes};
use crate::compress::{deflate_of, inflate_of};
use crate::resource::{concat_of, concat_prefix, lemma_concat_split};
use crate::views::{
    lemma_views_bytes_len, lemma_views_round_trip, spec_dvl_bytes, spec_first_view_error,
    spec_parse_views, spec_view_slices, spec_views_bytes, DataView,
};

verus! {

/// An entry that can be stored and recovered byte for byte: a full-width
/// name field and a type tag in its canonical form.
pub open spec fn asset_wf(a: RawAssetView) -> bool {
    a.name.len() == 128 && a.asset_type.is_canonical()
}

/// Every entry of the list is storable.
pub open spec fn assets_wf(assets: Seq<RawAssetView>) -> bool {
    forall|i: int| 0 <= i < assets.len() ==> asset_wf(#[trigger] assets[i])
}

/// Each of the four section ranges is one piece of the whole: a range splits
/// at any point into its two halves.
proof fn lemma_enc_range_concat(assets: Seq<RawAssetView>, lo: int, mid: int, hi: int)
    requires
        0 <= lo <= mid <= hi,
    ensures
        enc_desc_range(assets, lo, hi) =~= enc_desc_range(assets, lo, mid) + enc_desc_range(
            assets,
            mid,
            hi,
        ),
        enc_pool_range(assets, lo, hi) =~= enc_pool_range(assets, lo, mid) + enc_pool_range(
            assets,
            mid,
            hi,
        ),
        enc_views_range(assets, lo, hi) =~= enc_views_range(assets, lo, mid) + enc_views_range(
            assets,
            mid,
            hi,
        ),
        enc_recs_range(assets, lo, hi) =~= enc_recs_range(assets, lo, mid) + enc_recs_range(
            assets,
            mid,
            hi,
        ),
    decreases mid - lo,
{
    if lo < mid {
        lemma_enc_range_concat(assets, lo + 1, mid, hi);
    }
}

/// A storable entry's record occupies exactly 160 bytes, so the record
/// section of `lo..hi` occupies exactly `160 * (hi - lo)`.
proof fn lemma_enc_recs_len(assets: Seq<RawAssetView>, lo: int, hi: int)
    requires
        0 <= lo <= hi <= assets.len(),
        assets_wf(assets),
    ensures
        enc_recs_range(assets, lo, hi).len() == 160 * (hi - lo),
    decreases hi - lo,
{
    if lo < hi {
        lemma_enc_recs_len(assets, lo + 1, hi);
        assert(spec_record_bytes(spec_asset_record(assets, lo)).len() == 160);
    }
}

/// A list of views that all lie inside the pool has no bounds failure.
proof fn lemma_first_view_error_none(vs: Seq<DataView>, pool_len: nat)
    requires
        forall|k: int| 0 <= k < vs.len() ==> (#[trigger] vs[k]).offset + vs[k].size <= pool_len,
    ensures
        spec_first_view_error(vs, pool_len) is None,
    decreases vs.len(),
{
    if vs.len() > 0 {
        assert(vs[0].offset + vs[0].size <= pool_len);
        assert forall|k: int| 0 <= k < vs.drop_first().len() implies (#[trigger] vs.drop_first()[k]).offset
            + vs.drop_first()[k].size <= pool_len by {
            assert(vs.drop_first()[k] == vs[k + 1]);
        }
        lemma_first_view_error_none(vs.drop_first(), pool_len);
    }
}

/// The chunk list entry `i` contributes decodes back to entry `i`'s
/// chunks.
#[verifier::rlimit(100)]
#[verifier::spinoff_prover]
proof fn lemma_decode_encoded_chunks(assets: Seq<RawAssetView>, i: int)
    requires
        assets_wf(assets),
        spec_encode_fits(assets),
        0 <= i < assets.len(),
    ensures
        spec_decode_chunks(
            enc_views_range(assets, 0, assets.len() as int),
            enc_pool_range(assets, 0, assets.len() as int),
            spec_asset_record(assets, i),
        ) == Some(assets[i].chunks),
{
    let n = assets.len() as int;
    let views_sec = enc_views_range(assets, 0, n);
    let pool = enc_pool_range(assets, 0, n);
    let a = assets[i];
    let rv = spec_asset_record(assets, i);
    let sections = spec_encoded_sections(assets);
    assert(sections.len() <= u32::MAX);
    assert(views_sec.len() <= sections.len() && pool.len() <= sections.len());
    lemma_enc_range_concat(assets, 0, i, n);
    lemma_enc_range_concat(assets, i, i + 1, n);
    lemma_enc_ranges_len_mono(assets, i, n);
    lemma_enc_ranges_len_mono(assets, i + 1, n);
    lemma_enc_ranges_snoc(assets, 0, i);

    match a.chunks {
        None => {
            assert(rv.resource_size == 0);
            assert(spec_decode_chunks(views_sec, pool, rv) == Some(None::<Seq<Seq<u8>>>));
        },
        Some(cs) => {
            let vp = enc_views_range(assets, 0, i).len();
            let pp = enc_pool_range(assets, 0, i).len();
            let dvl = spec_asset_dvl_bytes(assets, i);
            let vs = spec_asset_views(cs, pp as nat);
            lemma_views_bytes_len(vs);
            assert(dvl =~= u32_le_bytes((8 + 8 * cs.len()) as u32) + u32_le_bytes(
                cs.len() as u32,
            ) + spec_views_bytes(vs));
            assert(dvl.len() == 8 + 8 * cs.len());
            assert(enc_views_range(assets, 0, i + 1).len() == vp + dvl.len());
            assert(vp + dvl.len() <= views_sec.len());
            assert(8 + 8 * cs.len() <= u32::MAX);
            assert(cs.len() <= u32::MAX);
            assert(rv.resource_size == (8 + 8 * cs.len()) as u32);
            assert(rv.resource_size != 0);
            assert(rv.dataview_list_ptr == vp as u32);

            assert(enc_views_range(assets, i, n) =~= dvl + enc_views_range(assets, i + 1, n));
            assert(views_sec =~= enc_views_range(assets, 0, i) + enc_views_range(assets, i, n));
            let vb = views_sec.skip(vp as int);
            assert(vb =~= dvl + enc_views_range(assets, i + 1, n));
            assert(vb.len() >= 8);
            lemma_le32_round_trip((8 + 8 * cs.len()) as u32);
            lemma_le32_round_trip(cs.len() as u32);
            assert(vb.subrange(0, 4) =~= u32_le_bytes((8 + 8 * cs.len()) as u32));
            assert(vb.subrange(4, 8) =~= u32_le_bytes(cs.len() as u32));
            assert(le32(vb.subrange(4, 8)) == cs.len());
            assert(8 + 8 * cs.len() <= vb.len());
            assert(vb.skip(8) =~= spec_views_bytes(vs) + enc_views_range(assets, i + 1, n));
            lemma_views_round_trip(vs, enc_views_range(assets, i + 1, n));
            assert(spec_parse_views(vb.skip(8), cs.len() as nat) =~= vs);

            assert(enc_pool_range(assets, 0, i + 1).len() == pp + concat_of(cs).len());
            assert(pp + concat_of(cs).len() <= pool.len());
            assert(pool =~= enc_pool_range(assets, 0, i) + enc_pool_range(assets, i, n));
            assert(enc_pool_range(assets, i, n) =~= concat_of(cs) + enc_pool_range(
                assets,
                i + 1,
                n,
            ));
            assert forall|k: int| 0 <= k < vs.len() implies (#[trigger] vs[k]).offset + vs[k].size
                <= pool.len() by {
                lemma_concat_split(cs, k);
                lemma_concat_split(cs, k + 1);
                assert(concat_prefix(cs, k + 1) =~= concat_prefix(cs, k) + cs[k]);
                assert(concat_prefix(cs, k).len() + cs[k].len() <= concat_of(cs).len());
                assert(vs[k].offset == (pp + concat_prefix(cs, k).len()) as u32);
                assert(vs[k].size == cs[k].len() as u32);
            }
            lemma_first_view_error_none(vs, pool.len() as nat);
            assert forall|k: int| 0 <= k < vs.len() implies #[trigger] spec_view_slices(vs, pool)[k]
                == cs[k] by {
                lemma_concat_split(cs, k);
                lemma_concat_split(cs, k + 1);
                assert(concat_prefix(cs, k + 1) =~= concat_prefix(cs, k) + cs[k]);
                assert(concat_prefix(cs, k).len() + cs[k].len() <= concat_of(cs).len());
                let off = pp + concat_prefix(cs, k).len();
                assert(vs[k].offset == off as u32 && vs[k].size == cs[k].len() as u32);
                assert(pool.subrange(off as int, (off + cs[k].len()) as int) =~= cs[k]);
            }
            assert(spec_view_slices(vs, pool) =~= cs);
            assert(spec_decode_chunks(views_sec, pool, rv) == Some(Some(cs)));
        },
    }
}

/// Record `i` of the encoded archive decodes back to entry `i`.
#[verifier::rlimit(100)]
#[verifier::spinoff_prover]
proof fn lemma_decode_encoded_record(assets: Seq<RawAssetView>, i: int)
    requires
        assets_wf(assets),
        spec_encode_fits(assets),
        0 <= i < assets.len(),
    ensures
        spec_decode_record(
            spec_record_bytes(spec_asset_record(assets, i)),
            enc_views_range(assets, 0, assets.len() as int),
            enc_pool_range(assets, 0, assets.len() as int),
            enc_desc_range(assets, 0, assets.len() as int),
        ) == Some(assets[i]),
{
    let n = assets.len() as int;
    let views_sec = enc_views_range(assets, 0, n);
    let pool = enc_pool_range(assets, 0, n);
    let desc_sec = enc_desc_range(assets, 0, n);
    let a = assets[i];
    let rv = spec_asset_record(assets, i);
    let rec = spec_record_bytes(rv);

    let sections = spec_encoded_sections(assets);
    assert(sections.len() <= u32::MAX);
    assert(desc_sec.len() <= sections.len());

    lemma_record_round_trip(rv);
    assert(spec_parse_record(rec) == rv);

    let dp = enc_desc_range(assets, 0, i).len();
    lemma_enc_ranges_len_mono(assets, i, n);
    lemma_enc_ranges_len_mono(assets, i + 1, n);
    lemma_enc_ranges_snoc(assets, 0, i);
    lemma_enc_range_concat(assets, 0, i, n);
    assert(enc_desc_range(assets, 0, i + 1).len() == dp + a.descriptor.len());
    assert(dp + a.descriptor.len() <= desc_sec.len());
    assert(rv.descriptor_ptr == dp as u32);
    assert(rv.descriptor_size == a.descriptor.len() as u32);
    assert(enc_desc_range(assets, i, n) =~= a.descriptor + enc_desc_range(assets, i + 1, n));
    assert(desc_sec =~= enc_desc_range(assets, 0, i) + enc_desc_range(assets, i, n));
    assert(desc_sec.subrange(dp as int, (dp + a.descriptor.len()) as int) =~= a.descriptor);

    lemma_decode_encoded_chunks(assets, i);
    assert(spec_decode_record(rec, views_sec, pool, desc_sec) == Some(a));
}

/// The record section cuts at record boundaries: record `i`'s bytes sit at
/// offset `160 * i`.
#[verifier::spinoff_prover]
proof fn lemma_record_extraction(assets: Seq<RawAssetView>, i: int)
    requires
        assets_wf(assets),
        0 <= i < assets.len(),
    ensures
        enc_recs_range(assets, 0, assets.len() as int).subrange(160 * i, 160 * (i + 1))
            == spec_record_bytes(spec_asset_record(assets, i)),
{
    let n = assets.len() as int;
    let rec = spec_record_bytes(spec_asset_record(assets, i));
    lemma_enc_recs_len(assets, 0, i);
    lemma_enc_recs_len(assets, i, i + 1);
    lemma_enc_recs_len(assets, 0, n);
    lemma_enc_range_concat(assets, 0, i, n);
    lemma_enc_range_concat(assets, i, i + 1, n);
    assert(enc_recs_range(assets, i, n) =~= rec + enc_recs_range(assets, i + 1, n));
    assert(enc_recs_range(assets, 0, n).subrange(160 * i, 160 * (i + 1)) =~= rec);
}

/// The first `m` records of the encoded archive decode back to the first
/// `m` entries.
#[verifier::rlimit(100)]
#[verifier::spinoff_prover]
proof fn lemma_decode_encoded_records(assets: Seq<RawAssetView>, m: int)
    requires
        assets_wf(assets),
        spec_encode_fits(assets),
        0 <= m <= assets.len(),
    ensures
        spec_decode_records(
            enc_recs_range(assets, 0, assets.len() as int),
            enc_views_range(assets, 0, assets.len() as int),
            enc_pool_range(assets, 0, assets.len() as int),
            enc_desc_range(assets, 0, assets.len() as int),
            m as nat,
        ) == Some(assets.take(m)),
    decreases m,
{
    let n = assets.len() as int;
    let recs = enc_recs_range(assets, 0, n);
    let views_sec = enc_views_range(assets, 0, n);
    let pool = enc_pool_range(assets, 0, n);
    let desc_sec = enc_desc_range(assets, 0, n);
    if m == 0 {
        assert(assets.take(0) =~= Seq::<RawAssetView>::empty());
    } else {
        lemma_decode_encoded_records(assets, m - 1);
        lemma_decode_encoded_record(assets, m - 1);
        lemma_record_extraction(assets, m - 1);
        assert(spec_decode_record(
            recs.subrange(160 * (m - 1), 160 * m),
            views_sec,
            pool,
            desc_sec,
        ) == Some(assets[m - 1]));
        assert(assets.take(m) =~= assets.take(m - 1).push(assets[m - 1]));
    }
}

/// Round trip of the combined buffer: the image encoded from any storable
/// entry list, before compression, decodes back to exactly that list, under
/// the freshly computed header.
#[verifier::rlimit(100)]
#[verifier::spinoff_prover]
pub proof fn lemma_archive_round_trip(h: BNLHeaderView, assets: Seq<RawAssetView>)
    requires
        assets_wf(assets),
        spec_encode_fits(assets),
        h.unknown_2.len() == 5,
    ensures
        spec_decode_combined(
            spec_header_bytes(spec_encode_header(h, assets)) + spec_encoded_sections(assets),
        ) == Some(BNLFileView { header: spec_encode_header(h, assets), assets }),
{
    let n = assets.len() as int;
    let new_h = spec_encode_header(h, assets);
    let recs = enc_recs_range(assets, 0, n);
    let views_sec = enc_views_range(assets, 0, n);
    let pool = enc_pool_range(assets, 0, n);
    let desc_sec = enc_desc_range(assets, 0, n);
    let sections = spec_encoded_sections(assets);
    let combined = spec_header_bytes(new_h) + sections;

    lemma_header_round_trip(new_h);
    assert(combined.len() == 40 + sections.len());
    assert(combined.subrange(0, 40) =~= spec_header_bytes(new_h));
    assert(spec_parse_header(combined.subrange(0, 40)) == new_h);

    // Section locations are consistent by construction.
    assert(sections =~= recs + views_sec + pool + desc_sec);
    assert(combined =~= spec_header_bytes(new_h) + recs + views_sec + pool + desc_sec);
    assert(new_h.asset_desc_loc.offset == 40 && new_h.asset_desc_loc.size == recs.len());
    assert(new_h.buffer_views_loc.offset == 40 + recs.len() && new_h.buffer_views_loc.size
        == views_sec.len());
    assert(new_h.buffer_loc.offset == 40 + recs.len() + views_sec.len() && new_h.buffer_loc.size
        == pool.len());
    assert(new_h.descriptor_loc.offset == 40 + recs.len() + views_sec.len() + pool.len()
        && new_h.descriptor_loc.size == desc_sec.len());

    assert(crate::bnl::spec_section(combined, new_h.asset_desc_loc) =~= recs);
    assert(crate::bnl::spec_section(combined, new_h.buffer_views_loc) =~= views_sec);
    assert(crate::bnl::spec_section(combined, new_h.buffer_loc) =~= pool);
    assert(crate::bnl::spec_section(combined, new_h.descriptor_loc) =~= desc_sec);

    // The record count recomputed from the section size is the entry count.
    lemma_enc_recs_len(assets, 0, n);
    assert(new_h.asset_desc_loc.size == 160 * n);
    assert((160 * n) as u32 / 160 == n) by (nonlinear_arith)
        requires
            0 <= n,
            160 * n <= u32::MAX,
    ;

    lemma_decode_encoded_records(assets, n);
    assert(assets.take(n) =~= assets);
}

/// Round trip of a whole archive file through compression: decoding what an
/// encode produced yields exactly the entries that were encoded.  The
/// hypothesis on the compressed payload is discharged by the encoder itself,
/// which obtains it from the compression primitive at each call.
pub proof fn lemma_archive_round_trip_compressed(h: BNLHeaderView, assets: Seq<RawAssetView>)
    requires
        assets_wf(assets),
        spec_encode_fits(assets),
        h.unknown_2.len() == 5,
        inflate_of(deflate_of(spec_encoded_sections(assets))) == Some(
            spec_encoded_sections(assets),
        ),
    ensures
        spec_decode_bnl(
            spec_header_bytes(spec_encode_header(h, assets)) + deflate_of(
                spec_encoded_sections(assets),
            ),
        ) == Some(BNLFileView { header: spec_encode_header(h, assets), assets }),
{
    let new_h = spec_encode_header(h, assets);
    let sections = spec_encoded_sections(assets);
    let bytes = spec_header_bytes(new_h) + deflate_of(sections);
    lemma_header_round_trip(new_h);
    assert(bytes.len() >= 40);
    assert(bytes.skip(40) =~= deflate_of(sections));
    assert(bytes.subrange(0, 40) =~= spec_header_bytes(new_h));
    lemma_archive_round_trip(h, assets);
}

/// After appending an entry and re-encoding, the decoded archive holds that
/// entry, name, descriptor bytes and chunks intact, at the end of the list.
pub proof fn lemma_appended_asset_survives(
    h: BNLHeaderView,
    assets: Seq<RawAssetView>,
    a: RawAssetView,
)
    requires
        assets_wf(assets.push(a)),
        spec_encode_fits(assets.push(a)),
        h.unknown_2.len() == 5,
        inflate_of(deflate_of(spec_encoded_sections(assets.push(a)))) == Some(
            spec_encoded_sections(assets.push(a)),
        ),
    ensures
        spec_decode_bnl(
            spec_header_bytes(spec_encode_header(h, assets.push(a))) + deflate_of(
                spec_encoded_sections(assets.push(a)),
            ),
        ) matches Some(f) && f.assets.len() == assets.len() + 1 && f.assets.last() == a,
{
    lemma_archive_round_trip_compressed(h, assets.push(a));
}

/// Round trip of a chunk list: a serialized view list parses back to the
/// same declared size, the same count, and the same ordered (offset, size)
/// pairs, whatever bytes follow it.
pub proof fn lemma_dvl_round_trip(size: u32, num_views: u32, vs: Seq<DataView>, rest: Seq<u8>)
    requires
        num_views == vs.len(),
    ensures
        ({
            let b = spec_dvl_bytes(size, num_views, vs) + rest;
            le32(b.subrange(0, 4)) == size && le32(b.subrange(4, 8)) == num_views && 8 + 8 * le32(
                b.subrange(4, 8),
            ) <= b.len() && spec_parse_views(b.skip(8), le32(b.subrange(4, 8))) == vs
        }),
{
    let b = spec_dvl_bytes(size, num_views, vs) + rest;
    lemma_views_bytes_len(vs);
    crate::bytes::lemma_le32_round_trip(size);
    crate::bytes::lemma_le32_round_trip(num_views);
    assert(b.subrange(0, 4) =~= u32_le_bytes(size));
    assert(b.subrange(4, 8) =~= u32_le_bytes(num_views));
    assert(b.skip(8) =~= spec_views_bytes(vs) + rest);
    lemma_views_round_trip(vs, rest);
    assert(spec_parse_views(b.skip(8), vs.len()) =~= vs);
}

/// An entry record whose resource size is zero decodes to an entry without
/// chunks, provided only that its descriptor range lies inside the
/// descriptor section.
pub proof fn lemma_zero_resource_decodes_to_no_chunks(
    rec: Seq<u8>,
    views_sec: Seq<u8>,
    pool: Seq<u8>,
    desc_sec: Seq<u8>,
)
    requires
        spec_parse_record(rec).resource_size == 0,
        spec_parse_record(rec).descriptor_ptr + spec_parse_record(rec).descriptor_size
            <= desc_sec.len(),
    ensures
        spec_decode_record(rec, views_sec, pool, desc_sec) matches Some(a) && a.chunks is None,
{
}

} // verus!
