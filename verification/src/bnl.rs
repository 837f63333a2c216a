//! The archive container: owns the full collection of raw assets, decodes
//! them from a compressed archive image, and rebuilds a fresh, internally
//! consistent image from scratch on every encode.

use vstd::prelude::*;

use crate::asset::{
    spec_parse_record, spec_record_bytes, Asset, AssetDescription, AssetDescriptionView,
    AssetDescriptor, AssetError, AssetLike, AssetMetadata, AssetParseError, AssetType,
};
use crate::bytes::{le16, le32, read_u16_le, read_u32_le, u16_le_bytes, u32_le_bytes};
use crate::compress::{deflate_of, inflate_of};
use crate::resource::{concat_of, concat_prefix, VirtualResource};
use crate::views::{
    spec_dvl_bytes, spec_first_view_error, spec_parse_views, spec_view_bytes, spec_view_slices,
    DataView, DataViewList,
};

verus! {

/// Why an archive image could not be decoded.
#[derive(Debug, Clone, PartialEq)]
pub enum BNLError {
    /// The compressed payload is not a valid zlib stream.
    DecompressionFailure,
    /// A header, record or section did not follow the archive layout.
    DataReadError(String),
}

/// The fixed 40-byte archive header: an entry count, flags, reserved bytes,
/// and the location of each of the four sections inside the combined buffer.
#[derive(Debug, Clone, Copy)]
pub struct BNLHeader {
    pub(crate) file_count: u16,
    pub(crate) flags: u8,
    pub(crate) unknown_2: [u8; 5],
    pub(crate) asset_desc_loc: DataView,
    pub(crate) buffer_views_loc: DataView,
    pub(crate) buffer_loc: DataView,
    pub(crate) descriptor_loc: DataView,
}

/// The mathematical content of an archive header.
pub struct BNLHeaderView {
    pub file_count: u16,
    pub flags: u8,
    pub unknown_2: Seq<u8>,
    pub asset_desc_loc: DataView,
    pub buffer_views_loc: DataView,
    pub buffer_loc: DataView,
    pub descriptor_loc: DataView,
}

impl View for BNLHeader {
    type V = BNLHeaderView;

    closed spec fn view(&self) -> BNLHeaderView {
        BNLHeaderView {
            file_count: self.file_count,
            flags: self.flags,
            unknown_2: self.unknown_2@,
            asset_desc_loc: self.asset_desc_loc,
            buffer_views_loc: self.buffer_views_loc,
            buffer_loc: self.buffer_loc,
            descriptor_loc: self.descriptor_loc,
        }
    }
}

impl Default for BNLHeader {
    fn default() -> (r: BNLHeader)
        ensures
            r@ == (BNLHeaderView {
                file_count: 0,
                flags: 0,
                unknown_2: seq![0u8, 0u8, 0u8, 0u8, 0u8],
                asset_desc_loc: DataView { offset: 0, size: 0 },
                buffer_views_loc: DataView { offset: 0, size: 0 },
                buffer_loc: DataView { offset: 0, size: 0 },
                descriptor_loc: DataView { offset: 0, size: 0 },
            }),
    {
        let r = BNLHeader {
            file_count: 0,
            flags: 0,
            unknown_2: [0; 5],
            asset_desc_loc: DataView { offset: 0, size: 0 },
            buffer_views_loc: DataView { offset: 0, size: 0 },
            buffer_loc: DataView { offset: 0, size: 0 },
            descriptor_loc: DataView { offset: 0, size: 0 },
        };
        proof {
            assert(r.unknown_2@ =~= seq![0u8, 0u8, 0u8, 0u8, 0u8]);
        }
        r
    }
}

/// The 40 bytes an archive header serializes to.
pub open spec fn spec_header_bytes(h: BNLHeaderView) -> Seq<u8> {
    u16_le_bytes(h.file_count) + seq![h.flags] + h.unknown_2 + spec_view_bytes(h.asset_desc_loc)
        + spec_view_bytes(h.buffer_views_loc) + spec_view_bytes(h.buffer_loc) + spec_view_bytes(
        h.descriptor_loc,
    )
}

/// The header that 40 bytes parse to.
pub open spec fn spec_parse_header(b: Seq<u8>) -> BNLHeaderView
    recommends
        b.len() >= 40,
{
    BNLHeaderView {
        file_count: le16(b.subrange(0, 2)) as u16,
        flags: b[2],
        unknown_2: b.subrange(3, 8),
        asset_desc_loc: DataView {
            offset: le32(b.subrange(8, 12)) as u32,
            size: le32(b.subrange(12, 16)) as u32,
        },
        buffer_views_loc: DataView {
            offset: le32(b.subrange(16, 20)) as u32,
            size: le32(b.subrange(20, 24)) as u32,
        },
        buffer_loc: DataView {
            offset: le32(b.subrange(24, 28)) as u32,
            size: le32(b.subrange(28, 32)) as u32,
        },
        descriptor_loc: DataView {
            offset: le32(b.subrange(32, 36)) as u32,
            size: le32(b.subrange(36, 40)) as u32,
        },
    }
}

/// A header written and read back comes back field for field.
#[verifier::rlimit(100)]
pub proof fn lemma_header_round_trip(h: BNLHeaderView)
    requires
        h.unknown_2.len() == 5,
    ensures
        spec_header_bytes(h).len() == 40,
        spec_parse_header(spec_header_bytes(h)) == h,
{
    let b = spec_header_bytes(h);
    crate::bytes::lemma_le16_round_trip(h.file_count);
    crate::bytes::lemma_le32_round_trip(h.asset_desc_loc.offset);
    crate::bytes::lemma_le32_round_trip(h.asset_desc_loc.size);
    crate::bytes::lemma_le32_round_trip(h.buffer_views_loc.offset);
    crate::bytes::lemma_le32_round_trip(h.buffer_views_loc.size);
    crate::bytes::lemma_le32_round_trip(h.buffer_loc.offset);
    crate::bytes::lemma_le32_round_trip(h.buffer_loc.size);
    crate::bytes::lemma_le32_round_trip(h.descriptor_loc.offset);
    crate::bytes::lemma_le32_round_trip(h.descriptor_loc.size);
    assert(b.subrange(0, 2) =~= u16_le_bytes(h.file_count));
    assert(b[2] == h.flags);
    assert(b.subrange(3, 8) =~= h.unknown_2);
    assert(b.subrange(8, 12) =~= u32_le_bytes(h.asset_desc_loc.offset));
    assert(b.subrange(12, 16) =~= u32_le_bytes(h.asset_desc_loc.size));
    assert(b.subrange(16, 20) =~= u32_le_bytes(h.buffer_views_loc.offset));
    assert(b.subrange(20, 24) =~= u32_le_bytes(h.buffer_views_loc.size));
    assert(b.subrange(24, 28) =~= u32_le_bytes(h.buffer_loc.offset));
    assert(b.subrange(28, 32) =~= u32_le_bytes(h.buffer_loc.size));
    assert(b.subrange(32, 36) =~= u32_le_bytes(h.descriptor_loc.offset));
    assert(b.subrange(36, 40) =~= u32_le_bytes(h.descriptor_loc.size));
}

impl BNLHeader {
    /// Serializes this header into its 40 bytes.
    pub fn to_bytes(&self) -> (r: Vec<u8>)
        ensures
            r@ == spec_header_bytes(self@),
            r@.len() == 40,
    {
        let mut out: Vec<u8> = Vec::new();
        crate::bytes::push_u16_le(&mut out, self.file_count);
        out.push(self.flags);
        let mut i: usize = 0;
        while i < 5
            invariant
                0 <= i <= 5,
                out@ =~= u16_le_bytes(self.file_count) + seq![self.flags] + self.unknown_2@.take(
                    i as int,
                ),
            decreases 5 - i,
        {
            out.push(self.unknown_2[i]);
            i = i + 1;
        }
        proof {
            assert(self.unknown_2@.take(5) =~= self.unknown_2@);
        }
        crate::bytes::push_u32_le(&mut out, self.asset_desc_loc.offset);
        crate::bytes::push_u32_le(&mut out, self.asset_desc_loc.size);
        crate::bytes::push_u32_le(&mut out, self.buffer_views_loc.offset);
        crate::bytes::push_u32_le(&mut out, self.buffer_views_loc.size);
        crate::bytes::push_u32_le(&mut out, self.buffer_loc.offset);
        crate::bytes::push_u32_le(&mut out, self.buffer_loc.size);
        crate::bytes::push_u32_le(&mut out, self.descriptor_loc.offset);
        crate::bytes::push_u32_le(&mut out, self.descriptor_loc.size);
        proof {
            assert(out@ =~= spec_header_bytes(self@));
        }
        out
    }

    /// Parses the 40-byte header at the front of an archive image; fails
    /// exactly on a short input.
    pub fn from_bytes(b: &[u8]) -> (r: Option<BNLHeader>)
        ensures
            b@.len() >= 40 ==> (r matches Some(h) && h@ == spec_parse_header(b@)),
            b@.len() < 40 ==> r is None,
    {
        if b.len() < 40 {
            return None;
        }
        let file_count = read_u16_le(b, 0);
        let flags = b[2];
        let mut unknown_2: [u8; 5] = [0; 5];
        let mut i: usize = 0;
        while i < 5
            invariant
                b@.len() >= 40,
                0 <= i <= 5,
                unknown_2@.len() == 5,
                forall|k: int| 0 <= k < i ==> unknown_2@[k] == b@[3 + k],
            decreases 5 - i,
        {
            unknown_2[i] = b[3 + i];
            i = i + 1;
        }
        proof {
            assert(unknown_2@ =~= b@.subrange(3, 8));
            assert(b@.subrange(0, 2) =~= b@.subrange(0, 2));
        }
        let h = BNLHeader {
            file_count,
            flags,
            unknown_2,
            asset_desc_loc: DataView { offset: read_u32_le(b, 8), size: read_u32_le(b, 12) },
            buffer_views_loc: DataView { offset: read_u32_le(b, 16), size: read_u32_le(b, 20) },
            buffer_loc: DataView { offset: read_u32_le(b, 24), size: read_u32_le(b, 28) },
            descriptor_loc: DataView { offset: read_u32_le(b, 32), size: read_u32_le(b, 36) },
        };
        Some(h)
    }
}

/// An un-interpreted, fully owned archive entry: metadata, descriptor bytes,
/// and the materialized resource chunks when the entry has a payload.  This
/// is the container's unit of storage and mutation.
#[derive(Debug, Clone)]
pub struct RawAsset {
    metadata: AssetMetadata,
    descriptor_bytes: Vec<u8>,
    resource_chunks: Option<Vec<Vec<u8>>>,
}

/// The mathematical content of one archive entry.
pub struct RawAssetView {
    pub name: Seq<u8>,
    pub asset_type: AssetType,
    pub unk_1: u32,
    pub unk_2: u32,
    pub descriptor: Seq<u8>,
    pub chunks: Option<Seq<Seq<u8>>>,
}

impl View for RawAsset {
    type V = RawAssetView;

    closed spec fn view(&self) -> RawAssetView {
        RawAssetView {
            name: self.metadata.name@,
            asset_type: self.metadata.asset_type,
            unk_1: self.metadata.unk_1,
            unk_2: self.metadata.unk_2,
            descriptor: self.descriptor_bytes@,
            chunks: match self.resource_chunks {
                Some(c) => Some(c.deep_view()),
                None => None,
            },
        }
    }
}

impl DeepView for RawAsset {
    type V = RawAssetView;

    open spec fn deep_view(&self) -> RawAssetView {
        self.view()
    }
}

impl RawAsset {
    pub fn new(
        metadata: AssetMetadata,
        descriptor_bytes: Vec<u8>,
        resource_chunks: Option<Vec<Vec<u8>>>,
    ) -> (r: RawAsset)
        ensures
            r@.name == metadata.name@,
            r@.asset_type == metadata.asset_type,
            r@.unk_1 == metadata.unk_1,
            r@.unk_2 == metadata.unk_2,
            r@.descriptor == descriptor_bytes@,
            r@.chunks == (match resource_chunks {
                Some(c) => Some(c.deep_view()),
                None => None::<Seq<Seq<u8>>>,
            }),
    {
        RawAsset { metadata, descriptor_bytes, resource_chunks }
    }

    /// The entry's identifier as a string, or empty when its bytes are not
    /// UTF-8.
    pub fn name(&self) -> (s: String)
        ensures
            vstd::utf8::valid_utf8(crate::asset::spec_asset_name(self@.name))
                ==> vstd::utf8::encode_utf8(s@) == crate::asset::spec_asset_name(self@.name),
    {
        self.metadata.name()
    }

    /// The entry's identifier bytes: its name field before the first NUL.
    pub fn name_bytes(&self) -> (r: Vec<u8>)
        ensures
            r@ == crate::asset::spec_asset_name(self@.name),
    {
        self.metadata.name_bytes()
    }

    pub fn metadata(&self) -> (r: &AssetMetadata)
        ensures
            r.name@ == self@.name,
            r.asset_type == self@.asset_type,
            r.unk_1 == self@.unk_1,
            r.unk_2 == self@.unk_2,
    {
        &self.metadata
    }

    pub fn metadata_mut(&mut self) -> (r: &mut AssetMetadata)
        ensures
            r.name@ == old(self)@.name,
            r.asset_type == old(self)@.asset_type,
            r.unk_1 == old(self)@.unk_1,
            r.unk_2 == old(self)@.unk_2,
            final(self)@ == (RawAssetView {
                name: final(r).name@,
                asset_type: final(r).asset_type,
                unk_1: final(r).unk_1,
                unk_2: final(r).unk_2,
                ..old(self)@
            }),
    {
        &mut self.metadata
    }

    pub fn descriptor_bytes(&self) -> (r: &Vec<u8>)
        ensures
            r@ == self@.descriptor,
    {
        &self.descriptor_bytes
    }

    pub fn descriptor_bytes_mut(&mut self) -> (r: &mut Vec<u8>)
        ensures
            r@ == old(self)@.descriptor,
            final(self)@ == (RawAssetView { descriptor: final(r)@, ..old(self)@ }),
    {
        &mut self.descriptor_bytes
    }

    pub fn resource_chunks(&self) -> (r: Option<&Vec<Vec<u8>>>)
        ensures
            self@.chunks is Some <==> r is Some,
            r matches Some(c) ==> self@.chunks == Some(c.deep_view()),
    {
        self.resource_chunks.as_ref()
    }

    pub fn resource_chunks_mut(&mut self) -> (r: &mut Option<Vec<Vec<u8>>>)
        ensures
            old(self)@.chunks == (match *r {
                Some(c) => Some(c.deep_view()),
                None => None::<Seq<Seq<u8>>>,
            }),
            final(self)@ == (RawAssetView {
                chunks: match *final(r) {
                    Some(c) => Some(c.deep_view()),
                    None => None::<Seq<Seq<u8>>>,
                },
                ..old(self)@
            }),
    {
        &mut self.resource_chunks
    }
}

/// The owned model of one whole archive: its header and its ordered entries.
#[derive(Debug)]
pub struct BNLFile {
    header: BNLHeader,
    assets: Vec<RawAsset>,
}

/// The mathematical content of one whole archive.
pub struct BNLFileView {
    pub header: BNLHeaderView,
    pub assets: Seq<RawAssetView>,
}

impl View for BNLFile {
    type V = BNLFileView;

    closed spec fn view(&self) -> BNLFileView {
        BNLFileView { header: self.header@, assets: self.assets.deep_view() }
    }
}

impl Default for BNLFile {
    fn default() -> (r: BNLFile)
        ensures
            r@.assets.len() == 0,
    {
        let r = BNLFile { header: BNLHeader::default(), assets: Vec::new() };
        proof {
            assert(r.assets.deep_view() =~= Seq::<RawAssetView>::empty());
        }
        r
    }
}

/// True when a section location lies inside a combined buffer of `len`
/// bytes.
pub open spec fn spec_loc_ok(loc: DataView, len: nat) -> bool {
    loc.offset + loc.size <= len
}

/// The bytes of the section a location names.
pub open spec fn spec_section(b: Seq<u8>, loc: DataView) -> Seq<u8>
    recommends
        spec_loc_ok(loc, b.len() as nat),
{
    b.subrange(loc.offset as int, loc.offset + loc.size)
}

/// What one record's chunk list resolves to: `Some(None)` for an entry with
/// no payload, `Some(Some(chunks))` for a resolvable chunk list, and `None`
/// when the list or one of its views lies out of bounds.
pub open spec fn spec_decode_chunks(
    views_sec: Seq<u8>,
    pool: Seq<u8>,
    d: AssetDescriptionView,
) -> Option<Option<Seq<Seq<u8>>>> {
    if d.resource_size == 0 {
        Some(None)
    } else if d.dataview_list_ptr > views_sec.len() {
        None
    } else {
        let vb = views_sec.skip(d.dataview_list_ptr as int);
        if vb.len() < 8 {
            None
        } else {
            let n = le32(vb.subrange(4, 8));
            if 8 + 8 * n > vb.len() {
                None
            } else {
                let vs = spec_parse_views(vb.skip(8), n);
                if spec_first_view_error(vs, pool.len() as nat) is Some {
                    None
                } else {
                    Some(Some(spec_view_slices(vs, pool)))
                }
            }
        }
    }
}

/// What one fixed-size record decodes to against the other three sections,
/// or `None` when anything it references lies out of bounds.
pub open spec fn spec_decode_record(
    rec: Seq<u8>,
    views_sec: Seq<u8>,
    pool: Seq<u8>,
    desc_sec: Seq<u8>,
) -> Option<RawAssetView> {
    let d = spec_parse_record(rec);
    if d.descriptor_ptr + d.descriptor_size > desc_sec.len() {
        None
    } else {
        match spec_decode_chunks(views_sec, pool, d) {
            None => None,
            Some(chunks) => Some(
                RawAssetView {
                    name: d.name,
                    asset_type: d.asset_type,
                    unk_1: d.unk_1,
                    unk_2: d.unk_2,
                    descriptor: desc_sec.subrange(
                        d.descriptor_ptr as int,
                        d.descriptor_ptr + d.descriptor_size,
                    ),
                    chunks,
                },
            ),
        }
    }
}

/// What the first `n` records decode to, or `None` as soon as one record
/// fails: decode aborts on the first malformed record.
pub open spec fn spec_decode_records(
    recs: Seq<u8>,
    views_sec: Seq<u8>,
    pool: Seq<u8>,
    desc_sec: Seq<u8>,
    n: nat,
) -> Option<Seq<RawAssetView>>
    decreases n,
{
    if n == 0 {
        Some(Seq::empty())
    } else {
        match spec_decode_records(recs, views_sec, pool, desc_sec, (n - 1) as nat) {
            None => None,
            Some(prev) => match spec_decode_record(
                recs.subrange(160 * (n - 1), 160 * n as int),
                views_sec,
                pool,
                desc_sec,
            ) {
                None => None,
                Some(a) => Some(prev.push(a)),
            },
        }
    }
}

/// What a combined buffer (raw header plus decompressed payload) decodes to,
/// or `None` when the header, a section, or any record is malformed.
pub open spec fn spec_decode_combined(combined: Seq<u8>) -> Option<BNLFileView> {
    if combined.len() < 40 {
        None
    } else {
        let h = spec_parse_header(combined.subrange(0, 40));
        if !(spec_loc_ok(h.asset_desc_loc, combined.len() as nat) && spec_loc_ok(
            h.buffer_views_loc,
            combined.len() as nat,
        ) && spec_loc_ok(h.buffer_loc, combined.len() as nat) && spec_loc_ok(
            h.descriptor_loc,
            combined.len() as nat,
        )) {
            None
        } else {
            let recs = spec_section(combined, h.asset_desc_loc);
            let views_sec = spec_section(combined, h.buffer_views_loc);
            let pool = spec_section(combined, h.buffer_loc);
            let desc_sec = spec_section(combined, h.descriptor_loc);
            let n = (h.asset_desc_loc.size / 160) as nat;
            match spec_decode_records(recs, views_sec, pool, desc_sec, n) {
                None => None,
                Some(assets) => Some(BNLFileView { header: h, assets }),
            }
        }
    }
}

/// What a whole archive file decodes to: its first 40 bytes are the raw
/// header, the rest is a zlib stream whose payload is appended to the header
/// to form the combined buffer that every recorded offset addresses.
pub open spec fn spec_decode_bnl(bytes: Seq<u8>) -> Option<BNLFileView> {
    if bytes.len() < 40 {
        None
    } else {
        match inflate_of(bytes.skip(40)) {
            None => None,
            Some(payload) => spec_decode_combined(bytes.subrange(0, 40) + payload),
        }
    }
}

/// Two buffers with the same first 40 bytes parse to the same header.
proof fn lemma_parse_header_same_prefix(a: Seq<u8>, b: Seq<u8>)
    requires
        a.len() >= 40,
        b.len() >= 40,
        a.subrange(0, 40) == b.subrange(0, 40),
    ensures
        spec_parse_header(a) == spec_parse_header(b),
{
    let p = a.subrange(0, 40);
    let q = b.subrange(0, 40);
    assert forall|lo: int, hi: int| 0 <= lo <= hi <= 40 implies a.subrange(lo, hi) == b.subrange(
        lo,
        hi,
    ) by {
        assert(a.subrange(lo, hi) =~= p.subrange(lo, hi));
        assert(b.subrange(lo, hi) =~= q.subrange(lo, hi));
    }
    assert(a[2] == p[2] && b[2] == q[2]);
}

/// Once one record fails to decode, every longer prefix fails too.
proof fn lemma_decode_records_fail(
    recs: Seq<u8>,
    views_sec: Seq<u8>,
    pool: Seq<u8>,
    desc_sec: Seq<u8>,
    k: nat,
    n: nat,
)
    requires
        k < n,
        spec_decode_records(recs, views_sec, pool, desc_sec, k) is None || spec_decode_record(
            recs.subrange(160 * k as int, 160 * (k + 1) as int),
            views_sec,
            pool,
            desc_sec,
        ) is None,
    ensures
        spec_decode_records(recs, views_sec, pool, desc_sec, n) is None,
    decreases n,
{
    if n > k + 1 {
        lemma_decode_records_fail(recs, views_sec, pool, desc_sec, k, (n - 1) as nat);
    }
}

/// Cuts the section a location names out of the combined buffer, or refuses
/// a location that runs outside it.
fn take_section(combined: &Vec<u8>, loc: DataView) -> (r: Option<Vec<u8>>)
    ensures
        spec_loc_ok(loc, combined@.len() as nat) ==> (r matches Some(v) && v@ == spec_section(
            combined@,
            loc,
        )),
        !spec_loc_ok(loc, combined@.len() as nat) ==> r is None,
{
    let end64: u64 = loc.offset as u64 + loc.size as u64;
    if end64 > combined.len() as u64 {
        return None;
    }
    let start: usize = loc.offset as usize;
    let end: usize = start + loc.size as usize;
    Some(vstd::slice::slice_to_vec(vstd::slice::slice_subrange(combined.as_slice(), start, end)))
}

impl BNLFile {
    /// Decodes a whole archive image held in memory.
    ///
    /// The image is its 40-byte header followed by a zlib stream; the
    /// decompressed payload, appended after the raw header bytes, forms the
    /// combined buffer against which the header's four section locations and
    /// every record's offsets are resolved.  Decoding succeeds exactly when
    /// the layout is consistent, and fails fast on the first malformed
    /// record; a failed decompression is distinguished from every other
    /// malformation.
    #[verifier::loop_isolation(false)]
    #[verifier::rlimit(100)]
    pub fn from_bytes(bnl_bytes: &[u8]) -> (r: Result<BNLFile, BNLError>)
        ensures
            r matches Ok(f) ==> spec_decode_bnl(bnl_bytes@) == Some(f@),
            r is Err ==> spec_decode_bnl(bnl_bytes@) is None,
            (bnl_bytes@.len() >= 40 && inflate_of(bnl_bytes@.skip(40)) is None) <==> r == Err::<
                BNLFile,
                BNLError,
            >(BNLError::DecompressionFailure),
    {
        let header = match BNLHeader::from_bytes(bnl_bytes) {
            Some(h) => h,
            None => {
                return Err(
                    BNLError::DataReadError("Archive is shorter than its header.".to_owned()),
                );
            },
        };
        let payload = match crate::compress::inflate_bytes(
            vstd::slice::slice_subrange(bnl_bytes, 40, bnl_bytes.len()),
        ) {
            Some(p) => p,
            None => {
                proof {
                    assert(bnl_bytes@.subrange(40, bnl_bytes@.len() as int) =~= bnl_bytes@.skip(
                        40,
                    ));
                }
                return Err(BNLError::DecompressionFailure);
            },
        };
        proof {
            assert(bnl_bytes@.subrange(40, bnl_bytes@.len() as int) =~= bnl_bytes@.skip(40));
        }
        let mut combined: Vec<u8> = vstd::slice::slice_to_vec(
            vstd::slice::slice_subrange(bnl_bytes, 0, 40),
        );
        combined.extend_from_slice(payload.as_slice());
        let ghost comb = bnl_bytes@.subrange(0, 40) + payload@;
        proof {
            assert(combined@ =~= comb);
            assert(comb.subrange(0, 40) =~= bnl_bytes@.subrange(0, 40));
            lemma_parse_header_same_prefix(bnl_bytes@, comb);
            assert(header@ == spec_parse_header(comb));
        }

        let recs = match take_section(&combined, header.asset_desc_loc) {
            Some(v) => v,
            None => {
                return Err(BNLError::DataReadError("Entry section lies out of range.".to_owned()));
            },
        };
        let views_sec = match take_section(&combined, header.buffer_views_loc) {
            Some(v) => v,
            None => {
                return Err(
                    BNLError::DataReadError("Chunk-list section lies out of range.".to_owned()),
                );
            },
        };
        let pool = match take_section(&combined, header.buffer_loc) {
            Some(v) => v,
            None => {
                return Err(
                    BNLError::DataReadError("Buffer section lies out of range.".to_owned()),
                );
            },
        };
        let desc_sec = match take_section(&combined, header.descriptor_loc) {
            Some(v) => v,
            None => {
                return Err(
                    BNLError::DataReadError("Descriptor section lies out of range.".to_owned()),
                );
            },
        };

        let num_descriptions: usize = (header.asset_desc_loc.size / 160) as usize;
        let ghost n_spec = (header@.asset_desc_loc.size / 160) as nat;

        proof {
            assert(160 * n_spec <= header@.asset_desc_loc.size) by (nonlinear_arith)
                requires
                    n_spec == header@.asset_desc_loc.size / 160,
            ;
        }
        let mut assets: Vec<RawAsset> = Vec::new();
        proof {
            assert(assets.deep_view() =~= Seq::<RawAssetView>::empty());
        }
        let mut i: usize = 0;
        while i < num_descriptions
            invariant
                0 <= i <= num_descriptions,
                num_descriptions == n_spec,
                160 * num_descriptions <= recs@.len(),
                recs@.len() <= usize::MAX,
                views_sec@.len() <= usize::MAX,
                pool@.len() <= usize::MAX,
                desc_sec@.len() <= usize::MAX,
                spec_decode_records(recs@, views_sec@, pool@, desc_sec@, i as nat) == Some(
                    assets.deep_view(),
                ),
            decreases num_descriptions - i,
        {
            let rec = vstd::slice::slice_subrange(recs.as_slice(), 160 * i, 160 * i + 160);
            let ghost rec_spec = recs@.subrange(160 * i as int, 160 * (i + 1));
            proof {
                assert(rec@ =~= rec_spec);
            }
            let d = match AssetDescription::from_bytes(rec) {
                Ok(d) => d,
                Err(_) => {
                    return Err(BNLError::DataReadError("Malformed entry record.".to_owned()));
                },
            };
            let dp64: u64 = d.descriptor_ptr as u64 + d.descriptor_size as u64;
            if dp64 > desc_sec.len() as u64 {
                proof {
                    lemma_decode_records_fail(
                        recs@,
                        views_sec@,
                        pool@,
                        desc_sec@,
                        i as nat,
                        n_spec,
                    );
                }
                return Err(
                    BNLError::DataReadError("Descriptor bytes lie out of range.".to_owned()),
                );
            }
            let desc_start: usize = d.descriptor_ptr as usize;
            let desc_end: usize = desc_start + d.descriptor_size as usize;
            let desc_bytes = vstd::slice::slice_to_vec(
                vstd::slice::slice_subrange(desc_sec.as_slice(), desc_start, desc_end),
            );

            let resource_chunks: Option<Vec<Vec<u8>>> = if d.resource_size == 0 {
                None
            } else {
                if d.dataview_list_ptr as u64 > views_sec.len() as u64 {
                    proof {
                        lemma_decode_records_fail(
                            recs@,
                            views_sec@,
                            pool@,
                            desc_sec@,
                            i as nat,
                            n_spec,
                        );
                    }
                    return Err(
                        BNLError::DataReadError("Chunk list lies out of range.".to_owned()),
                    );
                }
                let vb = vstd::slice::slice_subrange(
                    views_sec.as_slice(),
                    d.dataview_list_ptr as usize,
                    views_sec.len(),
                );
                proof {
                    assert(vb@ =~= views_sec@.skip(d.dataview_list_ptr as int));
                }
                let dvl = match DataViewList::from_bytes(vb) {
                    Ok(l) => l,
                    Err(_) => {
                        proof {
                            lemma_decode_records_fail(
                                recs@,
                                views_sec@,
                                pool@,
                                desc_sec@,
                                i as nat,
                                n_spec,
                            );
                        }
                        return Err(
                            BNLError::DataReadError("Malformed chunk list.".to_owned()),
                        );
                    },
                };
                match dvl.slices(pool.as_slice()) {
                    Ok(chunks) => Some(chunks),
                    Err(_) => {
                        proof {
                            lemma_decode_records_fail(
                                recs@,
                                views_sec@,
                                pool@,
                                desc_sec@,
                                i as nat,
                                n_spec,
                            );
                        }
                        return Err(
                            BNLError::DataReadError("Chunk lies outside the buffer.".to_owned()),
                        );
                    },
                }
            };

            let ghost prev = assets.deep_view();
            let asset = RawAsset { metadata: d.metadata, descriptor_bytes: desc_bytes, resource_chunks };
            proof {
                let decoded = spec_decode_record(rec_spec, views_sec@, pool@, desc_sec@);
                assert(decoded matches Some(v) && v == asset@);
            }
            assets.push(asset);
            proof {
                assert(assets.deep_view() =~~= prev.push(asset@));
            }
            i = i + 1;
        }

        let f = BNLFile { header, assets };
        proof {
            assert(comb.subrange(0, 40).subrange(0, 40) =~= comb.subrange(0, 40));
            lemma_parse_header_same_prefix(comb.subrange(0, 40), comb);
            assert(spec_parse_header(comb.subrange(0, 40)) == header@);
            assert(spec_decode_records(recs@, views_sec@, pool@, desc_sec@, n_spec) == Some(
                assets.deep_view(),
            ));
            assert(spec_decode_combined(comb) == Some(f@));
        }
        Ok(f)
    }
}

/// An entry's chunks, or no chunks at all for a descriptor-only entry.
pub open spec fn chunks_of(a: RawAssetView) -> Seq<Seq<u8>> {
    match a.chunks {
        Some(c) => c,
        None => Seq::empty(),
    }
}

/// The descriptor section contributed by entries `lo..hi`.
pub open spec fn enc_desc_range(assets: Seq<RawAssetView>, lo: int, hi: int) -> Seq<u8>
    decreases hi - lo,
{
    if lo >= hi {
        Seq::empty()
    } else {
        assets[lo].descriptor + enc_desc_range(assets, lo + 1, hi)
    }
}

/// The buffer pool contributed by entries `lo..hi`: every chunk of every
/// entry, in order.
pub open spec fn enc_pool_range(assets: Seq<RawAssetView>, lo: int, hi: int) -> Seq<u8>
    decreases hi - lo,
{
    if lo >= hi {
        Seq::empty()
    } else {
        concat_of(chunks_of(assets[lo])) + enc_pool_range(assets, lo + 1, hi)
    }
}

/// The views an entry's chunks get when appended to a pool that already
/// holds `base` bytes.
pub open spec fn spec_asset_views(cs: Seq<Seq<u8>>, base: nat) -> Seq<DataView> {
    Seq::new(
        cs.len(),
        |i: int|
            DataView {
                offset: (base + concat_prefix(cs, i).len()) as u32,
                size: cs[i].len() as u32,
            },
    )
}

/// The serialized chunk list one entry contributes, empty for an entry with
/// no payload.
pub open spec fn spec_asset_dvl_bytes(assets: Seq<RawAssetView>, i: int) -> Seq<u8> {
    match assets[i].chunks {
        None => Seq::empty(),
        Some(cs) => spec_dvl_bytes(
            (8 + 8 * cs.len()) as u32,
            cs.len() as u32,
            spec_asset_views(cs, enc_pool_range(assets, 0, i).len() as nat),
        ),
    }
}

/// The chunk-list section contributed by entries `lo..hi`.
pub open spec fn enc_views_range(assets: Seq<RawAssetView>, lo: int, hi: int) -> Seq<u8>
    decreases hi - lo,
{
    if lo >= hi {
        Seq::empty()
    } else {
        spec_asset_dvl_bytes(assets, lo) + enc_views_range(assets, lo + 1, hi)
    }
}

/// The fresh record entry `i` gets on encode: every offset is re-derived
/// from the sections as built so far, never taken from a stale record.
pub open spec fn spec_asset_record(assets: Seq<RawAssetView>, i: int) -> AssetDescriptionView {
    AssetDescriptionView {
        name: assets[i].name,
        asset_type: assets[i].asset_type,
        unk_1: assets[i].unk_1,
        unk_2: assets[i].unk_2,
        chunk_count: 2,
        descriptor_ptr: enc_desc_range(assets, 0, i).len() as u32,
        descriptor_size: assets[i].descriptor.len() as u32,
        dataview_list_ptr: if assets[i].chunks is Some {
            enc_views_range(assets, 0, i).len() as u32
        } else {
            0
        },
        resource_size: if assets[i].chunks is Some {
            (8 + 8 * chunks_of(assets[i]).len()) as u32
        } else {
            0
        },
    }
}

/// The record section contributed by entries `lo..hi`.
pub open spec fn enc_recs_range(assets: Seq<RawAssetView>, lo: int, hi: int) -> Seq<u8>
    decreases hi - lo,
{
    if lo >= hi {
        Seq::empty()
    } else {
        spec_record_bytes(spec_asset_record(assets, lo)) + enc_recs_range(assets, lo + 1, hi)
    }
}

/// The uncompressed payload an encode produces: the four sections
/// back-to-back, in their fixed order.
pub open spec fn spec_encoded_sections(assets: Seq<RawAssetView>) -> Seq<u8> {
    let n = assets.len() as int;
    enc_recs_range(assets, 0, n) + enc_views_range(assets, 0, n) + enc_pool_range(assets, 0, n)
        + enc_desc_range(assets, 0, n)
}

/// The fresh header an encode produces: section locations measured from the
/// start of the combined buffer, flags and reserved bytes carried over.
pub open spec fn spec_encode_header(h: BNLHeaderView, assets: Seq<RawAssetView>) -> BNLHeaderView {
    let n = assets.len() as int;
    let rl = enc_recs_range(assets, 0, n).len();
    let vl = enc_views_range(assets, 0, n).len();
    let pl = enc_pool_range(assets, 0, n).len();
    let dl = enc_desc_range(assets, 0, n).len();
    BNLHeaderView {
        file_count: assets.len() as u16,
        flags: h.flags,
        unknown_2: h.unknown_2,
        asset_desc_loc: DataView { offset: 40, size: rl as u32 },
        buffer_views_loc: DataView { offset: (40 + rl) as u32, size: vl as u32 },
        buffer_loc: DataView { offset: (40 + rl + vl) as u32, size: pl as u32 },
        descriptor_loc: DataView { offset: (40 + rl + vl + pl) as u32, size: dl as u32 },
    }
}

/// Every recorded offset and size fits its 32-bit field.
pub open spec fn spec_encode_fits(assets: Seq<RawAssetView>) -> bool {
    40 + spec_encoded_sections(assets).len() <= u32::MAX
}

/// Extending a range by one entry appends that entry's contribution.
pub proof fn lemma_enc_ranges_snoc(assets: Seq<RawAssetView>, lo: int, hi: int)
    requires
        0 <= lo <= hi,
    ensures
        enc_desc_range(assets, lo, hi + 1) =~= enc_desc_range(assets, lo, hi)
            + assets[hi].descriptor,
        enc_pool_range(assets, lo, hi + 1) =~= enc_pool_range(assets, lo, hi) + concat_of(
            chunks_of(assets[hi]),
        ),
        enc_views_range(assets, lo, hi + 1) =~= enc_views_range(assets, lo, hi)
            + spec_asset_dvl_bytes(assets, hi),
        enc_recs_range(assets, lo, hi + 1) =~= enc_recs_range(assets, lo, hi) + spec_record_bytes(
            spec_asset_record(assets, hi),
        ),
    decreases hi - lo,
{
    if lo >= hi {
        assert(enc_desc_range(assets, hi + 1, hi + 1) =~= Seq::<u8>::empty());
        assert(enc_pool_range(assets, hi + 1, hi + 1) =~= Seq::<u8>::empty());
        assert(enc_views_range(assets, hi + 1, hi + 1) =~= Seq::<u8>::empty());
        assert(enc_recs_range(assets, hi + 1, hi + 1) =~= Seq::<u8>::empty());
        assert(enc_desc_range(assets, lo, hi + 1) =~= assets[lo].descriptor);
        assert(enc_pool_range(assets, lo, hi + 1) =~= concat_of(chunks_of(assets[lo])));
        assert(enc_views_range(assets, lo, hi + 1) =~= spec_asset_dvl_bytes(assets, lo));
        assert(enc_recs_range(assets, lo, hi + 1) =~= spec_record_bytes(
            spec_asset_record(assets, lo),
        ));
    } else {
        lemma_enc_ranges_snoc(assets, lo + 1, hi);
        assert(enc_desc_range(assets, lo, hi + 1) =~= assets[lo].descriptor + enc_desc_range(
            assets,
            lo + 1,
            hi + 1,
        ));
        assert(enc_pool_range(assets, lo, hi + 1) =~= concat_of(chunks_of(assets[lo]))
            + enc_pool_range(assets, lo + 1, hi + 1));
        assert(enc_views_range(assets, lo, hi + 1) =~= spec_asset_dvl_bytes(assets, lo)
            + enc_views_range(assets, lo + 1, hi + 1));
        assert(enc_recs_range(assets, lo, hi + 1) =~= spec_record_bytes(
            spec_asset_record(assets, lo),
        ) + enc_recs_range(assets, lo + 1, hi + 1));
    }
}

/// A shorter range contributes a prefix: its length never exceeds the longer
/// range's.
pub proof fn lemma_enc_ranges_len_mono(assets: Seq<RawAssetView>, i: int, n: int)
    requires
        0 <= i <= n,
    ensures
        enc_desc_range(assets, 0, i).len() <= enc_desc_range(assets, 0, n).len(),
        enc_pool_range(assets, 0, i).len() <= enc_pool_range(assets, 0, n).len(),
        enc_views_range(assets, 0, i).len() <= enc_views_range(assets, 0, n).len(),
        enc_recs_range(assets, 0, i).len() <= enc_recs_range(assets, 0, n).len(),
    decreases n - i,
{
    if i < n {
        lemma_enc_ranges_snoc(assets, 0, i);
        lemma_enc_ranges_len_mono(assets, i + 1, n);
        lemma_enc_ranges_snoc(assets, 0, n - 1);
        if i + 1 < n {
        }
    }
}

impl BNLFile {
    /// Encodes the archive, rebuilding every section and every offset from
    /// the current entries: the produced image is internally consistent even
    /// if the entries were decoded from one with stale pointers.  The header
    /// is updated to the freshly computed section locations.
    #[verifier::loop_isolation(false)]
    #[verifier::rlimit(100)]
    pub fn to_bytes(&mut self) -> (r: Vec<u8>)
        requires
            spec_encode_fits(old(self)@.assets),
            old(self)@.assets.len() <= u16::MAX,
        ensures
            final(self)@.assets == old(self)@.assets,
            final(self)@.header == spec_encode_header(old(self)@.header, old(self)@.assets),
            r@ == spec_header_bytes(spec_encode_header(old(self)@.header, old(self)@.assets))
                + deflate_of(spec_encoded_sections(old(self)@.assets)),
            inflate_of(deflate_of(spec_encoded_sections(old(self)@.assets))) == Some(
                spec_encoded_sections(old(self)@.assets),
            ),
    {
        let ghost av = self.assets.deep_view();
        let ghost n_int = av.len() as int;
        let n = self.assets.len();

        let mut recs_sec: Vec<u8> = Vec::new();
        let mut views_sec: Vec<u8> = Vec::new();
        let mut pool_sec: Vec<u8> = Vec::new();
        let mut desc_sec: Vec<u8> = Vec::new();

        proof {
            assert(recs_sec@ =~= enc_recs_range(av, 0, 0));
            assert(views_sec@ =~= enc_views_range(av, 0, 0));
            assert(pool_sec@ =~= enc_pool_range(av, 0, 0));
            assert(desc_sec@ =~= enc_desc_range(av, 0, 0));
        }

        let mut i: usize = 0;
        while i < n
            invariant
                0 <= i <= n,
                recs_sec@ == enc_recs_range(av, 0, i as int),
                views_sec@ == enc_views_range(av, 0, i as int),
                pool_sec@ == enc_pool_range(av, 0, i as int),
                desc_sec@ == enc_desc_range(av, 0, i as int),
            decreases n - i,
        {
            proof {
                lemma_enc_ranges_len_mono(av, i as int, n_int);
            }
            let asset = &self.assets[i];
            let ghost a = av[i as int];
            proof {
                assert(a == asset@);
            }

            let mut record = AssetDescription {
                metadata: asset.metadata,
                chunk_count: 2,
                descriptor_ptr: 0,
                descriptor_size: 0,
                dataview_list_ptr: 0,
                resource_size: 0,
            };

            match &asset.resource_chunks {
                Some(chunks) => {
                    let ghost cs = chunks.deep_view();
                    proof {
                        assert(chunks_of(a) == cs);
                        assert(spec_asset_dvl_bytes(av, i as int).len() == 8 + 8 * cs.len()) by {
                            crate::views::lemma_views_bytes_len(
                                spec_asset_views(cs, enc_pool_range(av, 0, i as int).len() as nat),
                            );
                        }
                        lemma_enc_ranges_snoc(av, 0, i as int);
                        lemma_enc_ranges_len_mono(av, i as int + 1, n_int);
                    }
                    let num_chunks = chunks.len();
                    let mut dvl_views: Vec<DataView> = Vec::new();
                    let ghost pool_base = enc_pool_range(av, 0, i as int).len() as nat;
                    let mut k: usize = 0;
                    while k < num_chunks
                        invariant
                            0 <= k <= num_chunks,
                            num_chunks == cs.len(),
                            pool_sec@ == enc_pool_range(av, 0, i as int) + concat_prefix(
                                cs,
                                k as int,
                            ),
                            dvl_views@ =~= spec_asset_views(cs, pool_base).take(k as int),
                        decreases num_chunks - k,
                    {
                        proof {
                            crate::resource::lemma_concat_split(cs, k as int);
                            crate::resource::lemma_concat_split(cs, k as int + 1);
                            assert(concat_prefix(cs, k as int + 1) =~= concat_prefix(cs, k as int)
                                + cs[k as int]);
                            assert(enc_pool_range(av, 0, i as int + 1) =~= enc_pool_range(
                                av,
                                0,
                                i as int,
                            ) + concat_of(cs));
                            assert(concat_prefix(cs, k as int).len() + cs[k as int].len()
                                <= concat_of(cs).len());
                        }
                        let chunk = &chunks[k];
                        let offset = pool_sec.len();
                        pool_sec.extend_from_slice(chunk.as_slice());
                        dvl_views.push(
                            DataView { offset: offset as u32, size: chunk.len() as u32 },
                        );
                        proof {
                            assert(dvl_views@ =~= spec_asset_views(cs, pool_base).take(
                                k as int + 1,
                            ));
                        }
                        k = k + 1;
                    }
                    proof {
                        assert(concat_prefix(cs, cs.len() as int) =~= concat_of(cs)) by {
                            crate::resource::lemma_concat_split(cs, cs.len() as int);
                            assert(crate::resource::concat_suffix(cs, cs.len() as int)
                                =~= Seq::<u8>::empty());
                        }
                        assert(dvl_views@ =~= spec_asset_views(cs, pool_base));
                    }
                    let dvl = DataViewList {
                        size: (8 + 8 * num_chunks) as u32,
                        num_views: num_chunks as u32,
                        views: dvl_views,
                    };
                    let dvl_bytes = dvl.to_bytes();
                    record.dataview_list_ptr = views_sec.len() as u32;
                    record.resource_size = (8 + 8 * num_chunks) as u32;
                    views_sec.extend_from_slice(dvl_bytes.as_slice());
                    proof {
                        assert(views_sec@ =~= enc_views_range(av, 0, i as int + 1));
                    }
                },
                None => {
                    proof {
                        lemma_enc_ranges_snoc(av, 0, i as int);
                        assert(spec_asset_dvl_bytes(av, i as int) =~= Seq::<u8>::empty());
                        assert(views_sec@ =~= enc_views_range(av, 0, i as int + 1));
                        assert(pool_sec@ =~= enc_pool_range(av, 0, i as int + 1));
                    }
                },
            }

            record.descriptor_ptr = desc_sec.len() as u32;
            record.descriptor_size = asset.descriptor_bytes.len() as u32;
            desc_sec.extend_from_slice(asset.descriptor_bytes.as_slice());

            let rec_bytes = record.to_bytes();
            proof {
                lemma_enc_ranges_snoc(av, 0, i as int);
                assert(record@ == spec_asset_record(av, i as int));
                assert(desc_sec@ =~= enc_desc_range(av, 0, i as int + 1));
            }
            recs_sec.extend_from_slice(rec_bytes.as_slice());
            proof {
                assert(recs_sec@ =~= enc_recs_range(av, 0, i as int + 1));
            }
            i = i + 1;
        }

        let mut decompressed: Vec<u8> = Vec::new();
        decompressed.extend_from_slice(recs_sec.as_slice());
        decompressed.extend_from_slice(views_sec.as_slice());
        decompressed.extend_from_slice(pool_sec.as_slice());
        decompressed.extend_from_slice(desc_sec.as_slice());
        proof {
            assert(decompressed@ =~= spec_encoded_sections(av));
        }

        let new_header = BNLHeader {
            file_count: n as u16,
            flags: self.header.flags,
            unknown_2: self.header.unknown_2,
            asset_desc_loc: DataView { offset: 40, size: recs_sec.len() as u32 },
            buffer_views_loc: DataView {
                offset: (40 + recs_sec.len()) as u32,
                size: views_sec.len() as u32,
            },
            buffer_loc: DataView {
                offset: (40 + recs_sec.len() + views_sec.len()) as u32,
                size: pool_sec.len() as u32,
            },
            descriptor_loc: DataView {
                offset: (40 + recs_sec.len() + views_sec.len() + pool_sec.len()) as u32,
                size: desc_sec.len() as u32,
            },
        };
        proof {
            assert(new_header@ == spec_encode_header(old(self)@.header, av));
        }
        self.header = new_header;

        let compressed = crate::compress::deflate_bytes(decompressed.as_slice());

        let mut out = self.header.to_bytes();
        out.extend_from_slice(compressed.as_slice());
        proof {
            assert(out@ =~= spec_header_bytes(spec_encode_header(old(self)@.header, av))
                + deflate_of(spec_encoded_sections(av)));
        }
        out
    }
}

/// The first index at or after `k` whose entry carries the queried name, if
/// any.
pub open spec fn spec_find_from(assets: Seq<RawAssetView>, q: Seq<char>, k: int) -> Option<int>
    decreases assets.len() - k,
{
    if k < 0 || k >= assets.len() {
        None
    } else if crate::asset::name_matches(assets[k].name, q) {
        Some(k)
    } else {
        spec_find_from(assets, q, k + 1)
    }
}

/// The index of the first entry carrying the queried name, if any: lookup is
/// by name, in list order.
pub open spec fn spec_find_asset(assets: Seq<RawAssetView>, q: Seq<char>) -> Option<int> {
    spec_find_from(assets, q, 0)
}

pub proof fn lemma_find_asset(assets: Seq<RawAssetView>, q: Seq<char>, k: int)
    requires
        0 <= k,
    ensures
        spec_find_from(assets, q, k) matches Some(i) ==> k <= i < assets.len()
            && crate::asset::name_matches(assets[i].name, q),
        spec_find_from(assets, q, k) is None ==> forall|i: int|
            k <= i < assets.len() ==> !crate::asset::name_matches(assets[i].name, q),
    decreases assets.len() - k,
{
    if k < assets.len() && !crate::asset::name_matches(assets[k].name, q) {
        lemma_find_asset(assets, q, k + 1);
    }
}

/// The total byte length of a list of chunks, or nothing when it would not
/// fit the machine's address space.
fn chunk_total(chunks: &Vec<Vec<u8>>) -> (r: Option<usize>)
    ensures
        r matches Some(t) ==> t == concat_of(chunks.deep_view()).len(),
        r is None ==> concat_of(chunks.deep_view()).len() > usize::MAX,
{
    let ghost cs = chunks.deep_view();
    let mut acc: usize = 0;
    let mut i: usize = 0;
    while i < chunks.len()
        invariant
            0 <= i <= chunks.len(),
            cs == chunks.deep_view(),
            acc == concat_prefix(cs, i as int).len(),
        decreases chunks.len() - i,
    {
        proof {
            crate::resource::lemma_concat_split(cs, i as int);
            crate::resource::lemma_concat_split(cs, i as int + 1);
            assert(concat_prefix(cs, i as int + 1) =~= concat_prefix(cs, i as int)
                + cs[i as int]);
        }
        acc = match acc.checked_add(chunks[i].len()) {
            Some(a) => a,
            None => {
                return None;
            },
        };
        i = i + 1;
    }
    proof {
        crate::resource::lemma_concat_split(cs, cs.len() as int);
        assert(crate::resource::concat_suffix(cs, cs.len() as int) =~= Seq::<u8>::empty());
        assert(concat_of(cs) =~= concat_prefix(cs, cs.len() as int));
    }
    Some(acc)
}

/// Copies a byte vector.
pub(crate) fn copy_bytes(v: &Vec<u8>) -> (r: Vec<u8>)
    ensures
        r@ == v@,
{
    let mut out: Vec<u8> = Vec::new();
    out.extend_from_slice(v.as_slice());
    out
}

/// Copies a list of chunks.
pub(crate) fn copy_chunks(v: &Vec<Vec<u8>>) -> (r: Vec<Vec<u8>>)
    ensures
        r.deep_view() == v.deep_view(),
{
    let mut out: Vec<Vec<u8>> = Vec::new();
    let mut i: usize = 0;
    while i < v.len()
        invariant
            0 <= i <= v.len(),
            out.deep_view() =~= v.deep_view().take(i as int),
        decreases v.len() - i,
    {
        let ghost prev = out.deep_view();
        let c = copy_bytes(&v[i]);
        out.push(c);
        proof {
            assert(out.deep_view() =~~= prev.push(c@));
            assert(out.deep_view() =~~= v.deep_view().take(i as int + 1));
        }
        i = i + 1;
    }
    proof {
        assert(out.deep_view() =~~= v.deep_view());
    }
    out
}

/// Whether a typed value is one its codec builds from an entry's descriptor
/// bytes and resource chunks.
pub open spec fn spec_value_decodes<AL: AssetLike>(v: RawAssetView, x: AL) -> bool {
    exists|d: AL::Descriptor|
        #[trigger] d.parsed_from(v.descriptor) && x.built_from(d, chunks_of(v))
}

/// Whether an entry is a re-encoding of a typed value: its descriptor bytes
/// serialize a descriptor the value re-derives, and its chunks are the
/// value's own.
pub open spec fn spec_value_encodes<AL: AssetLike>(x: AL, v: RawAssetView) -> bool {
    &&& (exists|d: AL::Descriptor| x.describes(d) && #[trigger] d.serialized_to(v.descriptor))
    &&& v.chunks == x.spec_chunks()
}

/// Whether a typed asset, metadata included, is a decoding of an entry.
pub open spec fn spec_decodes_to<AL: AssetLike>(v: RawAssetView, a: Asset<AL>) -> bool {
    &&& a.metadata.name@ == v.name
    &&& a.metadata.asset_type == v.asset_type
    &&& a.metadata.unk_1 == v.unk_1
    &&& a.metadata.unk_2 == v.unk_2
    &&& spec_value_decodes(v, a.asset)
}

/// Whether an entry, metadata included, is a re-encoding of a typed asset.
pub open spec fn spec_encodes_to<AL: AssetLike>(a: Asset<AL>, v: RawAssetView) -> bool {
    &&& v.name == a.metadata.name@
    &&& v.asset_type == a.metadata.asset_type
    &&& v.unk_1 == a.metadata.unk_1
    &&& v.unk_2 == a.metadata.unk_2
    &&& spec_value_encodes(a.asset, v)
}

/// How many entries carry the given type tag.
pub open spec fn spec_count_tagged(assets: Seq<RawAssetView>, t: AssetType) -> int
    decreases assets.len(),
{
    if assets.len() == 0 {
        0
    } else {
        spec_count_tagged(assets.drop_last(), t) + if assets.last().asset_type == t {
            1int
        } else {
            0int
        }
    }
}

impl RawAsset {
    /// An owned copy of this entry.
    pub fn duplicate(&self) -> (r: RawAsset)
        ensures
            r@ == self@,
    {
        RawAsset {
            metadata: self.metadata,
            descriptor_bytes: copy_bytes(&self.descriptor_bytes),
            resource_chunks: match &self.resource_chunks {
                Some(c) => Some(copy_chunks(c)),
                None => None,
            },
        }
    }

    /// Interprets this entry as a typed asset.
    ///
    /// Fails with a type mismatch exactly when the entry's recorded tag
    /// names another codec; otherwise the typed codec decides, and its
    /// failures come back as parse errors.
    pub fn to_asset<AL: AssetLike>(self) -> (r: Result<Asset<AL>, AssetError>)
        ensures
            self@.asset_type != AL::spec_asset_type() <==> r == Err::<Asset<AL>, AssetError>(
                AssetError::TypeMismatch,
            ),
            r is Err ==> (r matches Err(e) && (e == AssetError::TypeMismatch || e matches
                AssetError::ParseError(_))),
            r matches Ok(a) ==> spec_decodes_to(self@, a),
    {
        let ghost sv = self@;
        if !(self.metadata.asset_type() == AL::asset_type()) {
            return Err(AssetError::TypeMismatch);
        }
        let descriptor = match AL::Descriptor::from_bytes(self.descriptor_bytes.as_slice()) {
            Ok(d) => d,
            Err(e) => {
                return Err(AssetError::ParseError(e));
            },
        };
        let chunks: Vec<Vec<u8>> = match self.resource_chunks {
            Some(c) => c,
            None => Vec::new(),
        };
        proof {
            assert(chunks.deep_view() =~~= chunks_of(sv));
        }
        if chunk_total(&chunks).is_none() {
            return Err(
                AssetError::ParseError(
                    AssetParseError::InvalidDataViews(
                        "Resource is too large to address.".to_owned(),
                    ),
                ),
            );
        }
        let vr = VirtualResource::from_slices(chunks);
        let asset = match AL::new(&descriptor, &vr) {
            Ok(a) => a,
            Err(e) => {
                return Err(AssetError::ParseError(e));
            },
        };
        proof {
            assert(descriptor.parsed_from(sv.descriptor) && asset.built_from(
                descriptor,
                chunks_of(sv),
            ));
            assert(spec_value_decodes(sv, asset));
        }
        Ok(Asset { metadata: self.metadata, asset })
    }
}

impl<AL: AssetLike> Asset<AL> {
    /// Repackages this typed asset as an owned entry under its metadata,
    /// re-deriving descriptor bytes and resource chunks from the typed
    /// value.
    pub fn to_raw_asset(&self) -> (r: Result<RawAsset, AssetError>)
        ensures
            r matches Ok(a) ==> spec_encodes_to(*self, a@),
            r matches Err(e) ==> e matches AssetError::ParseError(_),
    {
        let descriptor = self.asset.get_descriptor();
        let descriptor_bytes = match descriptor.to_bytes() {
            Ok(b) => b,
            Err(e) => {
                return Err(AssetError::ParseError(e));
            },
        };
        let ghost db = descriptor_bytes@;
        let ra = RawAsset::new(self.metadata, descriptor_bytes, self.asset.get_resource_chunks());
        proof {
            assert(self.asset.describes(descriptor) && descriptor.serialized_to(db));
            assert(spec_value_encodes(self.asset, ra@));
        }
        Ok(ra)
    }
}

impl BNLFile {
    /// The index of the first entry carrying the given name.
    fn find_asset_index(&self, name: &str) -> (r: Option<usize>)
        ensures
            spec_find_asset(self@.assets, name@) matches Some(k) ==> r is Some && r->Some_0 == k
                && 0 <= k < self@.assets.len(),
            spec_find_asset(self@.assets, name@) is None ==> r is None,
    {
        let ghost av = self@.assets;
        let mut i: usize = 0;
        while i < self.assets.len()
            invariant
                0 <= i <= av.len(),
                av == self@.assets,
                spec_find_asset(av, name@) == spec_find_from(av, name@, i as int),
            decreases av.len() - i,
        {
            if self.assets[i].metadata.name_is(name) {
                proof {
                    assert(av[i as int] == self.assets@[i as int]@);
                }
                return Some(i);
            }
            i = i + 1;
        }
        None
    }

    /// Retrieves an entry by name: the first entry carrying the name, or
    /// nothing when no entry does.
    pub fn get_raw_asset(&self, name: &str) -> (r: Option<&RawAsset>)
        ensures
            spec_find_asset(self@.assets, name@) matches Some(k) ==> r is Some && (r->Some_0)@
                == self@.assets[k],
            spec_find_asset(self@.assets, name@) is None ==> r is None,
    {
        match self.find_asset_index(name) {
            Some(i) => {
                proof {
                    lemma_find_asset(self@.assets, name@, 0);
                    assert(self@.assets[i as int] == self.assets@[i as int]@);
                }
                let total = self.assets.len();
                let a_ref = &self.assets[i];
                proof {
                    assert(self@.assets.len() == total);
                    assert(a_ref@ == self@.assets[i as int]);
                }
                Some(a_ref)
            },
            None => None,
        }
    }

    /// All entries, in archive order.
    pub fn get_raw_assets(&self) -> (r: &Vec<RawAsset>)
        ensures
            r.deep_view() == self@.assets,
    {
        &self.assets
    }

    /// Appends an entry at the end of the archive.
    pub fn append_raw_asset(&mut self, new_raw_asset: RawAsset)
        ensures
            final(self)@.assets == old(self)@.assets.push(new_raw_asset@),
            final(self)@.header == old(self)@.header,
    {
        let ghost prev = self.assets.deep_view();
        let ghost av = new_raw_asset@;
        self.assets.push(new_raw_asset);
        proof {
            assert(self.assets.deep_view() =~~= prev.push(av));
        }
    }

    /// Appends a typed asset under the given metadata, re-deriving its entry
    /// bytes from the typed value.
    pub fn append_asset<AL: AssetLike>(&mut self, metadata: AssetMetadata, new_asset: AL) -> (r:
        Result<(), AssetError>)
        ensures
            r is Ok ==> final(self)@.assets.len() == old(self)@.assets.len() + 1 && (forall|j: int|
                0 <= j < old(self)@.assets.len() ==> final(self)@.assets[j]
                    == old(self)@.assets[j]) && final(self)@.assets.last().name == metadata.name@
                && final(self)@.assets.last().asset_type == metadata.asset_type
                && final(self)@.assets.last().unk_1 == metadata.unk_1
                && final(self)@.assets.last().unk_2 == metadata.unk_2
                && spec_value_encodes(new_asset, final(self)@.assets.last()),
            r is Err ==> final(self)@ == old(self)@,
            final(self)@.header == old(self)@.header,
    {
        let descriptor = new_asset.get_descriptor();
        let descriptor_bytes = match descriptor.to_bytes() {
            Ok(b) => b,
            Err(e) => {
                return Err(AssetError::ParseError(e));
            },
        };
        let ghost db = descriptor_bytes@;
        let ra = RawAsset::new(metadata, descriptor_bytes, new_asset.get_resource_chunks());
        proof {
            assert(new_asset.describes(descriptor) && descriptor.serialized_to(db));
            assert(spec_value_encodes(new_asset, ra@));
        }
        self.append_raw_asset(ra);
        Ok(())
    }

    /// Removes the first entry carrying the given name and hands it back;
    /// fails, changing nothing, when no entry carries it.
    pub fn remove_asset(&mut self, name: &str) -> (r: Result<RawAsset, AssetError>)
        ensures
            spec_find_asset(old(self)@.assets, name@) matches Some(k) ==> (r matches Ok(a) && a@
                == old(self)@.assets[k] && final(self)@.assets == old(self)@.assets.remove(k)),
            spec_find_asset(old(self)@.assets, name@) is None ==> r == Err::<RawAsset, AssetError>(
                AssetError::NotFound,
            ) && final(self)@ == old(self)@,
            final(self)@.header == old(self)@.header,
    {
        match self.find_asset_index(name) {
            Some(i) => {
                proof {
                    lemma_find_asset(old(self)@.assets, name@, 0);
                }
                let total = self.assets.len();
                proof {
                    assert(old(self)@.assets.len() == total);
                }
                let ghost prev = self.assets.deep_view();
                let ghost prev_raw = self.assets@;
                let a = self.assets.remove(i);
                proof {
                    assert(a@ == prev[i as int]);
                    assert forall|j: int| 0 <= j < self.assets.deep_view().len() implies
                        self.assets.deep_view()[j] == prev.remove(i as int)[j] by {
                        if j < i as int {
                            assert(self.assets@[j] == prev_raw[j]);
                        } else {
                            assert(self.assets@[j] == prev_raw[j + 1]);
                        }
                    }
                    assert(self.assets.deep_view() =~= prev.remove(i as int));
                }
                Ok(a)
            },
            None => Err(AssetError::NotFound),
        }
    }

    /// Retrieves an asset by name and interprets it as the requested type.
    ///
    /// Fails with not-found when no entry carries the name; with a type
    /// mismatch, not a parse error, when the entry exists but its recorded
    /// tag names another codec; and with a parse error when the codec
    /// refuses the entry's bytes.
    pub fn get_asset<AL: AssetLike>(&self, name: &str) -> (r: Result<Asset<AL>, AssetError>)
        ensures
            spec_find_asset(self@.assets, name@) is None <==> r == Err::<Asset<AL>, AssetError>(
                AssetError::NotFound,
            ),
            spec_find_asset(self@.assets, name@) matches Some(k) ==> (self@.assets[k].asset_type
                != AL::spec_asset_type() <==> r == Err::<Asset<AL>, AssetError>(
                AssetError::TypeMismatch,
            )),
            r matches Ok(a) ==> (spec_find_asset(self@.assets, name@) matches Some(k)
                && spec_decodes_to(self@.assets[k], a)),
    {
        let raw = match self.get_raw_asset(name) {
            Some(a) => a,
            None => {
                return Err(AssetError::NotFound);
            },
        };
        proof {
            lemma_find_asset(self@.assets, name@, 0);
        }
        let r = raw.duplicate().to_asset::<AL>();
        proof {
            assert(r is Err && !(r == Err::<Asset<AL>, AssetError>(AssetError::NotFound))
                || r is Ok);
        }
        r
    }

    /// Interprets every entry of the requested type, skipping entries the
    /// codec refuses: this scan alone is deliberately best-effort.
    ///
    /// Every returned value decodes some matching-tag entry, and the values
    /// come in archive order: there is a strictly increasing map from result
    /// positions to entry indices.
    pub fn get_assets<AL: AssetLike>(&self) -> (r: Vec<AL>)
        ensures
            r@.len() <= spec_count_tagged(self@.assets, AL::spec_asset_type()),
            exists|idx: Seq<int>|
                (#[trigger] idx.len()) == r@.len() && (forall|k: int|
                    0 <= k < idx.len() ==> 0 <= #[trigger] idx[k] < self@.assets.len()) && (forall|
                    k: int,
                |
                    0 <= k && k + 1 < idx.len() ==> #[trigger] idx[k] < idx[k + 1]) && (forall|
                    k: int,
                |
                    0 <= k < idx.len() ==> self@.assets[#[trigger] idx[k]].asset_type
                        == AL::spec_asset_type() && spec_value_decodes(
                        self@.assets[idx[k]],
                        r@[k],
                    )),
    {
        let mut out: Vec<AL> = Vec::new();
        let ghost mut idx: Seq<int> = Seq::empty();
        let mut i: usize = 0;
        while i < self.assets.len()
            invariant
                0 <= i <= self@.assets.len(),
                idx.len() == out@.len(),
                out@.len() <= spec_count_tagged(
                    self@.assets.take(i as int),
                    AL::spec_asset_type(),
                ),
                forall|k: int| 0 <= k < idx.len() ==> 0 <= #[trigger] idx[k] < i,
                forall|k: int| 0 <= k && k + 1 < idx.len() ==> #[trigger] idx[k] < idx[k + 1],
                forall|k: int|
                    0 <= k < idx.len() ==> self@.assets[#[trigger] idx[k]].asset_type
                        == AL::spec_asset_type() && spec_value_decodes(
                        self@.assets[idx[k]],
                        out@[k],
                    ),
            decreases self@.assets.len() - i,
        {
            proof {
                assert(self@.assets.take(i + 1).drop_last() =~= self@.assets.take(i as int));
                assert(self@.assets.take(i + 1).last() == self@.assets[i as int]);
            }
            let raw = self.assets[i].duplicate();
            proof {
                assert(raw@ == self@.assets[i as int]);
            }
            match raw.to_asset::<AL>() {
                Ok(a) => {
                    out.push(a.asset);
                    proof {
                        idx = idx.push(i as int);
                    }
                },
                Err(_) => {},
            }
            i = i + 1;
        }
        proof {
            assert(self@.assets.take(self@.assets.len() as int) =~= self@.assets);
        }
        out
    }

    /// Decodes the named entry as the requested type, applies the caller's
    /// change, and stores the re-encoded result in place of the entry.
    /// Fails without changing anything when the name is absent, the type
    /// tag mismatches, or decoding, the change, or re-encoding fails.
    pub fn modify_asset<AL: AssetLike, F: FnOnce(Asset<AL>) -> Result<Asset<AL>, AssetError>>(
        &mut self,
        name: &str,
        f: F,
    ) -> (r: Result<(), AssetError>)
        requires
            forall|a: Asset<AL>| #[trigger] call_requires(f, (a,)),
        ensures
            spec_find_asset(old(self)@.assets, name@) is None ==> r == Err::<(), AssetError>(
                AssetError::NotFound,
            ),
            (spec_find_asset(old(self)@.assets, name@) matches Some(k)
                && old(self)@.assets[k].asset_type != AL::spec_asset_type()) ==> r == Err::<
                (),
                AssetError,
            >(AssetError::TypeMismatch),
            r is Err ==> final(self)@ == old(self)@,
            r is Ok ==> (spec_find_asset(old(self)@.assets, name@) matches Some(k)
                && final(self)@.assets.len() == old(self)@.assets.len() && (forall|j: int|
                0 <= j < old(self)@.assets.len() && j != k ==> final(self)@.assets[j]
                    == old(self)@.assets[j]) && (exists|a0: Asset<AL>, a1: Asset<AL>|
                #[trigger] call_ensures(f, (a0,), Ok::<Asset<AL>, AssetError>(a1))
                    && spec_decodes_to(old(self)@.assets[k], a0) && spec_encodes_to(
                    a1,
                    final(self)@.assets[k],
                ))),
            final(self)@.header == old(self)@.header,
    {
        let i = match self.find_asset_index(name) {
            Some(i) => i,
            None => {
                return Err(AssetError::NotFound);
            },
        };
        proof {
            lemma_find_asset(old(self)@.assets, name@, 0);
        }
        proof {
            assert(old(self)@.assets[i as int] == self.assets@[i as int]@);
        }
        let asset = match self.assets[i].duplicate().to_asset::<AL>() {
            Ok(a) => a,
            Err(e) => {
                return Err(e);
            },
        };
        let ghost a0 = asset;
        let changed = match f(asset) {
            Ok(a) => a,
            Err(e) => {
                return Err(e);
            },
        };
        let ghost a1 = changed;
        let new_raw = match changed.to_raw_asset() {
            Ok(a) => a,
            Err(e) => {
                return Err(e);
            },
        };
        let ghost prev = self.assets.deep_view();
        let ghost nv = new_raw@;
        crate::bnl::vec_set_asset(&mut self.assets, i, new_raw);
        proof {
            assert(self.assets.deep_view() =~~= prev.update(i as int, nv));
            assert(call_ensures(f, (a0,), Ok::<Asset<AL>, AssetError>(a1))
                && spec_decodes_to(old(self)@.assets[i as int], a0) && spec_encodes_to(
                a1,
                final(self)@.assets[i as int],
            ));
        }
        Ok(())
    }
}

/// Replaces the vector element at `i`.
fn vec_set_asset(v: &mut Vec<RawAsset>, i: usize, a: RawAsset)
    requires
        i < old(v)@.len(),
    ensures
        final(v)@ == old(v)@.update(i as int, a),
{
    let r = crate::bnl::vec_mut_asset(v, i);
    *r = a;
}

/// A mutable reference to the vector element at `i`.
fn vec_mut_asset(v: &mut Vec<RawAsset>, i: usize) -> (element: &mut RawAsset)
    requires
        i < old(v)@.len(),
    ensures
        *element == old(v)@[i as int],
        final(v)@ == old(v)@.update(i as int, *final(element)),
{
    &mut v[i]
}

/// Replaces the vector element at `i`.
pub(crate) fn vec_set_pair_u16(v: &mut Vec<(u16, String)>, i: usize, p: (u16, String))
    requires
        i < old(v)@.len(),
    ensures
        final(v)@ == old(v)@.update(i as int, p),
{
    let r = &mut v[i];
    *r = p;
}

} // verus!
