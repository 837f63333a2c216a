//! Data views: (offset, size) pairs addressing contiguous ranges of the
//! archive's shared buffer pool, and the small serialized list of views that
//! carries one asset's chunk layout.

use vstd::prelude::*;

use crate::asset::AssetParseError;
use crate::bytes::{le32, read_u32_le, u32_le_bytes};
use crate::resource::VirtualResourceError;

verus! {

/// One contiguous byte range inside a shared buffer pool.
#[derive(Debug, Clone, Copy, PartialEq, Eq, Structural)]
pub struct DataView {
    pub offset: u32,
    pub size: u32,
}

impl Default for DataView {
    fn default() -> (r: DataView)
        ensures
            r.offset == 0 && r.size == 0,
    {
        DataView { offset: 0, size: 0 }
    }
}

/// The eight bytes one data view serializes to.
pub open spec fn spec_view_bytes(v: DataView) -> Seq<u8> {
    u32_le_bytes(v.offset) + u32_le_bytes(v.size)
}

impl DataView {
    /// Reads the eight-byte view record at `pos`; fails exactly on a short
    /// buffer.
    pub fn read_at(b: &[u8], pos: usize) -> (r: Option<DataView>)
        ensures
            pos + 8 <= b@.len() ==> r == Some(
                DataView {
                    offset: le32(b@.subrange(pos as int, pos + 4)) as u32,
                    size: le32(b@.subrange(pos + 4, pos + 8)) as u32,
                },
            ),
            pos + 8 > b@.len() ==> r is None,
    {
        if b.len() < 8 || pos > b.len() - 8 {
            return None;
        }
        let offset = read_u32_le(b, pos);
        let size = read_u32_le(b, pos + 4);
        Some(DataView { offset, size })
    }

    /// The half-open index range this view addresses.
    pub fn as_range(&self) -> (r: core::ops::Range<u64>)
        ensures
            r.start == self.offset,
            r.end == self.offset + self.size,
    {
        let start: u64 = self.offset as u64;
        let end: u64 = self.offset as u64 + self.size as u64;
        start..end
    }

    /// The half-open interval test: true when each view's start lies before
    /// the other's end (so a zero-size view strictly inside another counts
    /// as overlapping).
    pub fn overlaps(&self, other: &DataView) -> (r: bool)
        ensures
            r == (self.offset < other.offset + other.size && other.offset < self.offset
                + self.size),
    {
        let r1 = self.as_range();
        let r2 = other.as_range();
        r1.start < r2.end && r2.start < r1.end
    }
}

/// The serialized concatenation of a sequence of view records.
pub open spec fn spec_views_bytes(vs: Seq<DataView>) -> Seq<u8>
    decreases vs.len(),
{
    if vs.len() == 0 {
        Seq::empty()
    } else {
        spec_view_bytes(vs[0]) + spec_views_bytes(vs.drop_first())
    }
}

pub proof fn lemma_views_bytes_len(vs: Seq<DataView>)
    ensures
        spec_views_bytes(vs).len() == 8 * vs.len(),
    decreases vs.len(),
{
    if vs.len() > 0 {
        lemma_views_bytes_len(vs.drop_first());
    }
}

/// The `n` view records at the front of a byte sequence.
pub open spec fn spec_parse_views(b: Seq<u8>, n: nat) -> Seq<DataView>
    recommends
        8 * n <= b.len(),
    decreases n,
{
    if n == 0 {
        Seq::empty()
    } else {
        seq![
            DataView {
                offset: le32(b.subrange(0, 4)) as u32,
                size: le32(b.subrange(4, 8)) as u32,
            },
        ] + spec_parse_views(b.skip(8), (n - 1) as nat)
    }
}

/// Serialized view records parse back to the same views, whatever follows
/// them.
pub proof fn lemma_views_round_trip(vs: Seq<DataView>, rest: Seq<u8>)
    ensures
        spec_parse_views(spec_views_bytes(vs) + rest, vs.len()) =~= vs,
    decreases vs.len(),
{
    lemma_views_bytes_len(vs);
    if vs.len() > 0 {
        let b = spec_views_bytes(vs) + rest;
        let v0 = vs[0];
        crate::bytes::lemma_le32_round_trip(v0.offset);
        crate::bytes::lemma_le32_round_trip(v0.size);
        assert(b.subrange(0, 4) =~= u32_le_bytes(v0.offset));
        assert(b.subrange(4, 8) =~= u32_le_bytes(v0.size));
        lemma_views_round_trip(vs.drop_first(), rest);
        assert(b.skip(8) =~= spec_views_bytes(vs.drop_first()) + rest);
    }
}

/// An ordered list of data views belonging to one asset's resource, with its
/// own small binary header: a declared total byte size and a view count.
#[derive(Debug, Clone)]
pub struct DataViewList {
    pub size: u32,
    pub num_views: u32,
    pub views: Vec<DataView>,
}

/// The bytes a view list serializes to: its size field, its count, then its
/// views in order.
pub open spec fn spec_dvl_bytes(size: u32, num_views: u32, vs: Seq<DataView>) -> Seq<u8> {
    u32_le_bytes(size) + u32_le_bytes(num_views) + spec_views_bytes(vs)
}

/// The first bounds failure among a sequence of views against a pool of
/// `pool_len` bytes, if any: an offset beyond the pool and a size running
/// past its end are distinguished.
pub open spec fn spec_first_view_error(vs: Seq<DataView>, pool_len: nat) -> Option<
    VirtualResourceError,
>
    decreases vs.len(),
{
    if vs.len() == 0 {
        None
    } else if vs[0].offset > pool_len {
        Some(VirtualResourceError::OffsetOutOfBounds)
    } else if pool_len - vs[0].offset < vs[0].size {
        Some(VirtualResourceError::SizeOutOfBounds)
    } else {
        spec_first_view_error(vs.drop_first(), pool_len)
    }
}

/// The byte ranges a sequence of in-bounds views cuts from a pool.
pub open spec fn spec_view_slices(vs: Seq<DataView>, pool: Seq<u8>) -> Seq<Seq<u8>> {
    Seq::new(vs.len(), |i: int| pool.subrange(vs[i].offset as int, vs[i].offset + vs[i].size))
}

impl DataViewList {
    /// Parses a view list from the front of `buf`: a four-byte total size, a
    /// four-byte count, then that many views.  Fails exactly when the buffer
    /// is shorter than the declared layout requires.
    pub fn from_bytes(buf: &[u8]) -> (r: Result<DataViewList, AssetParseError>)
        ensures
            ({
                let n = le32(buf@.subrange(4, 8));
                buf@.len() >= 8 && 8 + 8 * n <= buf@.len()
            }) ==> (r matches Ok(l) && l.size == le32(buf@.subrange(0, 4)) && l.num_views == le32(
                buf@.subrange(4, 8),
            ) && l.num_views == l.views@.len() && l.views@ == spec_parse_views(
                buf@.skip(8),
                le32(buf@.subrange(4, 8)),
            )),
            !({
                let n = le32(buf@.subrange(4, 8));
                buf@.len() >= 8 && 8 + 8 * n <= buf@.len()
            }) ==> r == Err::<DataViewList, AssetParseError>(AssetParseError::InputTooSmall),
    {
        if buf.len() < 8 {
            return Err(AssetParseError::InputTooSmall);
        }
        let size = read_u32_le(buf, 0);
        let num_views = read_u32_le(buf, 4);
        if (buf.len() - 8) / 8 < num_views as usize {
            return Err(AssetParseError::InputTooSmall);
        }
        let ghost tail = buf@.skip(8);
        let mut views: Vec<DataView> = Vec::new();
        let mut i: usize = 0;
        while i < num_views as usize
            invariant
                buf@.len() >= 8,
                buf@.len() <= usize::MAX,
                8 + 8 * (num_views as int) <= buf@.len(),
                tail == buf@.skip(8),
                0 <= i <= num_views as usize,
                views@.len() == i,
                views@ =~= spec_parse_views(tail, i as nat),
            decreases num_views as usize - i,
        {
            let offset = read_u32_le(buf, 8 + 8 * i);
            let sz = read_u32_le(buf, 8 + 8 * i + 4);
            proof {
                lemma_parse_views_index(tail, (i + 1) as nat, i as int);
                assert(tail.skip(8 * i as int).subrange(0, 4) =~= buf@.subrange(
                    8 + 8 * i as int,
                    8 + 8 * i + 4,
                ));
                assert(tail.skip(8 * i as int).subrange(4, 8) =~= buf@.subrange(
                    8 + 8 * i + 4,
                    8 + 8 * i + 8,
                ));
            }
            views.push(DataView { offset, size: sz });
            proof {
                lemma_parse_views_extend(tail, i as nat);
            }
            i = i + 1;
        }
        Ok(DataViewList { size, num_views, views })
    }

    /// The serialized byte size of this list: eight header bytes plus eight
    /// per view.
    pub fn bytes_required(&self) -> (r: usize)
        requires
            8 + 8 * self.views@.len() <= usize::MAX,
        ensures
            r == 8 + 8 * self.views@.len(),
    {
        8 + 8 * self.views.len()
    }

    /// Serializes this list deterministically, in view order.
    pub fn to_bytes(&self) -> (r: Vec<u8>)
        ensures
            r@ == spec_dvl_bytes(self.size, self.num_views, self.views@),
            r@.len() == 8 + 8 * self.views@.len(),
    {
        let mut out: Vec<u8> = Vec::new();
        crate::bytes::push_u32_le(&mut out, self.size);
        crate::bytes::push_u32_le(&mut out, self.num_views);
        let mut i: usize = 0;
        while i < self.views.len()
            invariant
                0 <= i <= self.views@.len(),
                out@ =~= u32_le_bytes(self.size) + u32_le_bytes(self.num_views) + spec_views_bytes(
                    self.views@.take(i as int),
                ),
            decreases self.views@.len() - i,
        {
            let v = self.views[i];
            crate::bytes::push_u32_le(&mut out, v.offset);
            crate::bytes::push_u32_le(&mut out, v.size);
            proof {
                lemma_views_bytes_snoc(self.views@.take(i as int), v);
                assert(self.views@.take(i + 1) =~= self.views@.take(i as int).push(v));
            }
            i = i + 1;
        }
        proof {
            assert(self.views@.take(self.views@.len() as int) =~= self.views@);
            lemma_views_bytes_len(self.views@);
        }
        out
    }

    /// Cuts each view's range out of the buffer pool, bounds-checking every
    /// view; fails with the first view's failure kind, distinguishing an
    /// offset beyond the pool from a size that would run past its end.
    pub fn slices(&self, pool: &[u8]) -> (r: Result<Vec<Vec<u8>>, VirtualResourceError>)
        ensures
            spec_first_view_error(self.views@, pool@.len() as nat) matches Some(e) ==> r == Err::<
                Vec<Vec<u8>>,
                VirtualResourceError,
            >(e),
            spec_first_view_error(self.views@, pool@.len() as nat) is None ==> (r matches Ok(v)
                && v.deep_view() == spec_view_slices(self.views@, pool@)),
    {
        let mut out: Vec<Vec<u8>> = Vec::new();
        let mut i: usize = 0;
        proof {
            assert(self.views@.skip(0) =~= self.views@);
        }
        while i < self.views.len()
            invariant
                0 <= i <= self.views@.len(),
                spec_first_view_error(self.views@.skip(i as int), pool@.len() as nat)
                    == spec_first_view_error(self.views@, pool@.len() as nat),
                out.deep_view() =~= spec_view_slices(self.views@.take(i as int), pool@),
            decreases self.views@.len() - i,
        {
            let v = self.views[i];
            let offset = v.offset as usize;
            let size = v.size as usize;
            proof {
                assert(self.views@.skip(i as int)[0] == v);
            }
            if offset > pool.len() {
                return Err(VirtualResourceError::OffsetOutOfBounds);
            } else if pool.len() - offset < size {
                return Err(VirtualResourceError::SizeOutOfBounds);
            }
            let chunk = vstd::slice::slice_to_vec(vstd::slice::slice_subrange(
                pool,
                offset,
                offset + size,
            ));
            let ghost prev = out.deep_view();
            out.push(chunk);
            proof {
                assert(self.views@.skip(i as int).drop_first() =~= self.views@.skip(i + 1));
                assert(out.deep_view() =~~= prev.push(chunk@));
                assert(out.deep_view() =~= spec_view_slices(self.views@.take(i + 1), pool@));
            }
            i = i + 1;
        }
        proof {
            assert(self.views@.take(self.views@.len() as int) =~= self.views@);
            assert(self.views@.skip(self.views@.len() as int) =~= Seq::<DataView>::empty());
        }
        Ok(out)
    }

    /// The views of this list, in order.
    pub fn views(&self) -> (r: &Vec<DataView>)
        ensures
            r@ == self.views@,
    {
        &self.views
    }
}

/// Parsing one more view appends the view at the front of the remaining
/// bytes.
pub proof fn lemma_parse_views_extend(b: Seq<u8>, n: nat)
    requires
        8 * (n + 1) <= b.len(),
    ensures
        spec_parse_views(b, (n + 1) as nat) =~= spec_parse_views(b, n).push(
            DataView {
                offset: le32(b.skip(8 * n as int).subrange(0, 4)) as u32,
                size: le32(b.skip(8 * n as int).subrange(4, 8)) as u32,
            },
        ),
    decreases n,
{
    let v_n = DataView {
        offset: le32(b.skip(8 * n as int).subrange(0, 4)) as u32,
        size: le32(b.skip(8 * n as int).subrange(4, 8)) as u32,
    };
    if n == 0 {
        assert(b.skip(0) =~= b);
        assert(b.skip(0).subrange(0, 4) == b.subrange(0, 4));
        assert(b.skip(0).subrange(4, 8) == b.subrange(4, 8));
        assert(spec_parse_views(b, 1) =~= seq![v_n] + spec_parse_views(b.skip(8), 0));
        assert(spec_parse_views(b, 1) =~= seq![v_n]);
        assert(spec_parse_views(b, 0).push(v_n) =~= seq![v_n]);
    } else {
        lemma_parse_views_extend(b.skip(8), (n - 1) as nat);
        assert(b.skip(8).skip(8 * (n - 1)) =~= b.skip(8 * n as int));
        assert(b.skip(8).skip(8 * (n - 1)).subrange(0, 4) == b.skip(8 * n as int).subrange(0, 4));
        assert(b.skip(8).skip(8 * (n - 1)).subrange(4, 8) == b.skip(8 * n as int).subrange(4, 8));
        assert(spec_parse_views(b.skip(8), n) =~= spec_parse_views(b.skip(8), (n - 1) as nat).push(
            v_n,
        ));
        let head = DataView {
            offset: le32(b.subrange(0, 4)) as u32,
            size: le32(b.subrange(4, 8)) as u32,
        };
        assert(spec_parse_views(b, (n + 1) as nat) =~= seq![head] + spec_parse_views(b.skip(8), n));
        assert(spec_parse_views(b, n) =~= seq![head] + spec_parse_views(b.skip(8), (n - 1) as nat));
        assert(seq![head] + spec_parse_views(b.skip(8), (n - 1) as nat).push(v_n) =~= (seq![head]
            + spec_parse_views(b.skip(8), (n - 1) as nat)).push(v_n));
    }
    assert(spec_parse_views(b, (n + 1) as nat) =~= spec_parse_views(b, n).push(v_n));
}

/// The view at index `i` of a parse reads its eight bytes at offset `8 * i`.
pub proof fn lemma_parse_views_index(b: Seq<u8>, n: nat, i: int)
    requires
        0 <= i < n,
        8 * n <= b.len(),
    ensures
        spec_parse_views(b, n).len() == n,
        spec_parse_views(b, n)[i] == (DataView {
            offset: le32(b.skip(8 * i).subrange(0, 4)) as u32,
            size: le32(b.skip(8 * i).subrange(4, 8)) as u32,
        }),
    decreases n,
{
    lemma_parse_views_len(b, n);
    lemma_parse_views_len(b.skip(8), (n - 1) as nat);
    if i > 0 {
        lemma_parse_views_index(b.skip(8), (n - 1) as nat, i - 1);
        assert(b.skip(8).skip(8 * (i - 1)) =~= b.skip(8 * i));
        assert(b.skip(8).skip(8 * (i - 1)).subrange(0, 4) == b.skip(8 * i).subrange(0, 4));
        assert(b.skip(8).skip(8 * (i - 1)).subrange(4, 8) == b.skip(8 * i).subrange(4, 8));
        assert(spec_parse_views(b, n)[i] == spec_parse_views(b.skip(8), (n - 1) as nat)[i - 1]);
    } else {
        assert(b.skip(0) =~= b);
        assert(b.skip(0).subrange(0, 4) == b.subrange(0, 4));
        assert(b.skip(0).subrange(4, 8) == b.subrange(4, 8));
    }
}

pub proof fn lemma_parse_views_len(b: Seq<u8>, n: nat)
    ensures
        spec_parse_views(b, n).len() == n,
    decreases n,
{
    if n > 0 {
        lemma_parse_views_len(b.skip(8), (n - 1) as nat);
    }
}

/// Appending one view appends its eight bytes.
pub proof fn lemma_views_bytes_snoc(vs: Seq<DataView>, v: DataView)
    ensures
        spec_views_bytes(vs.push(v)) =~= spec_views_bytes(vs) + spec_view_bytes(v),
    decreases vs.len(),
{
    assert(spec_views_bytes(vs.push(v)) == spec_view_bytes(vs.push(v)[0]) + spec_views_bytes(
        vs.push(v).drop_first(),
    ));
    if vs.len() == 0 {
        assert(vs.push(v)[0] == v);
        assert(vs.push(v).drop_first() =~= Seq::<DataView>::empty());
        assert(spec_views_bytes(vs.push(v).drop_first()) == Seq::<u8>::empty());
    } else {
        lemma_views_bytes_snoc(vs.drop_first(), v);
        assert(vs.push(v)[0] == vs[0]);
        assert(vs.push(v).drop_first() =~= vs.drop_first().push(v));
        assert(spec_views_bytes(vs.push(v).drop_first()) == spec_views_bytes(
            vs.drop_first().push(v),
        ));
    }
}

} // verus!
