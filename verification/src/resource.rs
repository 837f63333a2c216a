//! The virtual addressing layer: a `VirtualResource` presents an ordered
//! sequence of byte chunks as one logically contiguous resource.
//!
//! Reads may straddle several underlying chunks; every read is bounds-checked
//! against the total logical length and fails with a typed error rather than
//! panicking, because resource boundaries come from potentially corrupt input.

use vstd::prelude::*;

verus! {

/// Why a read against a `VirtualResource` (or a chunk against a buffer pool)
/// was refused.
#[derive(Debug, Clone, Copy, PartialEq, Eq, Structural)]
pub enum VirtualResourceError {
    /// The starting offset itself lies beyond the addressed bytes.
    OffsetOutOfBounds,
    /// The offset is in range but the requested size runs past the end.
    SizeOutOfBounds,
}

/// The concatenation of a sequence of chunks, in order.
pub open spec fn concat_of(ss: Seq<Seq<u8>>) -> Seq<u8> {
    concat_suffix(ss, 0)
}

/// The concatenation of the chunks from index `k` on.
pub open spec fn concat_suffix(ss: Seq<Seq<u8>>, k: int) -> Seq<u8>
    decreases ss.len() - k,
{
    if k < 0 || k >= ss.len() {
        Seq::empty()
    } else {
        ss[k] + concat_suffix(ss, k + 1)
    }
}

/// The concatenation of the first `k` chunks.
pub open spec fn concat_prefix(ss: Seq<Seq<u8>>, k: int) -> Seq<u8>
    decreases k,
{
    if k <= 0 || k > ss.len() {
        Seq::empty()
    } else {
        concat_prefix(ss, k - 1) + ss[k - 1]
    }
}

/// Splitting the concatenation at any chunk boundary loses nothing.
pub proof fn lemma_concat_split(ss: Seq<Seq<u8>>, k: int)
    requires
        0 <= k <= ss.len(),
    ensures
        concat_of(ss) =~= concat_prefix(ss, k) + concat_suffix(ss, k),
    decreases k,
{
    if k == 0 {
    } else {
        lemma_concat_split(ss, k - 1);
        assert(concat_suffix(ss, k - 1) =~= ss[k - 1] + concat_suffix(ss, k));
        assert(concat_prefix(ss, k) =~= concat_prefix(ss, k - 1) + ss[k - 1]);
    }
}

/// The logical concatenation of an ordered sequence of owned byte chunks.
///
/// The chunk total always fits in `usize`, since the chunks are in memory;
/// construction requires it and every method may rely on it.
#[derive(Debug)]
pub struct VirtualResource {
    slices: Vec<Vec<u8>>,
}

impl View for VirtualResource {
    type V = Seq<u8>;

    closed spec fn view(&self) -> Seq<u8> {
        concat_of(self.slices.deep_view())
    }
}

impl VirtualResource {
    /// The underlying chunks, in order.
    pub closed spec fn spec_slices(&self) -> Seq<Seq<u8>> {
        self.slices.deep_view()
    }

    /// The logical view is the concatenation of the underlying chunks.
    pub proof fn lemma_view_is_concat(&self)
        ensures
            self@ == concat_of(self.spec_slices()),
    {
    }

    #[verifier::type_invariant]
    spec fn wf(&self) -> bool {
        concat_of(self.slices.deep_view()).len() <= usize::MAX
    }

    /// Wraps a sequence of byte chunks, taking ownership and copying nothing.
    pub fn from_slices(slices: Vec<Vec<u8>>) -> (r: VirtualResource)
        requires
            concat_of(slices.deep_view()).len() <= usize::MAX,
        ensures
            r.spec_slices() == slices.deep_view(),
            r@ == concat_of(slices.deep_view()),
    {
        VirtualResource { slices }
    }

    /// The total logical length: the sum of the chunk lengths.
    pub fn len(&self) -> (r: usize)
        ensures
            r == self@.len(),
    {
        proof {
            use_type_invariant(self);
        }
        let ghost ss = self.slices.deep_view();
        let mut acc: usize = 0;
        let mut i: usize = 0;
        while i < self.slices.len()
            invariant
                0 <= i <= self.slices.len(),
                ss == self.slices.deep_view(),
                concat_of(ss).len() <= usize::MAX,
                acc == concat_prefix(ss, i as int).len(),
            decreases self.slices.len() - i,
        {
            proof {
                lemma_concat_split(ss, i + 1);
                assert(concat_prefix(ss, i + 1) =~= concat_prefix(ss, i as int) + ss[i as int]);
            }
            acc = acc + self.slices[i].len();
            i = i + 1;
        }
        proof {
            lemma_concat_split(ss, ss.len() as int);
            assert(concat_suffix(ss, ss.len() as int) =~= Seq::<u8>::empty());
            assert(concat_of(ss) =~= concat_prefix(ss, ss.len() as int));
        }
        acc
    }

    /// True exactly when the resource holds no bytes at all.
    pub fn is_empty(&self) -> (r: bool)
        ensures
            r == (self@.len() == 0),
    {
        self.len() == 0
    }

    /// Reads `get_size` bytes starting at logical offset `start_offset`.
    ///
    /// Succeeds exactly when the whole requested range lies inside the
    /// resource, and then returns precisely those bytes; an offset beyond the
    /// end and a size running past the end are distinguished, and neither
    /// panics.
    pub fn get_bytes(&self, start_offset: usize, get_size: usize) -> (r: Result<
        Vec<u8>,
        VirtualResourceError,
    >)
        ensures
            start_offset + get_size <= self@.len() ==> (r matches Ok(v) && v@ == self@.subrange(
                start_offset as int,
                start_offset + get_size,
            )),
            start_offset > self@.len() ==> r == Err::<Vec<u8>, VirtualResourceError>(
                VirtualResourceError::OffsetOutOfBounds,
            ),
            start_offset <= self@.len() && start_offset + get_size > self@.len() ==> r == Err::<
                Vec<u8>,
                VirtualResourceError,
            >(VirtualResourceError::SizeOutOfBounds),
    {
        proof {
            use_type_invariant(self);
        }
        let end = self.len();

        if end < start_offset {
            return Err(VirtualResourceError::OffsetOutOfBounds);
        } else if end - start_offset < get_size {
            return Err(VirtualResourceError::SizeOutOfBounds);
        }

        let ghost ss = self.slices.deep_view();
        let ghost target = self@.subrange(start_offset as int, start_offset + get_size);

        let mut out: Vec<u8> = Vec::new();
        let mut slice_start: usize = 0;
        let mut i: usize = 0;

        while i < self.slices.len() && out.len() < get_size
            invariant
                0 <= i <= self.slices.len(),
                ss == self.slices.deep_view(),
                self@ == concat_of(ss),
                self@.len() <= usize::MAX,
                start_offset + get_size <= self@.len(),
                target == self@.subrange(start_offset as int, start_offset + get_size),
                slice_start == concat_prefix(ss, i as int).len(),
                out.len() <= get_size,
                out.len() == if slice_start <= start_offset {
                    0
                } else if slice_start - start_offset <= get_size {
                    slice_start - start_offset
                } else {
                    get_size as int
                },
                out@ =~= target.take(out.len() as int),
            decreases self.slices.len() - i,
        {
            let slice_len = self.slices[i].len();
            proof {
                lemma_concat_split(ss, i as int);
                lemma_concat_split(ss, i + 1);
                assert(concat_prefix(ss, i + 1) =~= concat_prefix(ss, i as int) + ss[i as int]);
                assert(slice_start + slice_len <= self@.len());
            }

            if slice_start + slice_len > start_offset {
                let cp_i = if start_offset > slice_start {
                    start_offset - slice_start
                } else {
                    0
                };
                let mut j = cp_i;
                while j < slice_len && out.len() < get_size
                    invariant
                        ss == self.slices.deep_view(),
                        self@ == concat_of(ss),
                        i < self.slices.len(),
                        slice_len == ss[i as int].len(),
                        slice_start == concat_prefix(ss, i as int).len(),
                        slice_start + slice_len <= self@.len(),
                        start_offset + get_size <= self@.len(),
                        target == self@.subrange(start_offset as int, start_offset + get_size),
                        cp_i <= j <= slice_len,
                        slice_start + cp_i >= start_offset,
                        cp_i == if start_offset > slice_start {
                            start_offset - slice_start
                        } else {
                            0
                        },
                        out.len() <= get_size,
                        slice_start + j == start_offset + out.len(),
                        out@ =~= target.take(out.len() as int),
                    decreases slice_len - j,
                {
                    let b = self.slices[i][j];
                    proof {
                        lemma_concat_split(ss, i as int);
                        assert(concat_suffix(ss, i as int) =~= ss[i as int] + concat_suffix(
                            ss,
                            i + 1,
                        ));
                        assert(self@[slice_start + j] == ss[i as int][j as int]);
                        assert(target[out.len() as int] == self@[start_offset + out.len()]);
                    }
                    out.push(b);
                    j = j + 1;
                }
            }
            slice_start = slice_start + slice_len;
            i = i + 1;
            proof {
                if out.len() < get_size {
                    assert(out.len() == if slice_start <= start_offset {
                        0
                    } else if slice_start - start_offset <= get_size {
                        slice_start - start_offset
                    } else {
                        get_size as int
                    });
                }
            }
        }

        proof {
            if i == self.slices.len() {
                lemma_concat_split(ss, ss.len() as int);
                assert(concat_suffix(ss, ss.len() as int) =~= Seq::<u8>::empty());
                assert(self@ =~= concat_prefix(ss, ss.len() as int));
            }
            assert(out.len() == get_size);
            assert(out@ =~= target);
        }

        Ok(out)
    }

    /// Materializes the whole logical resource as one contiguous buffer.
    pub fn get_all_bytes(&self) -> (r: Vec<u8>)
        ensures
            r@ == self@,
    {
        proof {
            use_type_invariant(self);
        }
        let ghost ss = self.slices.deep_view();
        let mut out: Vec<u8> = Vec::new();
        let mut i: usize = 0;
        while i < self.slices.len()
            invariant
                0 <= i <= self.slices.len(),
                ss == self.slices.deep_view(),
                self@ == concat_of(ss),
                self@.len() <= usize::MAX,
                out@ =~= concat_prefix(ss, i as int),
            decreases self.slices.len() - i,
        {
            proof {
                lemma_concat_split(ss, i as int);
                lemma_concat_split(ss, i + 1);
                assert(concat_prefix(ss, i + 1) =~= concat_prefix(ss, i as int) + ss[i as int]);
                assert(concat_prefix(ss, i + 1).len() <= self@.len());
            }
            let mut j: usize = 0;
            let slice_len = self.slices[i].len();
            while j < slice_len
                invariant
                    ss == self.slices.deep_view(),
                    i < self.slices.len(),
                    slice_len == ss[i as int].len(),
                    0 <= j <= slice_len,
                    concat_prefix(ss, i as int).len() + slice_len <= usize::MAX,
                    out@ =~= concat_prefix(ss, i as int) + ss[i as int].take(j as int),
                decreases slice_len - j,
            {
                let b = self.slices[i][j];
                out.push(b);
                j = j + 1;
            }
            proof {
                assert(ss[i as int].take(slice_len as int) =~= ss[i as int]);
            }
            i = i + 1;
        }
        proof {
            lemma_concat_split(ss, ss.len() as int);
            assert(concat_suffix(ss, ss.len() as int) =~= Seq::<u8>::empty());
            assert(self@ =~= concat_prefix(ss, ss.len() as int));
        }
        out
    }

    /// Copies of the underlying chunks, in order.
    pub fn chunk_copies(&self) -> (r: Vec<Vec<u8>>)
        ensures
            r.deep_view() == self.spec_slices(),
    {
        let mut out: Vec<Vec<u8>> = Vec::new();
        let mut i: usize = 0;
        while i < self.slices.len()
            invariant
                0 <= i <= self.slices.len(),
                out.deep_view() =~= self.slices.deep_view().take(i as int),
            decreases self.slices.len() - i,
        {
            let ghost prev = out.deep_view();
            let c = self.slices[i].clone();
            assert(c@ == self.slices.deep_view()[i as int]);
            out.push(c);
            proof {
                assert(out.deep_view() =~= prev.push(c@));
                assert(out.deep_view() =~= self.slices.deep_view().take(i + 1));
            }
            i = i + 1;
        }
        proof {
            assert(out.deep_view() =~= self.slices.deep_view());
        }
        out
    }

    /// The number of underlying chunks.
    pub fn num_slices(&self) -> (r: usize)
        ensures
            r == self.spec_slices().len(),
    {
        self.slices.len()
    }
}

} // verus!
