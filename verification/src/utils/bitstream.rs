//! A little-endian bit reader over a byte slice: bit `i` of the stream is
//! bit `i % 8` of byte `i / 8`, and bits past the end of the slice read as
//! zero whenever a read's footing stays inside it.

use vstd::arithmetic::power2::{
    lemma2_to64, lemma_pow2_pos, lemma_pow2_strictly_increases, lemma_pow2_unfold, pow2,
};
use vstd::prelude::*;

verus! {

/// Why a bit-stream read was refused: it needed a byte beyond the slice.
#[derive(Debug, Clone, Copy, PartialEq, Eq, Structural)]
pub enum BitStreamError {
    OutOfRange,
}

/// Bit `i` of the stream, with bits past the end reading as zero.
pub open spec fn bit_zx(bytes: Seq<u8>, i: int) -> u32
    recommends
        0 <= i,
{
    if i / 8 < bytes.len() {
        ((bytes[i / 8] as u32) >> ((i % 8) as u32)) & 1
    } else {
        0
    }
}


/// The value of the `n` stream bits starting at `first`, least significant
/// first.
pub open spec fn bits_value(bytes: Seq<u8>, first: int, n: nat) -> nat
    decreases n,
{
    if n == 0 {
        0
    } else {
        (bits_value(bytes, first, (n - 1) as nat) + bit_zx(bytes, first + n - 1) * pow2(
            (n - 1) as nat,
        )) as nat
    }
}

pub proof fn lemma_pow2u_bounds(n: nat)
    ensures
        pow2(n) >= 1,
        n <= 30 ==> pow2(n) <= 0x4000_0000,
        n <= 31 ==> pow2(n) <= 0x8000_0000,
{
    lemma_pow2_pos(n);
    lemma2_to64();
    if n < 30 {
        lemma_pow2_strictly_increases(n, 30);
    }
    if n < 31 {
        lemma_pow2_strictly_increases(n, 31);
    }
}

/// The value of `n` bits is below two to the `n`th.
pub proof fn lemma_bits_value_bound(bytes: Seq<u8>, first: int, n: nat)
    ensures
        bits_value(bytes, first, n) < pow2(n),
    decreases n,
{
    lemma_pow2_pos(n);
    if n > 0 {
        lemma_bits_value_bound(bytes, first, (n - 1) as nat);
        lemma_pow2u_bounds((n - 1) as nat);
        lemma_pow2_unfold(n);
        let bit = bit_zx(bytes, first + n - 1);
        assert(bit <= 1) by {
            let i = first + n - 1;
            if i / 8 < bytes.len() {
                let b32 = bytes[i / 8] as u32;
                let sh = (i % 8) as u32;
                assert((b32 >> sh) & 1 <= 1) by (bit_vector);
            }
        }
        let p = pow2((n - 1) as nat);
        assert(bit * p <= p) by (nonlinear_arith)
            requires
                bit <= 1,
        ;
        let prev = bits_value(bytes, first, (n - 1) as nat);
        assert(bits_value(bytes, first, n) == (prev + bit * p) as nat);
        assert(prev + bit * p < 2 * p);
        assert(pow2(n) == 2 * p);
    }
}

/// Whether every chunk a read of `rem` bits takes, stepping `stride` bits
/// after the first partial chunk, starts inside the slice: this, and only
/// this, is what a read checks, so a chunk that merely ends past the slice
/// zero-extends instead of failing.
pub open spec fn chunk_starts_ok(len_bytes: nat, fb: nat, rem: nat, stride: nat) -> bool
    recommends
        stride >= 1,
    decreases rem,
{
    if rem == 0 {
        true
    } else if fb / 8 >= len_bytes {
        false
    } else if stride == 0 || stride >= rem {
        true
    } else {
        chunk_starts_ok(len_bytes, fb + stride, (rem - stride) as nat, stride)
    }
}

/// A little-endian bit reader holding a cursor over borrowed bytes.
pub struct BitStream<'a> {
    bit_cursor: usize,
    bytes: &'a [u8],
}

impl<'a> BitStream<'a> {
    /// The underlying bytes.
    pub closed spec fn spec_bytes(&self) -> Seq<u8> {
        self.bytes@
    }

    /// The current cursor position in bits.
    pub closed spec fn spec_cursor(&self) -> nat {
        self.bit_cursor as nat
    }

    pub fn new(bytes: &'a [u8]) -> (r: BitStream<'a>)
        ensures
            r.spec_bytes() == bytes@,
            r.spec_cursor() == 0,
    {
        BitStream { bit_cursor: 0, bytes }
    }

    /// The stream length in bits.
    pub fn len(&self) -> (r: usize)
        requires
            self.spec_bytes().len() * 8 <= usize::MAX,
        ensures
            r == self.spec_bytes().len() * 8,
    {
        self.bytes.len() * 8
    }

    pub fn is_empty(&self) -> (r: bool)
        ensures
            r == (self.spec_bytes().len() == 0),
    {
        self.bytes.len() == 0
    }

    /// The two parts of the byte-wide window at bit `8 * starting_byte +
    /// offset`: the low `8 - offset` bits taken from the starting byte, and,
    /// when the offset is nonzero and a next byte exists, its low bits
    /// shifted into the window's high part.  Fails exactly when the starting
    /// byte lies outside the slice.
    pub fn get_u8_parts(&self, starting_byte: usize, offset: u32) -> (r: Result<
        (Option<u8>, u8),
        BitStreamError,
    >)
        requires
            offset < 8,
        ensures
            starting_byte >= self.spec_bytes().len() ==> r == Err::<
                (Option<u8>, u8),
                BitStreamError,
            >(BitStreamError::OutOfRange),
            starting_byte < self.spec_bytes().len() ==> (r matches Ok(p) && p.1 == ((
            self.spec_bytes()[starting_byte as int] >> (offset as u8)) & (((1u32 << ((8
                - offset) as u32)) - 1) as u8)) && (if offset == 0 || starting_byte + 1
                >= self.spec_bytes().len() {
                p.0 is None
            } else {
                p.0 == Some(
                    (self.spec_bytes()[starting_byte + 1] << ((8 - offset) as u8)) & !(((1u32
                        << ((8 - offset) as u32)) - 1) as u8),
                )
            })),
    {
        if starting_byte >= self.bytes.len() {
            return Err(BitStreamError::OutOfRange);
        }
        let k: u32 = 8 - offset;
        proof {
            assert(1 <= k <= 8);
            assert((1u32 << k) >= 1 && (1u32 << k) - 1 <= 255) by (bit_vector)
                requires
                    1 <= k <= 8,
            ;
        }
        let low_mask: u8 = ((1u32 << k) - 1) as u8;
        let low_bits: u8 = (self.bytes[starting_byte] >> (offset as u8)) & low_mask;
        if offset == 0 || starting_byte + 1 >= self.bytes.len() {
            return Ok((None, low_bits));
        }
        let high_mask: u8 = !low_mask;
        let high_bits: u8 = (self.bytes[starting_byte + 1] << (k as u8)) & high_mask;
        Ok((Some(high_bits), low_bits))
    }

    /// The byte-wide window at bit `8 * starting_byte + offset`, assembled
    /// from its two parts; fails exactly when the starting byte lies outside
    /// the slice.
    pub fn get_u8(&self, starting_byte: usize, offset: u32) -> (r: Result<u8, BitStreamError>)
        requires
            offset < 8,
        ensures
            starting_byte >= self.spec_bytes().len() ==> r == Err::<u8, BitStreamError>(
                BitStreamError::OutOfRange,
            ),
            starting_byte < self.spec_bytes().len() ==> r == Ok::<u8, BitStreamError>(
                ((self.spec_bytes()[starting_byte as int] >> (offset as u8)) & (((1u32 << ((8
                    - offset) as u32)) - 1) as u8)) | (if offset == 0 || starting_byte + 1
                    >= self.spec_bytes().len() {
                    0u8
                } else {
                    (self.spec_bytes()[starting_byte + 1] << ((8 - offset) as u8)) & !(((1u32 << ((
                    8 - offset) as u32)) - 1) as u8)
                }),
            ),
    {
        let (high, low) = match self.get_u8_parts(starting_byte, offset) {
            Ok(p) => p,
            Err(e) => {
                return Err(e);
            },
        };
        let h: u8 = match high {
            Some(h) => h,
            None => 0,
        };
        proof {
            assert(h | low == low | h) by (bit_vector);
        }
        Ok(h | low)
    }

    /// Reads `num_bits` bits starting at bit `first_bit`, least significant
    /// first, bits past the end of the slice reading as zero.  Fails exactly
    /// when one of the read's chunks would start at a byte outside the
    /// slice.
    pub fn get_bits(&self, first_bit: usize, num_bits: usize) -> (r: Result<u32, BitStreamError>)
        requires
            num_bits < 32,
            first_bit + num_bits <= usize::MAX,
        ensures
            chunk_starts_ok(
                self.spec_bytes().len() as nat,
                first_bit as nat,
                num_bits as nat,
                (8 - first_bit % 8) as nat,
            ) ==> (r matches Ok(v) && v == bits_value(self.spec_bytes(), first_bit as int, num_bits as nat)),
            !chunk_starts_ok(
                self.spec_bytes().len() as nat,
                first_bit as nat,
                num_bits as nat,
                (8 - first_bit % 8) as nat,
            ) ==> r == Err::<u32, BitStreamError>(BitStreamError::OutOfRange),
    {
        let stride: usize = 8 - first_bit % 8;

        // First pass: the bounds rule, exactly as the chunked read takes its
        // footing.
        let mut fb: usize = first_bit;
        let mut rem: usize = num_bits;
        loop
            invariant
                stride == 8 - first_bit % 8,
                1 <= stride <= 8,
                fb + rem <= usize::MAX,
                chunk_starts_ok(
                    self.spec_bytes().len() as nat,
                    first_bit as nat,
                    num_bits as nat,
                    stride as nat,
                ) == chunk_starts_ok(
                    self.spec_bytes().len() as nat,
                    fb as nat,
                    rem as nat,
                    stride as nat,
                ),
            ensures
                chunk_starts_ok(
                    self.spec_bytes().len() as nat,
                    first_bit as nat,
                    num_bits as nat,
                    stride as nat,
                ),
            decreases rem,
        {
            if rem == 0 {
                break ;
            }
            if fb / 8 >= self.bytes.len() {
                return Err(BitStreamError::OutOfRange);
            }
            if stride == 0 || stride >= rem {
                break ;
            }
            fb = fb + stride;
            rem = rem - stride;
        }

        // Second pass: assemble the value bit by bit.
        proof {
            lemma2_to64();
        }
        let mut ret: u32 = 0;
        let mut po2: u32 = 1;
        let mut j: usize = 0;
        while j < num_bits
            invariant
                num_bits < 32,
                first_bit + num_bits <= usize::MAX,
                0 <= j <= num_bits,
                po2 == pow2(j as nat),
                ret == bits_value(self.spec_bytes(), first_bit as int, j as nat),
            decreases num_bits - j,
        {
            proof {
                lemma_pow2u_bounds(j as nat);
                lemma_bits_value_bound(self.spec_bytes(), first_bit as int, j as nat);
            }
            let idx = (first_bit + j) / 8;
            let b: u32 = if idx < self.bytes.len() {
                let sh: u32 = ((first_bit + j) % 8) as u32;
                proof {
                    let b32 = self.spec_bytes()[idx as int] as u32;
                    let sh32 = ((first_bit + j) % 8) as u32;
                    assert((b32 >> sh32) & 1 <= 1) by (bit_vector);
                }
                ((self.bytes[idx] as u32) >> sh) & 1
            } else {
                0
            };
            proof {
                lemma_pow2u_mono(j as nat, 30);
                lemma_pow2u_bounds(j as nat);
                lemma_pow2u_bounds(30);
                assert(b <= 1);
                assert(b * po2 <= po2) by (nonlinear_arith)
                    requires
                        b <= 1,
                ;
                lemma_pow2_unfold((j + 1) as nat);
                assert(pow2((j + 1) as nat) == 2 * pow2(j as nat));
                assert(b == bit_zx(self.spec_bytes(), first_bit + j));
            }
            ret = ret + b * po2;
            po2 = po2 * 2;
            j = j + 1;
        }
        Ok(ret)
    }

    /// Reads `num_bits` bits at the cursor and advances it.
    pub fn read(&mut self, num_bits: usize) -> (r: Result<u32, BitStreamError>)
        requires
            num_bits < 32,
            old(self).spec_cursor() + num_bits <= usize::MAX,
        ensures
            final(self).spec_bytes() == old(self).spec_bytes(),
            chunk_starts_ok(
                old(self).spec_bytes().len() as nat,
                old(self).spec_cursor(),
                num_bits as nat,
                (8 - old(self).spec_cursor() % 8) as nat,
            ) ==> (r matches Ok(v) && v == bits_value(
                old(self).spec_bytes(),
                old(self).spec_cursor() as int,
                num_bits as nat,
            ) && final(self).spec_cursor() == old(self).spec_cursor() + num_bits),
            !chunk_starts_ok(
                old(self).spec_bytes().len() as nat,
                old(self).spec_cursor(),
                num_bits as nat,
                (8 - old(self).spec_cursor() % 8) as nat,
            ) ==> r == Err::<u32, BitStreamError>(BitStreamError::OutOfRange),
    {
        let ret = match self.get_bits(self.bit_cursor, num_bits) {
            Ok(v) => v,
            Err(e) => {
                return Err(e);
            },
        };
        self.bit_cursor = self.bit_cursor + num_bits;
        Ok(ret)
    }
}

/// A higher power of two is no smaller.
pub proof fn lemma_pow2u_mono(a: nat, b: nat)
    requires
        a <= b,
    ensures
        pow2(a) <= pow2(b),
{
    if a < b {
        lemma_pow2_strictly_increases(a, b);
    }
}

} // verus!
