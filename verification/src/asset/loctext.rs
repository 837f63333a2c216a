//! The localized-text asset kind: a keyed table of strings, addressed in
//! the archive through a 16-bit key hash.

use vstd::prelude::*;
use vstd::string::StringSliceAdditionalSpecFns;

use crate::asset::AssetParseError;
use crate::bytes::le32;

verus! {

/// One step of the key hash: shift the accumulator by a nibble, add the
/// byte (both wrapping), and fold the top nibble of the low word back in
/// when it is set.
pub open spec fn spec_hash_step(h: u32, b: u8) -> u32 {
    let h1 = vstd::wrapping::u32_specs::wrapping_add(
        vstd::wrapping::u32_specs::wrapping_mul(h, 0x10),
        b as u32,
    );
    let masked = h1 & 0xf000u32;
    if masked & 0xffffu32 > 0 {
        h1 ^ ((masked >> 8u32) | masked)
    } else {
        h1
    }
}

/// The hash accumulator after the first `n` bytes.
pub open spec fn spec_hash_fold(s: Seq<u8>, n: int) -> u32
    decreases n,
{
    if n <= 0 {
        0
    } else {
        spec_hash_step(spec_hash_fold(s, n - 1), s[n - 1])
    }
}

/// The 16-bit key hash of a byte string.
pub open spec fn spec_loctext_hash(s: Seq<u8>) -> u16 {
    spec_hash_fold(s, s.len() as int) as u16
}

/// The fixed header in front of a localized-text resource.
pub struct DemandHeader {
    pub demand_asset_type: u32,
    pub unknown_u32_1: u32,
    pub unknown_u32_2: u32,
    pub unknown_u32_3: u32,
    pub loctext_resource_header_ptr: u32,
    pub loctext_file_size: u32,
    pub unknown_u32_4: u32,
}

impl DemandHeader {
    /// Parses the 28-byte header at the front of a resource; fails exactly
    /// on a short input.
    pub fn parse(b: &[u8]) -> (r: Result<DemandHeader, AssetParseError>)
        ensures
            b@.len() >= 28 ==> (r matches Ok(h) && h.demand_asset_type == le32(b@.subrange(0, 4))
                && h.unknown_u32_1 == le32(b@.subrange(4, 8)) && h.unknown_u32_2 == le32(
                b@.subrange(8, 12),
            ) && h.unknown_u32_3 == le32(b@.subrange(12, 16)) && h.loctext_resource_header_ptr
                == le32(b@.subrange(16, 20)) && h.loctext_file_size == le32(b@.subrange(20, 24))
                && h.unknown_u32_4 == le32(b@.subrange(24, 28))),
            b@.len() < 28 ==> r == Err::<DemandHeader, AssetParseError>(
                AssetParseError::InputTooSmall,
            ),
    {
        if b.len() < 28 {
            return Err(AssetParseError::InputTooSmall);
        }
        Ok(
            DemandHeader {
                demand_asset_type: crate::bytes::read_u32_le(b, 0),
                unknown_u32_1: crate::bytes::read_u32_le(b, 4),
                unknown_u32_2: crate::bytes::read_u32_le(b, 8),
                unknown_u32_3: crate::bytes::read_u32_le(b, 12),
                loctext_resource_header_ptr: crate::bytes::read_u32_le(b, 16),
                loctext_file_size: crate::bytes::read_u32_le(b, 20),
                unknown_u32_4: crate::bytes::read_u32_le(b, 24),
            },
        )
    }
}

/// The fixed layout of a serialized string-table body.
pub struct LoctextFile {
    pub lsbl: [u8; 4],
    pub values_ptr: u32,
    pub unknown_count_1: u16,
    pub unknown_count_2: u16,
    pub unknown_u16_1: u16,
    pub unknown_u32_1: u32,
    pub keys_ptr: u32,
    pub unknown_u32_2: u32,
    pub hash_list_ptr: u32,
}

/// A localized-text table: its key-value pairs, keyed by identifier.
#[derive(Debug)]
pub struct LoctextResource {
    values: Vec<(String, String)>,
}

impl LoctextResource {
    /// The key-value pairs, in insertion order.
    pub closed spec fn spec_values(&self) -> Seq<(String, String)> {
        self.values@
    }

    /// The 16-bit hash the table addresses a key by.
    pub fn hash_loctext_key(s: &str) -> (r: u16)
        ensures
            r == spec_loctext_hash(s.spec_bytes()),
    {
        let bytes = s.as_bytes();
        let ghost sb = s.spec_bytes();
        let mut hash: u32 = 0;
        let mut i: usize = 0;
        while i < bytes.len()
            invariant
                sb == bytes@,
                0 <= i <= sb.len(),
                hash == spec_hash_fold(sb, i as int),
            decreases bytes.len() - i,
        {
            let b = bytes[i];
            hash = hash.wrapping_mul(0x10).wrapping_add(b as u32);
            let masked: u32 = hash & 0xf000;
            if masked & 0xffff > 0 {
                hash = hash ^ (masked >> 8 | masked);
            }
            i = i + 1;
        }
        proof {
            let h = hash;
            assert((h % 0x1_0000) as u16 == h as u16) by (bit_vector);
        }
        (hash % 0x1_0000) as u16
    }

    /// Builds a table from key-value pairs.
    pub fn from_pairs(pairs: Vec<(String, String)>) -> (r: LoctextResource)
        ensures
            r.spec_values() == pairs@,
    {
        LoctextResource { values: pairs }
    }

    /// The key-value pairs, in insertion order.
    pub fn values(&self) -> (r: &Vec<(String, String)>)
        ensures
            r@ == self.spec_values(),
    {
        &self.values
    }
}

/// What decoding a sequence of UTF-16 code units yields: the characters, or
/// nothing when the units are not well-formed UTF-16.
pub uninterp spec fn spec_utf16_decode(units: Seq<u16>) -> Option<Seq<char>>;

/// Relies on String::from_utf16: the result depends on the code units
/// alone, succeeding exactly on well-formed UTF-16.
#[verifier::external_body]
fn utf16_owned(units: &[u16]) -> (r: Option<String>)
    ensures
        r is Some <==> spec_utf16_decode(units@) is Some,
        r matches Some(s) ==> spec_utf16_decode(units@) == Some(s@),
{
    String::from_utf16(units).ok()
}

impl LoctextResource {
    /// Decodes a localized-text resource: the demand header, the table
    /// body's signature and section pointers, the value strings (UTF-16,
    /// NUL-terminated, located through per-value character offsets), and
    /// the key strings (UTF-8, NUL-terminated), pairing each key with the
    /// value carrying its recorded hash.
    ///
    /// Every offset and count is checked against the input, so decoding
    /// never panics, however corrupt the bytes; the shape of the decoded
    /// table is boundary behavior, pinned by the byte layout above rather
    /// than by the container model.
    #[verifier::loop_isolation(false)]
    #[verifier::rlimit(100)]
    pub fn from_bytes(bytes: &[u8]) -> (r: Result<LoctextResource, AssetParseError>)
        ensures
            r is Ok ==> bytes@.len() >= 28,
    {
        let total = bytes.len();
        let demand = match DemandHeader::parse(bytes) {
            Ok(h) => h,
            Err(e) => {
                return Err(e);
            },
        };
        let hdr = demand.loctext_resource_header_ptr as usize;
        if hdr as u64 + 4 > total as u64 {
            return Err(AssetParseError::InputTooSmall);
        }
        let lsbl_ptr = crate::bytes::read_u32_le(bytes, hdr);
        if hdr as u64 + lsbl_ptr as u64 > total as u64 {
            return Err(AssetParseError::InputTooSmall);
        }
        let base = hdr + lsbl_ptr as usize;
        let lsbl = vstd::slice::slice_subrange(bytes, base, total);
        let llen = lsbl.len();
        if llen < 28 {
            return Err(AssetParseError::InputTooSmall);
        }
        if !(lsbl[0] == 0x4c && lsbl[1] == 0x53 && lsbl[2] == 0x42 && lsbl[3] == 0x4c) {
            return Err(
                AssetParseError::InvalidDataViews(
                    "The table body signature does not match.".to_owned(),
                ),
            );
        }
        let values_ptr = crate::bytes::read_u32_le(lsbl, 4);
        let keys_ptr = crate::bytes::read_u32_le(lsbl, 16);
        let hash_list_ptr = crate::bytes::read_u32_le(lsbl, 24);

        // The hash list must declare a size consistent with its count.
        if hash_list_ptr as u64 + 8 > llen as u64 {
            return Err(AssetParseError::InputTooSmall);
        }
        let hl_size = crate::bytes::read_u32_le(lsbl, hash_list_ptr as usize);
        let hl_len = crate::bytes::read_u32_le(lsbl, hash_list_ptr as usize + 4);
        if hl_size as u64 != 8 + 2 * hl_len as u64 {
            return Err(
                AssetParseError::InvalidDataViews(
                    "The hash list declares an inconsistent size.".to_owned(),
                ),
            );
        }

        // The value characters follow the value locators, behind a sentinel.
        if values_ptr as u64 + 8 > llen as u64 {
            return Err(AssetParseError::InputTooSmall);
        }
        let num_values = crate::bytes::read_u32_le(lsbl, values_ptr as usize + 4);
        let chars_pos64: u64 = values_ptr as u64 + 8 + 6 * num_values as u64;
        if chars_pos64 + 6 > llen as u64 {
            return Err(AssetParseError::InputTooSmall);
        }
        let chars_pos = chars_pos64 as usize;
        let sentinel = crate::bytes::read_u16_le(lsbl, chars_pos);
        if sentinel != 0xFFFF {
            return Err(
                AssetParseError::InvalidDataViews(
                    "The sentinel after the value locators is missing.".to_owned(),
                ),
            );
        }
        let num_chars = crate::bytes::read_u32_le(lsbl, chars_pos + 2);
        if chars_pos as u64 + 6 + 2 * num_chars as u64 > llen as u64 {
            return Err(AssetParseError::InputTooSmall);
        }
        let mut chars: Vec<u16> = Vec::new();
        let mut ci: usize = 0;
        while ci < num_chars as usize
            invariant
                0 <= ci <= num_chars,
            decreases num_chars as usize - ci,
        {
            chars.push(crate::bytes::read_u16_le(lsbl, chars_pos + 6 + 2 * ci));
            ci = ci + 1;
        }

        // The value locators: each names a hash and where its NUL-terminated
        // UTF-16 string starts; a later locator for the same hash replaces
        // an earlier one.
        let mut values_map: Vec<(u16, String)> = Vec::new();
        let mut vi: usize = 0;
        while vi < num_values as usize
            invariant
                0 <= vi <= num_values,
            decreases num_values as usize - vi,
        {
            let e = values_ptr as usize + 8 + 6 * vi;
            let hash = crate::bytes::read_u16_le(lsbl, e);
            let off = crate::bytes::read_u32_le(lsbl, e + 2) as usize;
            if off as u64 > chars.len() as u64 {
                return Err(
                    AssetParseError::InvalidDataViews(
                        "A value starts outside the character region.".to_owned(),
                    ),
                );
            }
            let mut j = off;
            while j < chars.len() && chars[j] != 0
                invariant
                    off <= j <= chars@.len(),
                decreases chars@.len() - j,
            {
                j = j + 1;
            }
            if j >= chars.len() {
                return Err(
                    AssetParseError::InvalidDataViews(
                        "A value has no NUL terminator.".to_owned(),
                    ),
                );
            }
            let units = vstd::slice::slice_to_vec(
                vstd::slice::slice_subrange(chars.as_slice(), off, j),
            );
            let val = match utf16_owned(units.as_slice()) {
                Some(s) => s,
                None => {
                    return Err(
                        AssetParseError::InvalidDataViews(
                            "A value is not well-formed UTF-16.".to_owned(),
                        ),
                    );
                },
            };
            let mut replaced = false;
            let mut k: usize = 0;
            while k < values_map.len() && !replaced
                invariant
                    0 <= k <= values_map@.len(),
                decreases values_map@.len() - k,
            {
                if values_map[k].0 == hash {
                    crate::bnl::vec_set_pair_u16(&mut values_map, k, (hash, val.clone()));
                    replaced = true;
                }
                k = k + 1;
            }
            if !replaced {
                values_map.push((hash, val));
            }
            vi = vi + 1;
        }

        // The key locators: each names a hash and where its NUL-terminated
        // UTF-8 key starts inside the key character region.
        if keys_ptr as u64 + 8 > llen as u64 {
            return Err(AssetParseError::InputTooSmall);
        }
        let keys_size = crate::bytes::read_u32_le(lsbl, keys_ptr as usize);
        let keys_len = crate::bytes::read_u32_le(lsbl, keys_ptr as usize + 4);
        if (keys_size as u64) < 8 + 8 * keys_len as u64 {
            return Err(
                AssetParseError::InvalidDataViews(
                    "The key list declares too small a size.".to_owned(),
                ),
            );
        }
        let kc_start64: u64 = keys_ptr as u64 + 8 + 8 * keys_len as u64;
        let kc_len64: u64 = keys_size as u64 - 8 - 8 * keys_len as u64;
        if kc_start64 + kc_len64 > llen as u64 {
            return Err(AssetParseError::InputTooSmall);
        }
        let kc_start = kc_start64 as usize;
        let kc_len = kc_len64 as usize;

        let mut pairs: Vec<(String, String)> = Vec::new();
        let mut used: Vec<bool> = Vec::new();
        let mut ui: usize = 0;
        while ui < values_map.len()
            invariant
                0 <= ui <= values_map@.len(),
                used@.len() == ui,
            decreases values_map@.len() - ui,
        {
            used.push(false);
            ui = ui + 1;
        }

        let mut ki: usize = 0;
        while ki < keys_len as usize
            invariant
                0 <= ki <= keys_len,
                used@.len() == values_map@.len(),
            decreases keys_len as usize - ki,
        {
            let e = keys_ptr as usize + 8 + 8 * ki;
            let hash = crate::bytes::read_u16_le(lsbl, e);
            let off = crate::bytes::read_u32_le(lsbl, e + 4) as usize;
            if off as u64 >= kc_len as u64 {
                return Err(
                    AssetParseError::InvalidDataViews(
                        "A key starts outside the key character region.".to_owned(),
                    ),
                );
            }
            let mut j = off;
            while j < kc_len && lsbl[kc_start + j] != 0
                invariant
                    off <= j <= kc_len,
                decreases kc_len - j,
            {
                j = j + 1;
            }
            if j >= kc_len {
                return Err(
                    AssetParseError::InvalidDataViews(
                        "A key has no NUL terminator.".to_owned(),
                    ),
                );
            }
            if j == off {
                return Err(
                    AssetParseError::InvalidDataViews(
                        "A key terminates instantly.".to_owned(),
                    ),
                );
            }
            let key_bytes = vstd::slice::slice_to_vec(
                vstd::slice::slice_subrange(lsbl, kc_start + off, kc_start + j),
            );
            let key = match crate::asset::utf8_owned(key_bytes.as_slice()) {
                Some(s) => s,
                None => {
                    return Err(AssetParseError::ErrorParsingDescriptor);
                },
            };

            // The key consumes the value carrying its hash; a second key
            // with the same hash has nothing left to pair with.
            let mut found = false;
            let mut k: usize = 0;
            while k < values_map.len() && !found
                invariant
                    0 <= k <= values_map@.len(),
                    used@.len() == values_map@.len(),
                decreases values_map@.len() - k,
            {
                if values_map[k].0 == hash && !used[k] {
                    pairs.push((key.clone(), values_map[k].1.clone()));
                    used.set(k, true);
                    found = true;
                }
                k = k + 1;
            }
            if !found {
                return Err(
                    AssetParseError::InvalidDataViews(
                        "A key has no value carrying its hash.".to_owned(),
                    ),
                );
            }
            ki = ki + 1;
        }

        Ok(LoctextResource { values: pairs })
    }
}

} // verus!
