//! The wavebank container: a small header, a table of fixed-size entries,
//! and a shared region of audio bytes that each entry addresses by offset
//! and size.

use vstd::prelude::*;

use crate::bytes::{le32, read_u32_le};

verus! {

/// Why a wavebank image could not be decoded: something it declares lies
/// outside the image.
#[derive(Debug, Clone, Copy, PartialEq, Eq, Structural)]
pub enum WavebankError {
    OutOfRange,
}

/// The byte width of one wavebank entry record.
pub const RAW_WAV_ENTRY_SIZE: usize = 24;

/// The packed one-word wave format, first layout: a compression flag, a
/// channel count, a sample rate and a width flag.
#[derive(Debug, Clone, Copy, PartialEq, Eq, Structural)]
pub struct WaveBankMiniWaveFormat1 {
    pub is_compressed: bool,
    pub num_channels: u8,
    pub samples_per_sec: u32,
    pub uses_wide_format: bool,
}

impl WaveBankMiniWaveFormat1 {
    /// Unpacks the one-word format, first layout: bit 0 the compression
    /// flag, bits 1 to 3 the channel count, the sample rate from bit 4
    /// (masked to 25 bits), bit 31 the width flag.
    pub fn new(dword: u32) -> (r: WaveBankMiniWaveFormat1)
        ensures
            r.is_compressed == ((dword & 1) == 1),
            r.num_channels == ((dword >> 1u32) & 7) as u8,
            r.samples_per_sec == (dword >> 4u32) & 0x1FF_FFFF,
            r.uses_wide_format == (((dword >> 31u32) & 1) == 1),
    {
        let is_compressed: bool = dword & 0x1 == 1;
        let num_channels: u8 = ((dword >> 1) & 0b111) as u8;
        let samples_per_sec: u32 = (dword >> 4) & 0x1FF_FFFF;
        let uses_wide_format: bool = ((dword >> 31) & 1u32) == 1;
        WaveBankMiniWaveFormat1 { is_compressed, num_channels, samples_per_sec, uses_wide_format }
    }
}

/// The packed one-word wave format, second layout: a two-bit format tag, a
/// channel count, an 18-bit sample rate, a block alignment and a width flag.
#[derive(Debug, Clone, Copy, PartialEq, Eq, Structural)]
pub struct WaveBankMiniWaveFormat3 {
    pub format_tag: u8,
    pub num_channels: u8,
    pub samples_per_sec: u32,
    pub block_align: u8,
    pub uses_wide_format: bool,
}

impl Default for WaveBankMiniWaveFormat3 {
    fn default() -> (r: WaveBankMiniWaveFormat3)
        ensures
            r.format_tag == 0,
            r.num_channels == 2,
            r.samples_per_sec == 44100,
            r.block_align == 200,
            r.uses_wide_format == true,
    {
        WaveBankMiniWaveFormat3 {
            format_tag: 0,
            num_channels: 2,
            samples_per_sec: 44100,
            block_align: 200,
            uses_wide_format: true,
        }
    }
}

impl WaveBankMiniWaveFormat3 {
    /// Unpacks the one-word format, second layout: bits 0 and 1 the format
    /// tag, bits 2 to 4 the channel count, bits 5 to 22 the sample rate,
    /// bits 23 to 30 the block alignment, bit 31 the width flag.
    pub fn new(dword: u32) -> (r: WaveBankMiniWaveFormat3)
        ensures
            r.format_tag == (dword & 3) as u8,
            r.num_channels == ((dword >> 2u32) & 7) as u8,
            r.samples_per_sec == (dword >> 5u32) & 0x3_FFFF,
            r.block_align == ((dword >> 23u32) & 0xFF) as u8,
            r.uses_wide_format == (((dword >> 31u32) & 1) == 1),
    {
        let format_tag: u8 = (dword & 0b11) as u8;
        let num_channels: u8 = ((dword >> 2) & 0b111) as u8;
        let samples_per_sec: u32 = (dword >> 5) & 0x3FFFF;
        let block_align: u8 = ((dword >> 23) & 0xFF) as u8;
        let uses_wide_format: bool = ((dword >> 31) & 1u32) == 1;
        WaveBankMiniWaveFormat3 {
            format_tag,
            num_channels,
            samples_per_sec,
            block_align,
            uses_wide_format,
        }
    }
}

/// One wave of a bank: its unpacked format and its owned audio bytes.
#[derive(Clone)]
pub struct WavFile {
    pub unknown_1: u32,
    pub format: WaveBankMiniWaveFormat3,
    pub bytes: Vec<u8>,
    pub unknown_2: u32,
    pub unknown_3: u32,
}

/// The number of entries a wavebank image declares.
pub open spec fn spec_wavebank_entry_count(b: Seq<u8>) -> nat
    recommends
        b.len() >= 40,
{
    le32(b.subrange(20, 24)) / 24
}

/// Whether everything a wavebank image declares lies inside it: the header,
/// its entry table, and every entry's audio bytes.
pub open spec fn spec_wavebank_layout_ok(b: Seq<u8>) -> bool {
    &&& b.len() >= 40
    &&& le32(b.subrange(16, 20)) + 24 * spec_wavebank_entry_count(b) <= b.len()
    &&& forall|i: int|
        0 <= i < spec_wavebank_entry_count(b) ==> (#[trigger] spec_wav_entry_start(b, i)) + 24
            <= b.len() && le32(b.subrange(32, 36)) + le32(
            b.subrange(spec_wav_entry_start(b, i) + 8, spec_wav_entry_start(b, i) + 12),
        ) + le32(b.subrange(spec_wav_entry_start(b, i) + 12, spec_wav_entry_start(b, i) + 16))
            <= b.len()
}

/// Where entry `i`'s record starts.
pub open spec fn spec_wav_entry_start(b: Seq<u8>, i: int) -> int {
    le32(b.subrange(16, 20)) + 24 * i
}

/// The mathematical content of one wave entry.
pub struct WavFileView {
    pub unknown_1: u32,
    pub format: WaveBankMiniWaveFormat3,
    pub bytes: Seq<u8>,
    pub unknown_2: u32,
    pub unknown_3: u32,
}

/// The wave entry `i` denotes: its opaque words, its unpacked format, and
/// its audio bytes cut from the shared data region.
pub open spec fn spec_wav_file(b: Seq<u8>, i: int) -> WavFileView
    recommends
        spec_wavebank_layout_ok(b),
        0 <= i < spec_wavebank_entry_count(b),
{
    let s = spec_wav_entry_start(b, i);
    let dword = le32(b.subrange(s + 4, s + 8)) as u32;
    let data_start = le32(b.subrange(32, 36)) + le32(b.subrange(s + 8, s + 12));
    let num_bytes = le32(b.subrange(s + 12, s + 16));
    WavFileView {
        unknown_1: le32(b.subrange(s, s + 4)) as u32,
        format: WaveBankMiniWaveFormat3 {
            format_tag: (dword & 3) as u8,
            num_channels: ((dword >> 2u32) & 7) as u8,
            samples_per_sec: (dword >> 5u32) & 0x3_FFFF,
            block_align: ((dword >> 23u32) & 0xFF) as u8,
            uses_wide_format: ((dword >> 31u32) & 1) == 1,
        },
        bytes: b.subrange(data_start as int, (data_start + num_bytes) as int),
        unknown_2: le32(b.subrange(s + 16, s + 20)) as u32,
        unknown_3: le32(b.subrange(s + 20, s + 24)) as u32,
    }
}

/// Decodes every wave of a wavebank image held in memory: succeeds exactly
/// when everything the image declares lies inside it, and then yields one
/// wave per declared entry, fields and audio bytes as the entry records
/// them.
pub fn wav_files_from_bytes(b: &[u8]) -> (r: Result<Vec<WavFile>, WavebankError>)
    ensures
        spec_wavebank_layout_ok(b@) <==> r is Ok,
        r matches Ok(v) ==> v@.len() == spec_wavebank_entry_count(b@) && (forall|i: int|
            0 <= i < v@.len() ==> {
                let e = spec_wav_file(b@, i);
                (#[trigger] v@[i]).unknown_1 == e.unknown_1 && v@[i].format == e.format
                    && v@[i].unknown_2 == e.unknown_2 && v@[i].unknown_3 == e.unknown_3
                    && v@[i].bytes@ == e.bytes
            }),
{
    if b.len() < 40 {
        return Err(WavebankError::OutOfRange);
    }
    let entries_ptr = read_u32_le(b, 16);
    let entries_size = read_u32_le(b, 20);
    let data_ptr = read_u32_le(b, 32);
    let num_entries = (entries_size / 24) as usize;

    if (entries_ptr as u64 + 24 * num_entries as u64) > b.len() as u64 {
        return Err(WavebankError::OutOfRange);
    }

    let mut out: Vec<WavFile> = Vec::new();
    let mut i: usize = 0;
    while i < num_entries
        invariant
            b@.len() >= 40,
            b@.len() <= usize::MAX,
            entries_ptr == le32(b@.subrange(16, 20)),
            entries_size == le32(b@.subrange(20, 24)),
            data_ptr == le32(b@.subrange(32, 36)),
            num_entries == spec_wavebank_entry_count(b@),
            entries_ptr + 24 * num_entries <= b@.len(),
            0 <= i <= num_entries,
            out@.len() == i,
            forall|k: int|
                0 <= k < i ==> (#[trigger] spec_wav_entry_start(b@, k)) + 24 <= b@.len() && le32(
                    b@.subrange(32, 36),
                ) + le32(
                    b@.subrange(spec_wav_entry_start(b@, k) + 8, spec_wav_entry_start(b@, k) + 12),
                ) + le32(
                    b@.subrange(spec_wav_entry_start(b@, k) + 12, spec_wav_entry_start(b@, k) + 16),
                ) <= b@.len(),
            forall|k: int|
                0 <= k < i ==> {
                    let e = spec_wav_file(b@, k);
                    (#[trigger] out@[k]).unknown_1 == e.unknown_1 && out@[k].format == e.format
                        && out@[k].unknown_2 == e.unknown_2 && out@[k].unknown_3 == e.unknown_3
                        && out@[k].bytes@ == e.bytes
                },
        decreases num_entries - i,
    {
        let s = entries_ptr as usize + 24 * i;
        proof {
            assert(s == spec_wav_entry_start(b@, i as int));
            assert(s + 24 <= b@.len());
        }
        let unknown_1 = read_u32_le(b, s);
        let raw_format = read_u32_le(b, s + 4);
        let bytes_ptr = read_u32_le(b, s + 8);
        let num_bytes = read_u32_le(b, s + 12);
        let unknown_2 = read_u32_le(b, s + 16);
        let unknown_3 = read_u32_le(b, s + 20);

        if (data_ptr as u64 + bytes_ptr as u64 + num_bytes as u64) > b.len() as u64 {
            return Err(WavebankError::OutOfRange);
        }
        let start = data_ptr as usize + bytes_ptr as usize;
        let audio = vstd::slice::slice_to_vec(
            vstd::slice::slice_subrange(b, start, start + num_bytes as usize),
        );
        let format = WaveBankMiniWaveFormat3::new(raw_format);
        let file = WavFile { unknown_1, format, bytes: audio, unknown_2, unknown_3 };
        out.push(file);
        i = i + 1;
    }
    Ok(out)
}

} // verus!
