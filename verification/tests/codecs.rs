//! The per-kind codecs and utilities.

use bnl::asset::aidlist::AidListDescriptor;
use bnl::asset::cuelist::{CueGroup, CueListDescriptor};
use bnl::asset::loctext::LoctextResource;
use bnl::asset::script::ScriptDescriptor;
use bnl::asset::script_ops::KnownOpcode;
use bnl::asset::texture::TextureDescriptor;
use bnl::asset::AssetDescriptor;
use bnl::asset::AssetParseError;
use bnl::d3d::{D3DFormat, StandardFormat};
use bnl::utils::bitstream::BitStream;
use bnl::xsb::{WaveBankMiniWaveFormat1, WaveBankMiniWaveFormat3};
use bnl::{DataView, DataViewList, VirtualResourceError};

#[test]
fn from_bytes_non_zero_offset() {
    let data: [u8; 0x1C] = [
        0x0C, 0x00, 0x00, 0x00, // DXT1
        0x1C, 0x00, 0x00, 0x00, // Header size
        0x80, 0x00, // 0x80 wide
        0x80, 0x00, // 0x80 high
        0x00, 0x00, 0x00, 0x08, // Flags
        0x00, 0x01, 0x00, 0x00, // Unknown
        0x00, 0x52, 0x01, 0x00, // Offset
        0x00, 0x2B, 0x00, 0x00, // Size
    ];

    let tex_desc = TextureDescriptor::from_bytes(&data).unwrap();
    assert_eq!(tex_desc.format(), D3DFormat::Standard(StandardFormat::DXT1));
    assert_eq!(tex_desc.header_size(), 0x1c);
    assert_eq!(tex_desc.width(), 0x80);
    assert_eq!(tex_desc.height(), 0x80);
    assert_eq!(tex_desc.texture_offset(), 0x15200);
    assert_eq!(tex_desc.texture_size(), 0x2b00);
}

#[test]
fn from_bytes_zero_offset() {
    let data: [u8; 0x1C] = [
        0x0C, 0x00, 0x00, 0x00, // DXT1
        0x1C, 0x00, 0x00, 0x00, // Header size
        0x80, 0x00, // 0x80 wide
        0x80, 0x00, // 0x80 high
        0x00, 0x00, 0x00, 0x08, // Flags
        0x00, 0x01, 0x00, 0x00, // Unknown
        0x00, 0x00, 0x00, 0x00, // Offset
        0x00, 0x2B, 0x00, 0x00, // Size
    ];

    let tex_desc = TextureDescriptor::from_bytes(&data).unwrap();
    assert_eq!(tex_desc.format(), D3DFormat::Standard(StandardFormat::DXT1));
    assert_eq!(tex_desc.header_size(), 0x1c);
    assert_eq!(tex_desc.width(), 0x80);
    assert_eq!(tex_desc.height(), 0x80);
    assert_eq!(tex_desc.texture_offset(), 0);
    assert_eq!(tex_desc.texture_size(), 0x2b00);
}

#[test]
fn texture_descriptor_round_trip() {
    let data: [u8; 0x1C] = [
        0x0C, 0x00, 0x00, 0x00, 0x1C, 0x00, 0x00, 0x00, 0x80, 0x00, 0x80, 0x00, 0x00, 0x00, 0x00,
        0x08, 0x00, 0x01, 0x00, 0x00, 0x00, 0x52, 0x01, 0x00, 0x00, 0x2B, 0x00, 0x00,
    ];
    let tex_desc = TextureDescriptor::from_bytes(&data).unwrap();
    let back = tex_desc.serialize();
    assert_eq!(back, data.to_vec());
}

#[test]
fn texture_descriptor_too_small() {
    let r = TextureDescriptor::from_bytes(&[0u8; 4]);
    assert!(matches!(r, Err(AssetParseError::InputTooSmall)));
}

#[test]
fn cue_list_iterator() {
    let cue_counts = [3usize, 1, 2, 4];

    let mut cues = vec![];

    let mut groups: Vec<CueGroup> = Vec::new();
    for (i, cue_count) in cue_counts.iter().enumerate() {
        let group_num = i + 1;
        let group_name = format!("group{}", group_num);
        let mut group_cues = Vec::new();
        for cue_i in 0..*cue_count {
            let cue_name = format!("{}cue{}", group_name, cue_i + 1);
            cues.push((group_name.clone(), cue_name.clone()));
            group_cues.push(cue_name);
        }
        groups.push(CueGroup::new(group_name.clone(), Some(group_cues)));
    }

    let cue_list_descriptor = CueListDescriptor::from_groups(groups);

    let mut collected: Vec<(String, String)> = Vec::new();
    let mut it = cue_list_descriptor.cues();
    while let Some((g, c)) = it.next() {
        collected.push((g, c));
    }

    assert_eq!(collected, cues);
}

#[test]
fn cue_list_round_trip_and_lookup() {
    let groups = vec![
        CueGroup::new("alpha".to_string(), Some(vec!["one".to_string(), "two".to_string()])),
        CueGroup::new("beta".to_string(), Some(vec!["three".to_string()])),
    ];
    let desc = CueListDescriptor::from_groups(groups);
    assert!(desc.validate());
    let bytes = desc.to_bytes().unwrap();
    assert_eq!(bytes, b"alpha\tone\nalpha\ttwo\nbeta\tthree".to_vec());
    let back = CueListDescriptor::from_bytes(&bytes).unwrap();
    assert_eq!(back.groups().len(), 2);
    assert_eq!(back.get_cue("three"), Some(("beta".to_string(), "three".to_string())));
    assert_eq!(back.get_cue("absent"), None);
}

#[test]
fn chapter_name_hashes() {
    assert_eq!(LoctextResource::hash_loctext_key("chaptername__1"), 0x1d1);
    assert_eq!(LoctextResource::hash_loctext_key("chaptername__2"), 0x1d2);
    assert_eq!(LoctextResource::hash_loctext_key("chaptername__3"), 0x1d3);
    assert_eq!(LoctextResource::hash_loctext_key("chaptername__4"), 0x1d4);
    assert_eq!(LoctextResource::hash_loctext_key("chaptername__5"), 0x1d5);
    assert_eq!(LoctextResource::hash_loctext_key("chapternumber__1"), 0xe21);
    assert_eq!(LoctextResource::hash_loctext_key("chapternumber__2"), 0xe22);
    assert_eq!(LoctextResource::hash_loctext_key("chapternumber__3"), 0xe23);
    assert_eq!(LoctextResource::hash_loctext_key("chapternumber__4"), 0xe24);
    assert_eq!(LoctextResource::hash_loctext_key("chapternumber__5"), 0xe25);
}

#[test]
fn bitreader_offset() {
    const BYTES: [u8; 4] = [0b11100000, 0b10101001, 0b00000010, 0b11111111];

    let stream = BitStream::new(&BYTES);

    let value = stream.get_u8(0, 5).unwrap();

    assert_eq!(value, 0b01001111);
}

#[test]
fn bitreader_quaternion() {
    const BYTES: [u8; 0x08] = [
        0b10100010, 0b11100010, 0b11111010, 0b10011010, 0b11000110, 0b1000010, 0b10, 0b10,
    ];

    let stream = BitStream::new(&BYTES);

    assert_eq!(stream.get_bits(0, 11).unwrap(), 674);
    assert_eq!(stream.get_bits(11, 13).unwrap(), 8028);
}

#[test]
fn bitreader_read() {
    const BYTES: [u8; 0x08] = [
        0b10100010, 0b11100010, 0b11111010, 0b10011010, 0b11000110, 0b1000010, 0b10, 0b10,
    ];

    let mut stream = BitStream::new(&BYTES);

    assert_eq!(stream.read(11).unwrap(), 674);
    assert_eq!(stream.read(13).unwrap(), 8028);
    assert_eq!(stream.read(9).unwrap(), 154);
}

#[test]
fn wavebank_mini_format_de_mono() {
    let dword = u32::from_le_bytes([0x44, 0xc4, 0x0a, 0x80]);

    let format = WaveBankMiniWaveFormat3::new(dword);

    assert_eq!(format.num_channels, 1, "Should be mono.");
    assert_eq!(format.format_tag, 0, "Format should be PCM.");
    assert_eq!(format.samples_per_sec, 22050, "Sample rate should be 22050.");

    assert!(format.uses_wide_format, "Wide format should be true.")
}

#[test]
fn wavebank_mini_format_de_stereo() {
    let dword = u32::from_le_bytes([0x88, 0x88, 0x15, 0x80]);

    let format = WaveBankMiniWaveFormat3::new(dword);

    assert_eq!(format.num_channels, 2, "Should be stereo.");
    assert_eq!(format.format_tag, 0, "Shouldn't be compressed.");
    assert_eq!(format.samples_per_sec, 44100, "Sample rate should be 44100.");

    assert!(format.uses_wide_format, "Wide format should be true.")
}

#[test]
fn data_view_list_round_trip() {
    let dvl = DataViewList {
        size: 24,
        num_views: 2,
        views: vec![
            DataView { offset: 0, size: 10 },
            DataView { offset: 10, size: 5 },
        ],
    };
    let bytes = dvl.to_bytes();
    assert_eq!(bytes.len(), 24);
    let back = DataViewList::from_bytes(&bytes).unwrap();
    assert_eq!(back.size, 24);
    assert_eq!(back.num_views, 2);
    assert_eq!(back.views, dvl.views);
}

#[test]
fn data_view_list_slices_and_bounds() {
    let pool: Vec<u8> = (0u8..20).collect();
    let dvl = DataViewList {
        size: 24,
        num_views: 2,
        views: vec![
            DataView { offset: 2, size: 3 },
            DataView { offset: 10, size: 4 },
        ],
    };
    let slices = dvl.slices(&pool).unwrap();
    assert_eq!(slices, vec![vec![2u8, 3, 4], vec![10u8, 11, 12, 13]]);

    let bad_offset = DataViewList {
        size: 16,
        num_views: 1,
        views: vec![DataView { offset: 21, size: 0 }],
    };
    assert_eq!(
        bad_offset.slices(&pool),
        Err(VirtualResourceError::OffsetOutOfBounds)
    );

    let bad_size = DataViewList {
        size: 16,
        num_views: 1,
        views: vec![DataView { offset: 18, size: 5 }],
    };
    assert_eq!(
        bad_size.slices(&pool),
        Err(VirtualResourceError::SizeOutOfBounds)
    );
}

#[test]
fn data_view_overlaps() {
    let a = DataView { offset: 0, size: 10 };
    let b = DataView { offset: 9, size: 1 };
    let c = DataView { offset: 10, size: 1 };
    assert!(a.overlaps(&b));
    assert!(!a.overlaps(&c));
    assert_eq!(a.as_range(), 0u64..10u64);
}

#[test]
fn aid_list_round_trip() {
    let mut field_a = [0u8; 128];
    field_a[..5].copy_from_slice(b"aid_a");
    let mut field_b = [0u8; 128];
    field_b[..5].copy_from_slice(b"aid_b");

    let desc = AidListDescriptor::from_ids(vec![field_a, field_b]);
    let bytes = desc.serialize();
    assert_eq!(bytes.len(), 256);
    let back = AidListDescriptor::from_bytes(&bytes).unwrap();
    assert_eq!(back.ids().len(), 2);
    assert_eq!(back.ids()[0][..5], b"aid_a"[..]);

    let r = AidListDescriptor::from_bytes(&[0u8; 100]);
    assert!(matches!(r, Err(AssetParseError::InvalidDataViews(_))));
}

#[test]
fn script_parse_and_serialize() {
    // One operation: opcode 7 with four operand bytes, then end of script.
    let mut bytes = vec![12, 0, 0, 0, 7, 0, 0, 0, 0xDE, 0xAD, 0xBE, 0xEF];
    bytes.extend_from_slice(&[8, 0, 0, 0, 0, 0, 0, 0]);

    let desc = ScriptDescriptor::from_bytes(&bytes).unwrap();
    let ops = desc.operations();
    assert_eq!(ops.len(), 2);
    assert_eq!(ops[0].size(), 12);
    assert_eq!(
        ops[0].operand_bytes().as_slice(),
        &[0xDEu8, 0xAD, 0xBE, 0xEF][..]
    );
    assert_eq!(
        KnownOpcode::SetPlayerHealth.code(),
        7,
        "the sample opcode is a known one"
    );

    let back = desc.to_bytes().unwrap();
    assert_eq!(back, bytes);

    // A script whose terminator record declares the wrong size is refused.
    let bad = vec![9, 0, 0, 0, 0, 0, 0, 0];
    assert!(ScriptDescriptor::from_bytes(&bad).is_err());
    // A truncated script is refused.
    assert!(ScriptDescriptor::from_bytes(&[12, 0, 0, 0, 7, 0, 0, 0]).is_err());
}

#[test]
fn loctext_table_decodes() {
    // A demand header pointing at a minimal table with one key-value pair.
    let mut b = vec![0u8; 28];
    b[16..20].copy_from_slice(&28u32.to_le_bytes()); // table header pointer
    b.extend_from_slice(&4u32.to_le_bytes()); // body pointer within the header

    let mut lsbl = Vec::new();
    lsbl.extend_from_slice(b"LSBL");
    lsbl.extend_from_slice(&28u32.to_le_bytes()); // values pointer
    lsbl.extend_from_slice(&[0u8; 8]);
    lsbl.extend_from_slice(&54u32.to_le_bytes()); // keys pointer
    lsbl.extend_from_slice(&0u32.to_le_bytes());
    lsbl.extend_from_slice(&73u32.to_le_bytes()); // hash list pointer
    // Values: one locator, then the sentinel and the UTF-16 characters.
    lsbl.extend_from_slice(&0u32.to_le_bytes());
    lsbl.extend_from_slice(&1u32.to_le_bytes());
    lsbl.extend_from_slice(&0xABu16.to_le_bytes());
    lsbl.extend_from_slice(&0u32.to_le_bytes());
    lsbl.extend_from_slice(&0xFFFFu16.to_le_bytes());
    lsbl.extend_from_slice(&3u32.to_le_bytes());
    for unit in [0x48u16, 0x69, 0] {
        lsbl.extend_from_slice(&unit.to_le_bytes());
    }
    // Keys: one locator, then the UTF-8 characters.
    lsbl.extend_from_slice(&19u32.to_le_bytes());
    lsbl.extend_from_slice(&1u32.to_le_bytes());
    lsbl.extend_from_slice(&0xABu16.to_le_bytes());
    lsbl.extend_from_slice(&1u16.to_le_bytes());
    lsbl.extend_from_slice(&0u32.to_le_bytes());
    lsbl.extend_from_slice(b"ab\0");
    // Hash list: one entry.
    lsbl.extend_from_slice(&10u32.to_le_bytes());
    lsbl.extend_from_slice(&1u32.to_le_bytes());
    lsbl.extend_from_slice(&0xABu16.to_le_bytes());

    b.extend_from_slice(&lsbl);

    let res = LoctextResource::from_bytes(&b).unwrap();
    assert_eq!(res.values().len(), 1);
    assert_eq!(res.values()[0], ("ab".to_string(), "Hi".to_string()));

    // A truncated table never panics, it is refused.
    assert!(LoctextResource::from_bytes(&b[..40]).is_err());
    assert!(LoctextResource::from_bytes(&[]).is_err());
}

#[test]
fn wavebank_mini_format_first_layout() {
    // Bit 0 is the compression tag; the channel count starts at bit 1.
    let format = WaveBankMiniWaveFormat1::new(2);
    assert_eq!(format.num_channels, 1);
    assert!(!format.is_compressed);

    let format = WaveBankMiniWaveFormat1::new(1 | (2 << 1) | (22050 << 4));
    assert!(format.is_compressed);
    assert_eq!(format.num_channels, 2);
    assert_eq!(format.samples_per_sec, 22050);
    assert!(!format.uses_wide_format);
}

#[test]
fn opcode_param_shapes() {
    assert_eq!(KnownOpcode::EndScript.param_shape().len(), 0);
    assert_eq!(KnownOpcode::UpdateDoor.param_shape().len(), 4);
    let shape = KnownOpcode::SetPlayerHealth.param_shape();
    assert_eq!(shape.len(), 1);
    assert_eq!(shape[0].0, "health");
    assert_eq!(shape[0].1.param_type().size(), 4);
}

#[test]
fn get_cue_returns_the_first_group() {
    let groups = vec![
        CueGroup::new("early".to_string(), Some(vec!["shared".to_string()])),
        CueGroup::new("late".to_string(), Some(vec!["shared".to_string()])),
    ];
    let desc = CueListDescriptor::from_groups(groups);
    assert_eq!(
        desc.get_cue("shared"),
        Some(("early".to_string(), "shared".to_string()))
    );
}
