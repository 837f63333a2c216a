//! The archive container: encode, decode, and the typed-asset bridge.

use bnl::asset::script::Script;
use bnl::asset::texture::Texture;
use bnl::asset::{asset_name_from_bytes, AssetError, AssetMetadata, AssetType};
use bnl::asset::param::KnownUnknown;
use bnl::asset::script::ScriptOperation;
use bnl::asset::script_ops::KnownOpcode;
use bnl::BNLError;
use bnl::BNLFile;
use bnl::RawAsset;

fn meta(name: &str, ty: AssetType) -> AssetMetadata {
    AssetMetadata::new(asset_name_from_bytes(name.as_bytes()), ty, 7, 9)
}

/// A minimal valid script descriptor: the end-of-script record alone.
fn end_script_bytes() -> Vec<u8> {
    vec![8, 0, 0, 0, 0, 0, 0, 0]
}

#[test]
fn archive_round_trip() {
    let mut bnl = BNLFile::default();
    bnl.append_raw_asset(RawAsset::new(
        meta("aid_script_a_b_c", AssetType::ResScript),
        end_script_bytes(),
        Some(vec![vec![1u8, 2, 3], vec![4u8, 5]]),
    ));
    bnl.append_raw_asset(RawAsset::new(
        meta("aid_misc_d_e_f", AssetType::ResMisc),
        vec![0xAAu8, 0xBB],
        None,
    ));

    let bytes = bnl.to_bytes();
    let decoded = BNLFile::from_bytes(&bytes).expect("decoding an encoded archive");

    let assets = decoded.get_raw_assets();
    assert_eq!(assets.len(), 2);

    assert_eq!(assets[0].name(), "aid_script_a_b_c");
    assert_eq!(assets[0].metadata().asset_type(), AssetType::ResScript);
    assert_eq!(assets[0].metadata().unk_1(), 7);
    assert_eq!(assets[0].descriptor_bytes().as_slice(), &end_script_bytes()[..]);
    let chunks = assets[0].resource_chunks().expect("chunks survive");
    assert_eq!(chunks.len(), 2);
    assert_eq!(chunks[0], vec![1u8, 2, 3]);
    assert_eq!(chunks[1], vec![4u8, 5]);

    assert_eq!(assets[1].name(), "aid_misc_d_e_f");
    assert_eq!(assets[1].metadata().asset_type(), AssetType::ResMisc);
    assert_eq!(assets[1].descriptor_bytes().as_slice(), &[0xAAu8, 0xBB][..]);
    assert!(assets[1].resource_chunks().is_none());
}

#[test]
fn archive_double_round_trip_is_stable() {
    let mut bnl = BNLFile::default();
    bnl.append_raw_asset(RawAsset::new(
        meta("aid_misc_x_y_z", AssetType::ResMisc),
        vec![1u8, 2, 3, 4],
        Some(vec![vec![5u8; 10]]),
    ));
    let bytes1 = bnl.to_bytes();
    let mut decoded1 = BNLFile::from_bytes(&bytes1).unwrap();
    let bytes2 = decoded1.to_bytes();
    assert_eq!(bytes1, bytes2);
}

#[test]
fn decode_rejects_short_input() {
    let r = BNLFile::from_bytes(&[0u8; 10]);
    assert!(matches!(r, Err(BNLError::DataReadError(_))));
}

#[test]
fn decode_rejects_bad_compression() {
    let mut bytes = vec![0u8; 40];
    bytes.extend_from_slice(&[1u8, 2, 3, 4, 5]);
    let r = BNLFile::from_bytes(&bytes);
    assert!(matches!(r, Err(BNLError::DecompressionFailure)));
}

#[test]
fn lookup_type_mismatch_is_not_a_parse_error() {
    let mut bnl = BNLFile::default();
    bnl.append_raw_asset(RawAsset::new(
        meta("aid_script_a_b_c", AssetType::ResScript),
        end_script_bytes(),
        None,
    ));

    // The entry exists, its descriptor bytes even parse as a script, but
    // the requested kind is a texture: the failure must be a type
    // mismatch.
    let r = bnl.get_asset::<Texture>("aid_script_a_b_c");
    assert!(matches!(r, Err(AssetError::TypeMismatch)));

    let missing = bnl.get_asset::<Script>("aid_absent");
    assert!(matches!(missing, Err(AssetError::NotFound)));

    let ok = bnl.get_asset::<Script>("aid_script_a_b_c");
    assert!(ok.is_ok());
}

#[test]
fn empty_resource_decodes_to_no_chunks() {
    let mut bnl = BNLFile::default();
    bnl.append_raw_asset(RawAsset::new(
        meta("aid_script_a_b_c", AssetType::ResScript),
        end_script_bytes(),
        None,
    ));
    let bytes = bnl.to_bytes();
    let decoded = BNLFile::from_bytes(&bytes).unwrap();
    let raw = decoded.get_raw_asset("aid_script_a_b_c").unwrap();
    assert!(raw.resource_chunks().is_none());

    let asset = bnl.get_asset::<Script>("aid_script_a_b_c").unwrap();
    assert!(bnl::asset::AssetLike::get_resource_chunks(&asset.asset).is_none());
}

#[test]
fn append_modify_remove() {
    let mut bnl = BNLFile::default();
    bnl.append_raw_asset(RawAsset::new(
        meta("aid_script_a_b_c", AssetType::ResScript),
        end_script_bytes(),
        Some(vec![vec![42u8; 4]]),
    ));

    // Appended entries survive a full encode-decode cycle.
    let bytes = bnl.to_bytes();
    let decoded = BNLFile::from_bytes(&bytes).unwrap();
    let raw = decoded.get_raw_asset("aid_script_a_b_c").unwrap();
    assert_eq!(raw.descriptor_bytes().as_slice(), &end_script_bytes()[..]);
    assert_eq!(raw.resource_chunks().unwrap()[0], vec![42u8; 4]);

    // A modification through the typed bridge lands in the stored entry.
    bnl.modify_asset::<Script, _>("aid_script_a_b_c", |a| Ok(a))
        .expect("modify in place");
    assert_eq!(bnl.get_raw_assets().len(), 1);

    // Removal hands the entry back and leaves the archive without it.
    let removed = bnl.remove_asset("aid_script_a_b_c").unwrap();
    assert_eq!(removed.name(), "aid_script_a_b_c");
    assert!(bnl.get_raw_asset("aid_script_a_b_c").is_none());
    assert!(matches!(
        bnl.remove_asset("aid_script_a_b_c"),
        Err(AssetError::NotFound)
    ));
}

#[test]
fn to_asset_round_trips_metadata() {
    let raw = RawAsset::new(
        meta("aid_script_q_r_s", AssetType::ResScript),
        end_script_bytes(),
        Some(vec![vec![1u8]]),
    );
    let asset = raw.to_asset::<Script>().unwrap();
    let back = asset.to_raw_asset().unwrap();
    assert_eq!(back.name(), "aid_script_q_r_s");
    assert_eq!(back.metadata().asset_type(), AssetType::ResScript);
}

#[test]
fn get_assets_skips_entries_of_other_types() {
    let mut bnl = BNLFile::default();
    bnl.append_raw_asset(RawAsset::new(
        meta("aid_script_a_b_c", AssetType::ResScript),
        end_script_bytes(),
        None,
    ));
    bnl.append_raw_asset(RawAsset::new(
        meta("aid_misc_d_e_f", AssetType::ResMisc),
        vec![],
        None,
    ));
    let scripts = bnl.get_assets::<Script>();
    assert_eq!(scripts.len(), 1);
}

#[test]
fn empty_archive_round_trips() {
    let mut bnl = BNLFile::default();
    let bytes = bnl.to_bytes();
    let decoded = BNLFile::from_bytes(&bytes).unwrap();
    assert_eq!(decoded.get_raw_assets().len(), 0);
}

#[test]
fn decode_never_panics_on_noise() {
    // Headers full of out-of-range offsets must come back as errors.
    for seed in 0u8..8 {
        let mut bytes = vec![seed.wrapping_mul(37); 64];
        bytes[0] = 0xFF;
        bytes[1] = 0xFF;
        assert!(BNLFile::from_bytes(&bytes).is_err());
    }
}

#[test]
fn mod_overrides_replace_descriptor_bytes() {
    let mut bnl = BNLFile::default();
    bnl.append_raw_asset(RawAsset::new(
        meta("aid_misc_d_e_f", AssetType::ResMisc),
        vec![1u8, 2],
        None,
    ));
    let m = bnl::modding::Mod::new(
        bnl::modding::ModSpecification {
            version: 1,
            name: "sample".to_string(),
        },
        vec![(
            "aid_misc_d_e_f".to_string(),
            bnl::modding::AssetOverride {
                descriptor_bytes: vec![9u8, 9, 9],
                resource_bytes: Vec::new(),
            },
        )],
    );
    let applied = m.apply(&mut bnl).unwrap();
    assert_eq!(applied, 1);
    let raw = bnl.get_raw_asset("aid_misc_d_e_f").unwrap();
    assert_eq!(raw.descriptor_bytes().as_slice(), &[9u8, 9, 9][..]);
}

#[test]
fn modify_asset_applies_the_change() {
    let mut bnl = BNLFile::default();
    bnl.append_raw_asset(RawAsset::new(
        meta("aid_script_a_b_c", AssetType::ResScript),
        end_script_bytes(),
        None,
    ));

    bnl.modify_asset::<Script, _>("aid_script_a_b_c", |mut a| {
        a.asset.descriptor_mut().operations_mut().insert(
            0,
            ScriptOperation::new(
                12,
                KnownUnknown::Known(KnownOpcode::SetPlayerHealth),
                vec![5, 0, 0, 0],
            ),
        );
        Ok(a)
    })
    .unwrap();

    // The stored entry now carries the changed serialized script: the new
    // operation, then the end-of-script record.
    let raw = bnl.get_raw_asset("aid_script_a_b_c").unwrap();
    let mut expected = vec![12u8, 0, 0, 0, 7, 0, 0, 0, 5, 0, 0, 0];
    expected.extend_from_slice(&end_script_bytes());
    assert_eq!(raw.descriptor_bytes().as_slice(), &expected[..]);

    // Decoding it as a script again yields the changed operations.
    let changed = bnl.get_asset::<Script>("aid_script_a_b_c").unwrap();
    let back = changed.to_raw_asset().unwrap();
    assert_eq!(back.descriptor_bytes().as_slice(), &expected[..]);
}
