//! Reads through the virtual addressing layer.

use bnl::VirtualResource;
use bnl::VirtualResourceError;

fn make_data() -> Vec<u8> {
    let mut v = Vec::new();
    for i in 0..1000usize {
        v.push(i as u8);
    }
    v
}

#[test]
fn read_across_slices() {
    let data = make_data();

    let slices = vec![
        data[0..100].to_vec(),
        data[200..300].to_vec(),
        data[400..500].to_vec(),
        data[600..700].to_vec(),
    ];

    let virtual_res = VirtualResource::from_slices(slices);

    let bytes = virtual_res.get_bytes(180, 200).unwrap();

    assert_eq!(bytes[0..20], data[280..300]);
    assert_eq!(bytes[20..120], data[400..500]);
    assert_eq!(bytes[120..200], data[600..680]);
}

#[test]
fn read_inside_one_slice() {
    let data = make_data();
    let slices = vec![data[0..100].to_vec(), data[100..200].to_vec()];
    let vr = VirtualResource::from_slices(slices);
    assert_eq!(vr.len(), 200);
    assert!(!vr.is_empty());
    assert_eq!(vr.get_bytes(10, 20).unwrap(), data[10..30].to_vec());
    assert_eq!(vr.get_all_bytes(), data[0..200].to_vec());
}

#[test]
fn read_offset_out_of_bounds() {
    let slices = vec![vec![1u8, 2, 3], vec![4u8, 5]];
    let vr = VirtualResource::from_slices(slices);
    assert_eq!(
        vr.get_bytes(6, 0),
        Err(VirtualResourceError::OffsetOutOfBounds)
    );
}

#[test]
fn read_size_out_of_bounds() {
    let slices = vec![vec![1u8, 2, 3], vec![4u8, 5]];
    let vr = VirtualResource::from_slices(slices);
    assert_eq!(
        vr.get_bytes(3, 3),
        Err(VirtualResourceError::SizeOutOfBounds)
    );
}

#[test]
fn read_whole_resource_exactly() {
    let slices = vec![vec![9u8], vec![], vec![7u8, 8]];
    let vr = VirtualResource::from_slices(slices);
    assert_eq!(vr.len(), 3);
    assert_eq!(vr.get_bytes(0, 3).unwrap(), vec![9u8, 7, 8]);
    assert_eq!(vr.get_bytes(3, 0).unwrap(), Vec::<u8>::new());
}
