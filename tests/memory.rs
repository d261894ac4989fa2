use postmouse_autosplitter::memory::{decode_le, MemoryImage, Region};
use postmouse_autosplitter::monitor::LOAD_STATE_PATH;

fn region(base: u64, bytes: Vec<u8>) -> Region {
    Region { base, bytes }
}

fn pointer(at: u64, value: u64) -> Region {
    region(at, value.to_le_bytes().to_vec())
}

/// Pointers laid out so that the load-state chain from 0x1000 ends at 0x7350.
fn chain_regions(flag: u32) -> Vec<Region> {
    vec![
        pointer(0x1000, 0x2000),
        pointer(0x2180, 0x3000),
        pointer(0x3038, 0x4000),
        pointer(0x4000, 0x5000),
        pointer(0x5030, 0x6000),
        pointer(0x6250, 0x7000),
        region(0x7350, flag.to_le_bytes().to_vec()),
    ]
}

#[test]
fn decodes_little_endian() {
    assert_eq!(decode_le(&[]), 0);
    assert_eq!(decode_le(&[0x34, 0x12]), 0x1234);
    assert_eq!(decode_le(&[0x78, 0x56, 0x34, 0x12]), 0x1234_5678);
    assert_eq!(decode_le(&[0xFF; 8]), u64::MAX);
}

#[test]
fn reads_bytes_across_regions() {
    let image = MemoryImage::new(vec![region(0x10, vec![1, 2, 3]), region(0x13, vec![4, 5])]);
    assert_eq!(image.read_bytes(0x11, 4), Some(vec![2, 3, 4, 5]));
    assert_eq!(image.read_bytes(0x11, 5), None);
    assert_eq!(image.read_bytes(0x0F, 1), None);
    assert_eq!(image.read_byte(0x14), Some(5));
    assert_eq!(image.read_le(0x10, 4), Some(0x0403_0201));
}

#[test]
fn earlier_region_wins() {
    let image = MemoryImage::new(vec![region(0x10, vec![7]), region(0x10, vec![9])]);
    assert_eq!(image.read_byte(0x10), Some(7));
}

#[test]
fn read_past_address_space_fails() {
    let image = MemoryImage::new(vec![region(u64::MAX - 1, vec![1, 2])]);
    assert_eq!(image.read_bytes(u64::MAX - 1, 2), Some(vec![1, 2]));
    assert_eq!(image.read_bytes(u64::MAX, 2), None);
}

#[test]
fn pointer_chain_reaches_flag() {
    let image = MemoryImage::new(chain_regions(0xABCD));
    assert_eq!(image.read_pointer_path(0x1000, &LOAD_STATE_PATH), Some(0xABCD));
}

#[test]
fn pointer_chain_null_hop_fails() {
    let mut regions = chain_regions(1);
    regions[3] = pointer(0x4000, 0);
    regions.push(region(0x0, vec![0u8; 0x1000]));
    let image = MemoryImage::new(regions);
    assert_eq!(image.read_pointer_path(0x1000, &LOAD_STATE_PATH), None);
}

#[test]
fn pointer_chain_unmapped_hop_fails() {
    let mut regions = chain_regions(1);
    regions.remove(4);
    let image = MemoryImage::new(regions);
    assert_eq!(image.read_pointer_path(0x1000, &LOAD_STATE_PATH), None);
}

#[test]
fn pointer_chain_unmapped_flag_fails() {
    let mut regions = chain_regions(1);
    regions.pop();
    let image = MemoryImage::new(regions);
    assert_eq!(image.read_pointer_path(0x1000, &LOAD_STATE_PATH), None);
}

#[test]
fn empty_and_single_paths() {
    let image = MemoryImage::new(vec![region(0x20, vec![5, 0, 0, 0])]);
    assert_eq!(image.read_pointer_path(0x20, &[]), None);
    assert_eq!(image.read_pointer_path(0x10, &[0x10]), Some(5));
}

#[test]
fn resolves_world_in_image() {
    let mut module = vec![0u8; 0x100];
    module.extend([0x80, 0x7C, 0x24, 0x00, 0x00, 0x90, 0x90, 0x48, 0x8B, 0x3D, 0x20, 0x00, 0x00, 0x00, 0x48]);
    module.extend(vec![0u8; 0x10]);
    let size = module.len();
    let image = MemoryImage::new(vec![region(0x40_0000, module)]);
    assert_eq!(image.resolve_world(0x40_0000, size), Some(0x40_012E));
    assert_eq!(image.resolve_world(0x40_0000, size + 1), None);
}
