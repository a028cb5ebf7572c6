use kernel_core::memory::multiboot2::{BootInfo, MemoryArea};

fn le32(x: u32) -> [u8; 4] {
    x.to_le_bytes()
}

fn sample() -> Vec<u8> {
    let mut bytes = Vec::new();
    // header: total size 8 + 16 + 64 + 8 = 96
    bytes.extend_from_slice(&le32(96));
    bytes.extend_from_slice(&le32(0));
    // a tag of type 1 and size 13, padded to 16
    bytes.extend_from_slice(&le32(1));
    bytes.extend_from_slice(&le32(13));
    bytes.extend_from_slice(&[b'q', b'u', b'i', b'e', b't', 0, 0, 0]);
    // memory map: two entries of 24 bytes
    bytes.extend_from_slice(&le32(6));
    bytes.extend_from_slice(&le32(16 + 48));
    bytes.extend_from_slice(&le32(24));
    bytes.extend_from_slice(&le32(0));
    bytes.extend_from_slice(&0x0000_0001_0000_0000u64.to_le_bytes());
    bytes.extend_from_slice(&0x0000_0000_8000_0000u64.to_le_bytes());
    bytes.extend_from_slice(&le32(1));
    bytes.extend_from_slice(&le32(0));
    bytes.extend_from_slice(&0x9_fc00u64.to_le_bytes());
    bytes.extend_from_slice(&0x400u64.to_le_bytes());
    bytes.extend_from_slice(&le32(2));
    bytes.extend_from_slice(&le32(7));
    // end tag
    bytes.extend_from_slice(&le32(0));
    bytes.extend_from_slice(&le32(8));
    assert_eq!(bytes.len(), 96);
    bytes
}

#[test]
fn parse_needs_a_header() {
    assert!(BootInfo::parse(&[]).is_none());
    assert!(BootInfo::parse(&[8, 0, 0, 0, 0, 0, 0]).is_none());
    assert!(BootInfo::parse(&[7, 0, 0, 0, 0, 0, 0, 0]).is_none());
    assert!(BootInfo::parse(&[9, 0, 0, 0, 0, 0, 0, 0]).is_none());
    let info = BootInfo::parse(&[8, 0, 0, 0, 0, 0, 0, 0]).unwrap();
    assert_eq!(info.total_size(), 8);
    assert!(info.memory_map_tag().is_none());
}

#[test]
fn parse_reads_the_size_little_endian() {
    let mut bytes = vec![0u8; 0x0102];
    bytes[0] = 0x02;
    bytes[1] = 0x01;
    let info = BootInfo::parse(&bytes).unwrap();
    assert_eq!(info.total_size(), 0x0102);
}

#[test]
fn find_tag_walks_aligned_tags() {
    let bytes = sample();
    let info = BootInfo::parse(&bytes).unwrap();
    assert_eq!(info.find_tag(1), Some(8));
    assert_eq!(info.find_tag(6), Some(24));
    assert_eq!(info.find_tag(9), None);
    // the end tag is never found: the walk stops at it
    assert_eq!(info.find_tag(0), None);
}

#[test]
fn memory_map_entries_are_decoded() {
    let bytes = sample();
    let info = BootInfo::parse(&bytes).unwrap();
    let tag = info.memory_map_tag().unwrap();
    let mut iter = tag.memory_areas();
    assert_eq!(
        iter.next(),
        Some(MemoryArea { base_addr: 0x1_0000_0000, length: 0x8000_0000, typ: 1, reserved: 0 })
    );
    assert_eq!(
        iter.next(),
        Some(MemoryArea { base_addr: 0x9_fc00, length: 0x400, typ: 2, reserved: 7 })
    );
    assert_eq!(iter.next(), None);
    assert_eq!(iter.next(), None);
}

#[test]
fn memory_map_behind_the_end_tag_is_not_found() {
    let mut bytes = sample();
    // turn the first tag into an end tag
    bytes[8] = 0;
    let info = BootInfo::parse(&bytes).unwrap();
    assert!(info.memory_map_tag().is_none());
}

#[test]
fn tag_of_size_zero_stops_the_walk() {
    let mut bytes = sample();
    bytes[12] = 0;
    let info = BootInfo::parse(&bytes).unwrap();
    assert_eq!(info.find_tag(6), None);
}

#[test]
fn truncated_memory_map_is_refused() {
    let mut bytes = sample();
    // the tag claims a third entry that the bytes do not hold
    bytes[28] = 16 + 72;
    bytes[0] = 88;
    bytes.truncate(88);
    let info = BootInfo::parse(&bytes).unwrap();
    assert_eq!(info.find_tag(6), Some(24));
    assert!(info.memory_map_tag().is_none());
}

#[test]
fn entry_size_zero_is_refused() {
    let mut bytes = sample();
    bytes[32] = 0;
    let info = BootInfo::parse(&bytes).unwrap();
    assert!(info.memory_map_tag().is_none());
}

#[test]
fn entry_size_sets_the_stride() {
    let mut bytes = sample();
    // one entry of 48 bytes: the second record is padding of the first
    bytes[32] = 48;
    let info = BootInfo::parse(&bytes).unwrap();
    let tag = info.memory_map_tag().unwrap();
    let mut iter = tag.memory_areas();
    assert_eq!(iter.next().map(|a| a.base_addr), Some(0x1_0000_0000));
    assert_eq!(iter.next(), None);
}
