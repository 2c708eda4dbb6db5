use vga_console::bootinfo::{
    mmap_entries_number, next_tag_distance, parse_bootinfo, read_header, read_mmap_entry,
    read_tag_header, read_u32, read_u64, walk_tags, BootInfo, BootInfoError, BootInfoHeader,
    ElfSectionHeader, ElfSections, MmapEntry, MmapInfo, TagHeader, MULTIBOOT2_MAGIC,
};

fn words(values: &[u32]) -> Vec<u8> {
    values.iter().flat_map(|v| v.to_le_bytes()).collect()
}

fn block(tags: &[Vec<u8>]) -> Vec<u8> {
    let mut bytes = words(&[0, 0]);
    for tag in tags {
        bytes.extend_from_slice(tag);
        while bytes.len() % 8 != 0 {
            bytes.push(0);
        }
    }
    let total = bytes.len() as u32;
    bytes[..4].copy_from_slice(&total.to_le_bytes());
    bytes
}

fn end_tag() -> Vec<u8> {
    words(&[0, 8])
}

fn mmap_tag(entries: u32) -> Vec<u8> {
    let mut tag = words(&[6, 16 + 24 * entries, 24, 0]);
    for i in 0..entries {
        tag.extend_from_slice(&(0x10_0000u64 * i as u64).to_le_bytes());
        tag.extend_from_slice(&0x1_0000_0001u64.to_le_bytes());
        tag.extend_from_slice(&words(&[1 + i, 0]));
    }
    tag
}

fn elf_tag(num: u32) -> Vec<u8> {
    let mut tag = words(&[9, 20 + 40 * num, num, 40, 3]);
    tag.resize(20 + 40 * num as usize, 0);
    tag
}

fn nothing_found() -> BootInfo {
    BootInfo::default()
}

#[test]
fn numbers_are_read_lowest_byte_first() {
    let bytes = [0x89, 0x62, 0xd7, 0x36, 1, 0, 0, 0, 0xff, 0xff, 0xff, 0xff];
    assert_eq!(read_u32(&bytes, 0), 0x36d76289);
    assert_eq!(read_u32(&bytes, 4), 1);
    assert_eq!(read_u32(&bytes, 8), u32::MAX);
    assert_eq!(read_u64(&bytes, 0), 0x0000_0001_36d7_6289);
    assert_eq!(read_u64(&bytes, 4), 0xffff_ffff_0000_0001);
}

#[test]
fn headers_are_read() {
    let bytes = block(&[mmap_tag(1), end_tag()]);
    assert_eq!(
        read_header(&bytes),
        Some(BootInfoHeader { total_size: bytes.len() as u32, reserved: 0 })
    );
    assert_eq!(read_header(&bytes[..7]), None);
    assert_eq!(read_tag_header(&bytes, 8), Some(TagHeader { tag_type: 6, tag_size: 40 }));
    assert_eq!(read_tag_header(&bytes, bytes.len() - 8), Some(TagHeader { tag_type: 0, tag_size: 8 }));
    assert_eq!(read_tag_header(&bytes, bytes.len() - 7), None);
    assert_eq!(read_tag_header(&bytes, usize::MAX), None);
}

#[test]
fn stride_rounds_up_to_eight() {
    assert_eq!(next_tag_distance(8), 8);
    assert_eq!(next_tag_distance(9), 16);
    assert_eq!(next_tag_distance(15), 16);
    assert_eq!(next_tag_distance(16), 16);
    assert_eq!(next_tag_distance(20), 24);
    assert_eq!(next_tag_distance(u32::MAX), 0x1_0000_0000);
}

#[test]
fn empty_block_has_nothing() {
    let bytes = block(&[end_tag()]);
    assert_eq!(walk_tags(&bytes), Ok(nothing_found()));
    assert_eq!(parse_bootinfo(&bytes, MULTIBOOT2_MAGIC), nothing_found());
    assert_eq!(
        nothing_found(),
        BootInfo {
            mmapInfo: MmapInfo { tag_type: 0, tag_size: 0, entry_size: 0, entry_version: 0 },
            elfSections: ElfSections { tag_type: 0, tag_size: 0, num: 0, entsize: 0, shndx: 0 },
        }
    );
}

#[test]
fn memory_map_and_sections_are_found() {
    let other = words(&[1, 13, 0x6c6c6568, 0x0000006f]);
    let bytes = block(&[other, mmap_tag(3), elf_tag(2), end_tag()]);
    assert!(walk_tags(&bytes).is_ok());
    let found = parse_bootinfo(&bytes, MULTIBOOT2_MAGIC);
    assert_eq!(walk_tags(&bytes), Ok(found));
    assert_eq!(
        found.mmapInfo,
        MmapInfo { tag_type: 6, tag_size: 88, entry_size: 24, entry_version: 0 }
    );
    assert_eq!(
        found.elfSections,
        ElfSections { tag_type: 9, tag_size: 100, num: 2, entsize: 40, shndx: 3 }
    );
    assert_eq!(mmap_entries_number(&found.mmapInfo), 3);
    // the first tag takes 16 bytes, the map starts at 24, its entries at 40
    assert_eq!(
        read_mmap_entry(&bytes, 40 + 24),
        Some(MmapEntry { base_addr: 0x10_0000, length: 0x1_0000_0001, entryType: 2, reserved: 0 })
    );
    assert_eq!(read_mmap_entry(&bytes, bytes.len() - 23), None);
}

#[test]
fn walk_stops_at_a_tag_of_size_eight() {
    let mut bytes = block(&[words(&[4, 8]), mmap_tag(1), end_tag()]);
    assert_eq!(walk_tags(&bytes), Ok(nothing_found()));
    assert_eq!(parse_bootinfo(&bytes, MULTIBOOT2_MAGIC), nothing_found());
    // and at a tag of type 0 of any size
    bytes[8..16].copy_from_slice(&words(&[0, 24]));
    assert_eq!(walk_tags(&bytes), Ok(nothing_found()));
    assert_eq!(parse_bootinfo(&bytes, MULTIBOOT2_MAGIC), nothing_found());
}

#[test]
fn block_without_end_is_truncated() {
    let bytes = block(&[mmap_tag(1)]);
    assert_eq!(walk_tags(&bytes), Err(BootInfoError::Truncated));
    assert_eq!(walk_tags(&[]), Err(BootInfoError::Truncated));
    assert_eq!(walk_tags(&words(&[8, 0])), Err(BootInfoError::Truncated));
    let cut = block(&[words(&[6, 16, 24])]);
    assert_eq!(walk_tags(&cut[..20]), Err(BootInfoError::Truncated));
    let cut_elf = block(&[words(&[9, 20, 0, 40])]);
    assert_eq!(walk_tags(&cut_elf[..24]), Err(BootInfoError::Truncated));
}

#[test]
fn short_tag_is_rejected() {
    let bytes = block(&[words(&[5, 0]), end_tag()]);
    assert_eq!(walk_tags(&bytes), Err(BootInfoError::BadTagSize(0)));
    let bytes = block(&[words(&[5, 7]), end_tag()]);
    assert_eq!(walk_tags(&bytes), Err(BootInfoError::BadTagSize(7)));
    let bytes = block(&[words(&[6, 12, 24, 0]), end_tag()]);
    assert_eq!(walk_tags(&bytes), Err(BootInfoError::BadTagSize(12)));
}

#[test]
fn unknown_entry_sizes_are_rejected() {
    let bytes = block(&[words(&[6, 16, 20, 0]), end_tag()]);
    assert_eq!(walk_tags(&bytes), Err(BootInfoError::MmapEntrySize(20)));
    let bytes = block(&[words(&[9, 20, 0, 64, 0]), end_tag()]);
    assert_eq!(walk_tags(&bytes), Err(BootInfoError::ElfEntrySize(64)));
}

#[test]
fn last_tag_of_a_kind_wins() {
    let bytes = block(&[mmap_tag(1), mmap_tag(2), end_tag()]);
    assert!(walk_tags(&bytes).is_ok());
    let found = parse_bootinfo(&bytes, MULTIBOOT2_MAGIC);
    assert_eq!(walk_tags(&bytes), Ok(found));
    assert_eq!(found.mmapInfo.tag_size, 64);
    assert_eq!(mmap_entries_number(&found.mmapInfo), 2);
    assert_eq!(found.elfSections, ElfSections::default());
}

#[test]
fn entries_number_of_short_map_is_zero() {
    let info = MmapInfo { tag_type: 6, tag_size: 15, entry_size: 24, entry_version: 0 };
    assert_eq!(mmap_entries_number(&info), 0);
    let info = MmapInfo { tag_type: 6, tag_size: 16 + 47, entry_size: 24, entry_version: 0 };
    assert_eq!(mmap_entries_number(&info), 1);
    assert_eq!(mmap_entries_number(&MmapInfo::default()), 0);
}

#[test]
fn section_header_holds_ten_words() {
    let header = ElfSectionHeader {
        sh_name: 1,
        sh_type: 2,
        sh_flags: 3,
        sh_addr: 4,
        sh_offset: 5,
        sh_size: 6,
        sh_link: 7,
        sh_info: 8,
        sh_addralign: 9,
        sh_entsize: 10,
    };
    assert_eq!(header.sh_entsize - header.sh_name, 9);
}
