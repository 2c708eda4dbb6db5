//! The boot information block that a multiboot2 loader leaves in memory:
//! a header, then tags, each aligned to eight bytes.

use vstd::prelude::*;

verus! {

/// Value that a multiboot2 loader passes beside the block's address.
pub const MULTIBOOT2_MAGIC: u32 = 0x36d76289;

/// Type of the tag that ends the block.
pub const TAG_END: u32 = 0;

/// Type of the tag that holds the memory map.
pub const TAG_MEMORY_MAP: u32 = 6;

/// Type of the tag that holds the ELF sections.
pub const TAG_ELF_SECTIONS: u32 = 9;

/// Number of bytes of an entry of the memory map.
pub const MMAP_ENTRY_SIZE: u32 = 24;

/// Number of bytes of an ELF section header.
pub const ELF_SECTION_ENTRY_SIZE: u32 = 40;

/// Number of bytes of the block's header, and of a tag's header.
pub const HEADER_SIZE: usize = 8;

/// Number of bytes of the memory map's tag before its entries.
pub const MMAP_INFO_SIZE: usize = 16;

/// Number of bytes of the ELF sections' tag before its section headers.
pub const ELF_SECTIONS_SIZE: usize = 20;

#[derive(Debug, Copy, Clone, PartialEq, Eq, Structural)]
pub struct BootInfoHeader {
    pub total_size: u32,
    pub reserved: u32,
}

#[derive(Debug, Copy, Clone, PartialEq, Eq, Structural)]
pub struct TagHeader {
    pub tag_type: u32,
    pub tag_size: u32,
}

#[allow(non_snake_case)]
#[derive(Debug, Copy, Clone, PartialEq, Eq, Structural)]
pub struct MmapEntry {
    pub base_addr: u64,
    pub length: u64,
    pub entryType: u32,
    pub reserved: u32,
}

#[derive(Debug, Copy, Clone, PartialEq, Eq, Structural)]
pub struct MmapInfo {
    pub tag_type: u32,
    pub tag_size: u32,
    pub entry_size: u32,
    pub entry_version: u32,
}

#[derive(Debug, Copy, Clone, PartialEq, Eq, Structural)]
pub struct ElfSections {
    pub tag_type: u32,
    pub tag_size: u32,
    /// number of section headers
    pub num: u32,
    /// size of each section header
    pub entsize: u32,
    /// index of section name string table
    pub shndx: u32,
}

#[derive(Debug, Copy, Clone, PartialEq, Eq, Structural)]
pub struct ElfSectionHeader {
    /// Offset into section header string table
    pub sh_name: u32,
    /// Section type
    pub sh_type: u32,
    /// Section flags
    pub sh_flags: u32,
    /// Virtual address in memory
    pub sh_addr: u32,
    /// Offset in file/image
    pub sh_offset: u32,
    /// Size of section in bytes
    pub sh_size: u32,
    /// Link to another section
    pub sh_link: u32,
    /// Extra info
    pub sh_info: u32,
    /// Alignment
    pub sh_addralign: u32,
    /// Size of entries if section holds a table
    pub sh_entsize: u32,
}

/// What was found in the block: the tag of the memory map and the tag of
/// the ELF sections, each all zero where the block has none.
#[allow(non_snake_case)]
#[derive(Debug, Copy, Clone, PartialEq, Eq, Structural)]
pub struct BootInfo {
    pub mmapInfo: MmapInfo,
    pub elfSections: ElfSections,
}

/// Why a block was not accepted.
#[derive(Debug, Copy, Clone, PartialEq, Eq, Structural)]
pub enum BootInfoError {
    /// The block ends before the tag that ends it.
    Truncated,
    /// A tag is shorter than its own header.
    BadTagSize(u32),
    /// The memory map has entries of this size, which is not 24.
    MmapEntrySize(u32),
    /// The ELF sections have headers of this size, which is not 40.
    ElfEntrySize(u32),
}

/// The 32-bit number that `bytes` hold at `at`, lowest byte first.
pub open spec fn le_u32(bytes: Seq<u8>, at: int) -> u32 {
    (bytes[at] as int + 0x100 * (bytes[at + 1] as int) + 0x1_0000 * (bytes[at + 2] as int)
        + 0x100_0000 * (bytes[at + 3] as int)) as u32
}

/// The 64-bit number that `bytes` hold at `at`, lowest byte first.
pub open spec fn le_u64(bytes: Seq<u8>, at: int) -> u64 {
    (le_u32(bytes, at) as int + 0x1_0000_0000 * (le_u32(bytes, at + 4) as int)) as u64
}

/// The distance from a tag of `tag_size` bytes to the next one: the size,
/// or the next multiple of eight where the size is none.
pub open spec fn tag_stride(tag_size: u32) -> int {
    if tag_size % 8 != 0 {
        ((tag_size + 8) / 8) * 8
    } else {
        tag_size as int
    }
}

pub open spec fn no_mmap_info() -> MmapInfo {
    MmapInfo { tag_type: 0, tag_size: 0, entry_size: 0, entry_version: 0 }
}

pub open spec fn no_elf_sections() -> ElfSections {
    ElfSections { tag_type: 0, tag_size: 0, num: 0, entsize: 0, shndx: 0 }
}

pub open spec fn mmap_info_at(bytes: Seq<u8>, at: int) -> MmapInfo {
    MmapInfo {
        tag_type: le_u32(bytes, at),
        tag_size: le_u32(bytes, at + 4),
        entry_size: le_u32(bytes, at + 8),
        entry_version: le_u32(bytes, at + 12),
    }
}

pub open spec fn elf_sections_at(bytes: Seq<u8>, at: int) -> ElfSections {
    ElfSections {
        tag_type: le_u32(bytes, at),
        tag_size: le_u32(bytes, at + 4),
        num: le_u32(bytes, at + 8),
        entsize: le_u32(bytes, at + 12),
        shndx: le_u32(bytes, at + 16),
    }
}

pub open spec fn mmap_entry_at(bytes: Seq<u8>, at: int) -> MmapEntry {
    MmapEntry {
        base_addr: le_u64(bytes, at),
        length: le_u64(bytes, at + 8),
        entryType: le_u32(bytes, at + 16),
        reserved: le_u32(bytes, at + 20),
    }
}

/// What the tag at `offset` adds to `found`, if it is a well-formed tag
/// that does not end the walk.
pub open spec fn tag_taken(bytes: Seq<u8>, offset: int, found: BootInfo) -> Result<
    BootInfo,
    BootInfoError,
> {
    let tag_type = le_u32(bytes, offset);
    let tag_size = le_u32(bytes, offset + 4);
    if tag_size < 8 {
        Err(BootInfoError::BadTagSize(tag_size))
    } else if tag_type == TAG_MEMORY_MAP {
        if offset + MMAP_INFO_SIZE > bytes.len() {
            Err(BootInfoError::Truncated)
        } else if mmap_info_at(bytes, offset).entry_size != MMAP_ENTRY_SIZE {
            Err(BootInfoError::MmapEntrySize(mmap_info_at(bytes, offset).entry_size))
        } else if tag_size < MMAP_INFO_SIZE {
            Err(BootInfoError::BadTagSize(tag_size))
        } else {
            Ok(BootInfo { mmapInfo: mmap_info_at(bytes, offset), ..found })
        }
    } else if tag_type == TAG_ELF_SECTIONS {
        if offset + ELF_SECTIONS_SIZE > bytes.len() {
            Err(BootInfoError::Truncated)
        } else if elf_sections_at(bytes, offset).entsize != ELF_SECTION_ENTRY_SIZE {
            Err(BootInfoError::ElfEntrySize(elf_sections_at(bytes, offset).entsize))
        } else {
            Ok(BootInfo { elfSections: elf_sections_at(bytes, offset), ..found })
        }
    } else {
        Ok(found)
    }
}

/// What the tags of `bytes` from `offset` on add to `found`. The walk ends
/// at a tag of type 0 or of size 8. A tag of the memory map or of the ELF
/// sections replaces what was found of its kind; its entries must have the
/// one size that is understood. Other tags are passed over. The header of
/// every tag that the walk comes to must lie within the block.
pub open spec fn tags_parsed(bytes: Seq<u8>, offset: int, found: BootInfo) -> Result<
    BootInfo,
    BootInfoError,
>
    decreases bytes.len() - offset,
{
    if offset < 0 || offset + HEADER_SIZE > bytes.len() {
        Err(BootInfoError::Truncated)
    } else {
        let tag_type = le_u32(bytes, offset);
        let tag_size = le_u32(bytes, offset + 4);
        if tag_type == TAG_END || tag_size == 8 {
            Ok(found)
        } else {
            match tag_taken(bytes, offset, found) {
                Err(e) => Err(e),
                Ok(taken) => {
                    if offset + tag_stride(tag_size) + HEADER_SIZE > bytes.len() {
                        Err(BootInfoError::Truncated)
                    } else {
                        tags_parsed(bytes, offset + tag_stride(tag_size), taken)
                    }
                },
            }
        }
    }
}

/// What is found before any tag is read: nothing.
pub open spec fn nothing_found() -> BootInfo {
    BootInfo { mmapInfo: no_mmap_info(), elfSections: no_elf_sections() }
}

/// What the block `bytes` holds: what its tags, which start behind its
/// header, add to nothing.
pub open spec fn block_parsed(bytes: Seq<u8>) -> Result<BootInfo, BootInfoError> {
    tags_parsed(bytes, HEADER_SIZE as int, nothing_found())
}

/// Number of entries of a memory map whose tag is `info`.
pub open spec fn mmap_entry_count(info: MmapInfo) -> int {
    if info.tag_size < MMAP_INFO_SIZE {
        0
    } else {
        (info.tag_size - MMAP_INFO_SIZE) / (MMAP_ENTRY_SIZE as int)
    }
}

impl Default for MmapInfo {
    fn default() -> (info: Self)
        ensures
            info == no_mmap_info(),
    {
        MmapInfo { tag_type: 0, tag_size: 0, entry_size: 0, entry_version: 0 }
    }
}

impl Default for ElfSections {
    fn default() -> (sections: Self)
        ensures
            sections == no_elf_sections(),
    {
        ElfSections { tag_type: 0, tag_size: 0, num: 0, entsize: 0, shndx: 0 }
    }
}

impl Default for BootInfo {
    fn default() -> (info: Self)
        ensures
            info == nothing_found(),
    {
        BootInfo { mmapInfo: MmapInfo::default(), elfSections: ElfSections::default() }
    }
}

/// Reads the 32-bit number at `at`.
pub fn read_u32(bytes: &[u8], at: usize) -> (value: u32)
    requires
        at + 4 <= bytes.len(),
    ensures
        value == le_u32(bytes@, at as int),
{
    let b0 = bytes[at] as u32;
    let b1 = bytes[at + 1] as u32;
    let b2 = bytes[at + 2] as u32;
    let b3 = bytes[at + 3] as u32;
    b0 + 0x100 * b1 + 0x1_0000 * b2 + 0x100_0000 * b3
}

/// Reads the 64-bit number at `at`.
pub fn read_u64(bytes: &[u8], at: usize) -> (value: u64)
    requires
        at + 8 <= bytes.len(),
    ensures
        value == le_u64(bytes@, at as int),
{
    let low = read_u32(bytes, at) as u64;
    let high = read_u32(bytes, at + 4) as u64;
    low + 0x1_0000_0000 * high
}

/// Reads the header of the block.
pub fn read_header(bytes: &[u8]) -> (header: Option<BootInfoHeader>)
    ensures
        header is Some <==> HEADER_SIZE <= bytes.len(),
        header is Some ==> header.unwrap() == (BootInfoHeader {
            total_size: le_u32(bytes@, 0),
            reserved: le_u32(bytes@, 4),
        }),
{
    if bytes.len() < HEADER_SIZE {
        None
    } else {
        Some(BootInfoHeader { total_size: read_u32(bytes, 0), reserved: read_u32(bytes, 4) })
    }
}

/// Reads the header of the tag at `offset`.
pub fn read_tag_header(bytes: &[u8], offset: usize) -> (header: Option<TagHeader>)
    ensures
        header is Some <==> offset + HEADER_SIZE <= bytes.len(),
        header is Some ==> header.unwrap() == (TagHeader {
            tag_type: le_u32(bytes@, offset as int),
            tag_size: le_u32(bytes@, offset + 4),
        }),
{
    if bytes.len() < HEADER_SIZE || offset > bytes.len() - HEADER_SIZE {
        None
    } else {
        Some(TagHeader { tag_type: read_u32(bytes, offset), tag_size: read_u32(bytes, offset + 4) })
    }
}

/// Reads the entry of a memory map that lies at `offset`.
pub fn read_mmap_entry(bytes: &[u8], offset: usize) -> (entry: Option<MmapEntry>)
    ensures
        entry is Some <==> offset + MMAP_ENTRY_SIZE <= bytes.len(),
        entry is Some ==> entry.unwrap() == mmap_entry_at(bytes@, offset as int),
{
    if bytes.len() < 24 || offset > bytes.len() - 24 {
        None
    } else {
        Some(
            MmapEntry {
                base_addr: read_u64(bytes, offset),
                length: read_u64(bytes, offset + 8),
                entryType: read_u32(bytes, offset + 16),
                reserved: read_u32(bytes, offset + 20),
            },
        )
    }
}

/// Number of entries of a memory map whose tag is `info`.
pub fn mmap_entries_number(info: &MmapInfo) -> (count: usize)
    ensures
        count == mmap_entry_count(*info),
{
    if info.tag_size < 16 {
        0
    } else {
        ((info.tag_size - 16) / 24) as usize
    }
}

/// The distance from a tag of `tag_size` bytes to the next one.
pub fn next_tag_distance(tag_size: u32) -> (stride: u64)
    ensures
        stride == tag_stride(tag_size),
{
    if tag_size % 8 != 0 {
        ((tag_size as u64 + 8) / 8) * 8
    } else {
        tag_size as u64
    }
}

/// Walks the tags of the block `bytes`, and returns the tags of the memory
/// map and of the ELF sections, or the reason why the block cannot be
/// taken.
pub fn walk_tags(bytes: &[u8]) -> (r: Result<BootInfo, BootInfoError>)
    ensures
        r == block_parsed(bytes@),
{
    let mut found = BootInfo::default();
    let mut offset: usize = HEADER_SIZE;
    loop
        invariant
            HEADER_SIZE <= offset,
            tags_parsed(bytes@, offset as int, found) == block_parsed(bytes@),
        decreases bytes.len() - offset,
    {
        if bytes.len() < HEADER_SIZE || offset > bytes.len() - HEADER_SIZE {
            return Err(BootInfoError::Truncated);
        }
        let tag_type = read_u32(bytes, offset);
        let tag_size = read_u32(bytes, offset + 4);
        if tag_type == TAG_END || tag_size == 8 {
            return Ok(found);
        }
        if tag_size < 8 {
            return Err(BootInfoError::BadTagSize(tag_size));
        }
        if tag_type == TAG_MEMORY_MAP {
            if bytes.len() - offset < MMAP_INFO_SIZE {
                return Err(BootInfoError::Truncated);
            }
            let info = MmapInfo {
                tag_type,
                tag_size,
                entry_size: read_u32(bytes, offset + 8),
                entry_version: read_u32(bytes, offset + 12),
            };
            if info.entry_size != MMAP_ENTRY_SIZE {
                return Err(BootInfoError::MmapEntrySize(info.entry_size));
            }
            if tag_size < 16 {
                return Err(BootInfoError::BadTagSize(tag_size));
            }
            found.mmapInfo = info;
        } else if tag_type == TAG_ELF_SECTIONS {
            if bytes.len() - offset < ELF_SECTIONS_SIZE {
                return Err(BootInfoError::Truncated);
            }
            let sections = ElfSections {
                tag_type,
                tag_size,
                num: read_u32(bytes, offset + 8),
                entsize: read_u32(bytes, offset + 12),
                shndx: read_u32(bytes, offset + 16),
            };
            if sections.entsize != ELF_SECTION_ENTRY_SIZE {
                return Err(BootInfoError::ElfEntrySize(sections.entsize));
            }
            found.elfSections = sections;
        }
        let stride = next_tag_distance(tag_size);
        if stride > (bytes.len() - offset - HEADER_SIZE) as u64 {
            return Err(BootInfoError::Truncated);
        }
        offset = offset + stride as usize;
    }
}

/// The tags of the memory map and of the ELF sections of the block
/// `bytes`, which a multiboot2 loader passed with its magic number and
/// which `walk_tags` takes.
pub fn parse_bootinfo(bytes: &[u8], magic: u32) -> (found: BootInfo)
    requires
        magic == MULTIBOOT2_MAGIC,
        block_parsed(bytes@) is Ok,
    ensures
        Ok::<BootInfo, BootInfoError>(found) == block_parsed(bytes@),
{
    match walk_tags(bytes) {
        Ok(found) => found,
        Err(_) => vstd::pervasive::unreached(),
    }
}

} // verus!
