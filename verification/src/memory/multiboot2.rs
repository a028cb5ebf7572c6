//! Multiboot2 boot information parser

use vstd::prelude::*;

verus! {

/// The type of the tag that ends the boot information.
pub const MULTIBOOT2_TAG_TYPE_END: u32 = 0;

/// The type of the tag that holds the memory map.
pub const MULTIBOOT2_TAG_TYPE_MMAP: u32 = 6;

/// The type of a memory area that is available RAM.
pub const MEMORY_AREA_AVAILABLE: u32 = 1;

/// Bytes in the header of the boot information and of a tag.
pub const HEADER_BYTES: usize = 8;

/// Bytes in the header of the memory map tag.
pub const MMAP_HEADER_BYTES: usize = 16;

/// Bytes that are read of one entry of the memory map.
pub const MEMORY_AREA_BYTES: usize = 24;

/// The little-endian 32-bit number that starts at offset `at`.
pub open spec fn le_u32(bytes: Seq<u8>, at: int) -> int {
    bytes[at] + 0x100 * bytes[at + 1] + 0x1_0000 * bytes[at + 2] + 0x100_0000 * bytes[at + 3]
}

/// The little-endian 64-bit number that starts at offset `at`.
pub open spec fn le_u64(bytes: Seq<u8>, at: int) -> int {
    le_u32(bytes, at) + 0x1_0000_0000 * le_u32(bytes, at + 4)
}

/// `offset` rounded up to the next multiple of eight.
pub open spec fn align_up_8(offset: int) -> int {
    ((offset + 7) / 8) * 8
}

/// The memory area whose 24 bytes start at offset `at`.
pub open spec fn area_at(bytes: Seq<u8>, at: int) -> MemoryArea {
    MemoryArea {
        base_addr: le_u64(bytes, at) as u64,
        length: le_u64(bytes, at + 8) as u64,
        typ: le_u32(bytes, at + 16) as u32,
        reserved: le_u32(bytes, at + 20) as u32,
    }
}

/// Where a walk over the tags that starts at offset `at` finds the first tag
/// of type `tag_type`. The walk ends without a result at the end tag, at a
/// tag header that does not lie inside the bytes, and at a tag of size zero,
/// behind which no next tag can be found.
pub open spec fn find_tag_from(bytes: Seq<u8>, tag_type: u32, at: int) -> Option<int>
    decreases
            if at < bytes.len() {
                bytes.len() - at
            } else {
                0
            },
{
    if at < 0 || at + 8 > bytes.len() {
        None
    } else if le_u32(bytes, at) == 0 {
        None
    } else if le_u32(bytes, at) == tag_type {
        Some(at)
    } else if le_u32(bytes, at + 4) == 0 {
        None
    } else {
        find_tag_from(bytes, tag_type, align_up_8(at + le_u32(bytes, at + 4)))
    }
}

/// The memory areas read from offset `current` in steps of `entry_size` as
/// long as the offset lies below `end`, or `None` if the step is zero or an
/// entry does not lie inside the bytes.
pub open spec fn entries_from(bytes: Seq<u8>, current: int, end: int, entry_size: int) -> Option<
    Seq<MemoryArea>,
>
    decreases
            if current < end {
                end - current
            } else {
                0
            },
{
    if current >= end {
        Some(Seq::empty())
    } else if entry_size <= 0 || current < 0 || current + 24 > bytes.len() {
        None
    } else {
        match entries_from(bytes, current + entry_size, end, entry_size) {
            Some(rest) => Some(seq![area_at(bytes, current)] + rest),
            None => None,
        }
    }
}

/// The memory areas of the memory map tag whose header starts at offset
/// `at`, or `None` if the header or an entry does not lie inside the bytes.
pub open spec fn memory_map_at(bytes: Seq<u8>, at: int) -> Option<Seq<MemoryArea>> {
    if at < 0 || at + 16 > bytes.len() {
        None
    } else {
        entries_from(bytes, at + 16, at + le_u32(bytes, at + 4), le_u32(bytes, at + 8))
    }
}

/// The four numbers of the header of the memory map tag at offset `at`.
pub open spec fn header_at(bytes: Seq<u8>, at: int) -> (u32, u32, u32, u32) {
    (
        le_u32(bytes, at) as u32,
        le_u32(bytes, at + 4) as u32,
        le_u32(bytes, at + 8) as u32,
        le_u32(bytes, at + 12) as u32,
    )
}

/// Reads a little-endian 32-bit number.
fn read_u32(bytes: &[u8], at: usize) -> (x: u32)
    requires
        at + 4 <= bytes.len(),
    ensures
        x == le_u32(bytes@, at as int),
{
    let b0 = bytes[at] as u32;
    let b1 = bytes[at + 1] as u32;
    let b2 = bytes[at + 2] as u32;
    let b3 = bytes[at + 3] as u32;
    b0 + 0x100 * b1 + 0x1_0000 * b2 + 0x100_0000 * b3
}

/// Reads a little-endian 64-bit number.
fn read_u64(bytes: &[u8], at: usize) -> (x: u64)
    requires
        at + 8 <= bytes.len(),
    ensures
        x == le_u64(bytes@, at as int),
{
    let low = read_u32(bytes, at) as u64;
    let high = read_u32(bytes, at + 4) as u64;
    low + 0x1_0000_0000 * high
}

/// Boot information structure passed by GRUB
pub struct BootInfo<'a> {
    total_size: u32,
    reserved: u32,
    bytes: &'a [u8],
}

impl<'a> View for BootInfo<'a> {
    type V = Seq<u8>;

    /// The bytes of the boot information, header included.
    closed spec fn view(&self) -> Seq<u8> {
        self.bytes@.subrange(0, self.total_size as int)
    }
}

impl<'a> BootInfo<'a> {
    /// What holds of every boot information: its size lies between the size
    /// of its header and the number of bytes it was read from.
    #[verifier::type_invariant]
    spec fn inv(self) -> bool {
        8 <= self.total_size <= self.bytes@.len()
    }

    /// Parse the boot information structure, which starts with its size in
    /// bytes. There is none if the bytes do not hold a header or are fewer
    /// than the header says.
    pub fn parse(bytes: &'a [u8]) -> (r: Option<Self>)
        ensures
            r.is_some() == (bytes@.len() >= 8 && 8 <= le_u32(bytes@, 0) <= bytes@.len()),
            r.is_some() ==> r.unwrap()@ == bytes@.subrange(0, le_u32(bytes@, 0)),
    {
        if bytes.len() < HEADER_BYTES {
            return None;
        }
        let total_size = read_u32(bytes, 0);
        let reserved = read_u32(bytes, 4);
        if total_size < HEADER_BYTES as u32 || total_size as usize > bytes.len() {
            return None;
        }
        Some(BootInfo { total_size, reserved, bytes })
    }

    /// The size of the boot information in bytes.
    pub fn total_size(&self) -> (n: u32)
        ensures
            n == self@.len(),
    {
        proof {
            use_type_invariant(self);
        }
        self.total_size
    }

    /// Get the memory map tag
    pub fn memory_map_tag(&self) -> (r: Option<MemoryMapTag>)
        ensures
            r.is_some() == (find_tag_from(self@, 6, 8).is_some() && memory_map_at(
                self@,
                find_tag_from(self@, 6, 8).unwrap(),
            ).is_some()),
            r.is_some() ==> r.unwrap()@ == memory_map_at(
                self@,
                find_tag_from(self@, 6, 8).unwrap(),
            ).unwrap(),
            r.is_some() ==> r.unwrap().header() == header_at(
                self@,
                find_tag_from(self@, 6, 8).unwrap(),
            ),
    {
        proof {
            use_type_invariant(self);
        }
        let at = match self.find_tag(MULTIBOOT2_TAG_TYPE_MMAP) {
            Some(at) => at,
            None => {
                return None;
            },
        };
        let total = self.total_size as usize;
        let ghost data = self@;
        if total - at < MMAP_HEADER_BYTES {
            return None;
        }
        assert(forall|i: int| 0 <= i < total ==> data[i] == self.bytes@[i]);
        let typ = read_u32(self.bytes, at);
        let size = read_u32(self.bytes, at + 4);
        let entry_size = read_u32(self.bytes, at + 8);
        let entry_version = read_u32(self.bytes, at + 12);
        assert(size == le_u32(data, at + 4) && entry_size == le_u32(data, at + 8));
        assert(typ == le_u32(data, at as int) && entry_version == le_u32(data, at + 12));
        let end = at as u64 + size as u64;
        let mut current = at as u64 + MMAP_HEADER_BYTES as u64;
        let ghost start = current as int;
        let mut entries: Vec<MemoryArea> = Vec::new();
        while current < end
            invariant
                data == self@,
                total == data.len(),
                total == self.total_size,
                total <= self.bytes@.len(),
                forall|i: int| 0 <= i < total ==> data[i] == self.bytes@[i],
                0 <= start <= current,
                find_tag_from(data, 6, 8) == Some(at as int),
                at + 16 <= total,
                start == at + 16,
                end == at + le_u32(data, at + 4),
                entry_size == le_u32(data, at + 8),
                typ == le_u32(data, at as int),
                size == le_u32(data, at + 4),
                entry_version == le_u32(data, at + 12),
                end <= 0x2_0000_0000,
                current <= 0x3_0000_0000,
                entries_from(data, start, end as int, entry_size as int) == match entries_from(
                    data,
                    current as int,
                    end as int,
                    entry_size as int,
                ) {
                    Some(rest) => Some(entries@ + rest),
                    None => None,
                },
            decreases
                    if current < end {
                        end - current
                    } else {
                        0
                    },
        {
            if entry_size == 0 || current + MEMORY_AREA_BYTES as u64 > total as u64 {
                return None;
            }
            let offset = current as usize;
            let area = MemoryArea {
                base_addr: read_u64(self.bytes, offset),
                length: read_u64(self.bytes, offset + 8),
                typ: read_u32(self.bytes, offset + 16),
                reserved: read_u32(self.bytes, offset + 20),
            };
            assert(area == area_at(data, offset as int));
            let ghost before = entries@;
            entries.push(area);
            current = current + entry_size as u64;
            proof {
                match entries_from(data, current as int, end as int, entry_size as int) {
                    Some(rest) => {
                        assert(before + (seq![area] + rest) =~= entries@ + rest);
                    },
                    None => {},
                }
            }
        }
        assert(entries@ + Seq::<MemoryArea>::empty() =~= entries@);
        Some(MemoryMapTag { typ, size, entry_size, entry_version, entries })
    }

    /// Find a tag by type; the result is the offset of the tag's header.
    pub fn find_tag(&self, tag_type: u32) -> (r: Option<usize>)
        ensures
            r.is_some() == find_tag_from(self@, tag_type, 8).is_some(),
            r.is_some() ==> r.unwrap() == find_tag_from(self@, tag_type, 8).unwrap(),
            r.is_some() ==> r.unwrap() + 8 <= self@.len(),
    {
        proof {
            use_type_invariant(self);
        }
        let total = self.total_size as usize;
        let ghost data = self@;
        assert(forall|i: int| 0 <= i < total ==> data[i] == self.bytes@[i]);
        // Skip total_size and reserved
        let mut current: usize = HEADER_BYTES;
        loop
            invariant
                data == self@,
                total == data.len(),
                total <= self.bytes@.len(),
                total <= u32::MAX,
                forall|i: int| 0 <= i < total ==> data[i] == self.bytes@[i],
                8 <= current <= total,
                find_tag_from(data, tag_type, 8) == find_tag_from(data, tag_type, current as int),
            decreases total - current,
        {
            if total - current < HEADER_BYTES {
                return None;
            }
            let typ = read_u32(self.bytes, current);
            let size = read_u32(self.bytes, current + 4);
            assert(typ == le_u32(data, current as int) && size == le_u32(data, current + 4));
            if typ == MULTIBOOT2_TAG_TYPE_END {
                return None;
            }
            if typ == tag_type {
                return Some(current);
            }
            if size == 0 {
                return None;
            }
            // Move to next tag (8-byte aligned)
            let next = (current as u64 + size as u64 + 7) / 8 * 8;
            assert(next == align_up_8(current + size));
            if next > total as u64 {
                assert(find_tag_from(data, tag_type, next as int).is_none());
                return None;
            }
            current = next as usize;
        }
    }
}

/// Memory map entry
#[derive(Debug, Clone, Copy, PartialEq, Eq)]
pub struct MemoryArea {
    /// The physical address at which the area starts.
    pub base_addr: u64,
    /// The number of bytes in the area.
    pub length: u64,
    /// What the area is; 1 means available RAM.
    pub typ: u32,
    /// Reserved by the boot protocol.
    pub reserved: u32,
}

/// Memory map tag
#[derive(Debug, Clone)]
pub struct MemoryMapTag {
    typ: u32,
    size: u32,
    entry_size: u32,
    entry_version: u32,
    entries: Vec<MemoryArea>,
}

impl View for MemoryMapTag {
    type V = Seq<MemoryArea>;

    /// The memory areas of the tag, in the order in which it lists them.
    closed spec fn view(&self) -> Seq<MemoryArea> {
        self.entries@
    }
}

impl MemoryMapTag {
    /// The four numbers of the header of the tag: its type, its size in
    /// bytes, the number of bytes from one entry to the next, and the version
    /// of the entries.
    pub closed spec fn header(&self) -> (u32, u32, u32, u32) {
        (self.typ, self.size, self.entry_size, self.entry_version)
    }

    /// The type of the tag, 6.
    pub fn typ(&self) -> (typ: u32)
        ensures
            typ == self.header().0,
    {
        self.typ
    }

    /// The size of the tag in bytes, header included.
    pub fn size(&self) -> (size: u32)
        ensures
            size == self.header().1,
    {
        self.size
    }

    /// The number of bytes from one entry to the next.
    pub fn entry_size(&self) -> (entry_size: u32)
        ensures
            entry_size == self.header().2,
    {
        self.entry_size
    }

    /// The version of the entries.
    pub fn entry_version(&self) -> (entry_version: u32)
        ensures
            entry_version == self.header().3,
    {
        self.entry_version
    }

    /// Get an iterator over memory areas
    pub fn memory_areas(&self) -> (iter: MemoryAreaIter<'_>)
        ensures
            iter.remaining() == self@,
    {
        let iter = MemoryAreaIter { entries: &self.entries, current: 0 };
        assert(iter.remaining() =~= self@);
        iter
    }
}

/// Iterator over memory areas
pub struct MemoryAreaIter<'a> {
    entries: &'a Vec<MemoryArea>,
    current: usize,
}

impl<'a> MemoryAreaIter<'a> {
    /// The areas that the iterator has not handed out yet.
    pub closed spec fn remaining(&self) -> Seq<MemoryArea> {
        if self.current <= self.entries@.len() {
            self.entries@.subrange(self.current as int, self.entries@.len() as int)
        } else {
            Seq::empty()
        }
    }

    /// Hands out the next memory area, or `None` after the last one.
    pub fn next(&mut self) -> (r: Option<MemoryArea>)
        ensures
            old(self).remaining().len() == 0 ==> r.is_none(),
            old(self).remaining().len() == 0 ==> final(self).remaining() == old(self).remaining(),
            old(self).remaining().len() > 0 ==> r == Some(old(self).remaining()[0]),
            old(self).remaining().len() > 0 ==> final(self).remaining() == old(
                self).remaining().drop_first(),
    {
        if self.current >= self.entries.len() {
            return None;
        }
        let area = self.entries[self.current];
        self.current += 1;
        assert(self.remaining() =~= old(self).remaining().drop_first());
        Some(area)
    }
}

} // verus!
