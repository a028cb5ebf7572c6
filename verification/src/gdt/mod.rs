//! The Global Descriptor Table and related stuff.
//!
//! During boot, we do the following:
//!
//! 1. The bootstrap assembly code loads a temporary GDT.
//! 2. On CPU 0, we initialize and load the GDT in Rust using preallocated space.
//! 3. On other CPUs, we initialize and load the GDT using space provided by
//!    Cpu capabilities.
//!
//! ## GDT Entries
//!
//! * 0 - Null
//! * 1 - Kernel Data
//! * 2 - Kernel Code
//! * 3 - User Data
//! * 4 - User Code
//! * 5,6 - TSS

pub mod task;
pub mod types;

use vstd::prelude::*;

use types::{AccessByte, SystemAccessByte, SystemDescriptorType};

verus! {

/// The flag of a long-mode code or data segment, in the high nibble.
pub const GDT_F_LONG_MODE: u8 = 0x20;

/// The index of the kernel data segment.
pub const KERNEL_DATA_INDEX: u16 = 1;

/// The index of the kernel code segment.
pub const KERNEL_CODE_INDEX: u16 = 2;

/// The index of the user data segment.
pub const USER_DATA_INDEX: u16 = 3;

/// The index of the user code segment.
pub const USER_CODE_INDEX: u16 = 4;

/// The index of the task state segment.
pub const TSS_INDEX: u16 = 5;

/// How a 32-bit number falls into the pieces of a descriptor.
proof fn lemma_pieces_u32(x: u32)
    by (bit_vector)
    ensures
        (x as u16) as u32 == x % 0x1_0000u32,
        ((x >> 16) as u8) as u32 == (x / 0x1_0000u32) % 0x100u32,
        ((x >> 24) as u8) as u32 == x / 0x100_0000u32,
{
}

/// How the flags and the high bits of the limit share a byte.
proof fn lemma_flags_limit(flags: u8, high: u8)
    by (bit_vector)
    ensures
        (flags & 0xf0) | (high & 0x0f) == (flags / 16u8) * 16u8 + high % 16u8,
        (flags / 16u8) * 16u8 + high % 16u8 < 256,
{
}

/// How a 64-bit number falls into the pieces of a descriptor.
proof fn lemma_pieces_u64(x: u64)
    by (bit_vector)
    ensures
        (x as u16) as u64 == x % 0x1_0000u64,
        ((x >> 16) as u8) as u64 == (x / 0x1_0000u64) % 0x100u64,
        ((x >> 24) as u8) as u64 == (x / 0x100_0000u64) % 0x100u64,
        ((x >> 32) as u32) as u64 == x / 0x1_0000_0000u64,
{
}

/// How the access byte and the flags fall into the access bytes.
proof fn lemma_access_bytes(access: u8, flags_limith: u8)
    by (bit_vector)
    ensures
        (access as u32) | (((flags_limith & 0xf0) as u32) << 8) == (access as u32) + 0x1000u32 * ((
        flags_limith / 16u8) as u32),
{
}

/// A 8-byte GDT Code/Data entry.
#[derive(Copy, Clone, Debug)]
pub struct GdtEntry {
    /// Bits 0 to 15 of the limit.
    pub limitl: u16,
    /// Bits 0 to 15 of the offset.
    pub offsetl: u16,
    /// Bits 16 to 23 of the offset.
    pub offsetm: u8,
    /// The access byte.
    pub access: u8,
    /// The flags in the high nibble, bits 16 to 19 of the limit in the low.
    pub flags_limith: u8,
    /// Bits 24 to 31 of the offset.
    pub offseth: u8,
}

impl GdtEntry {
    /// The offset that the entry encodes.
    pub open spec fn offset(self) -> int {
        self.offsetl + 0x1_0000 * self.offsetm + 0x100_0000 * self.offseth
    }

    /// The limit that the entry encodes, a number of 20 bits.
    pub open spec fn limit(self) -> int {
        self.limitl + 0x1_0000 * (self.flags_limith % 16)
    }

    /// The flags that the entry encodes, a number of four bits.
    pub open spec fn flags(self) -> int {
        self.flags_limith as int / 16
    }

    /// Whether every field of the entry is zero.
    pub open spec fn is_empty(self) -> bool {
        self.offset() == 0 && self.limit() == 0 && self.flags() == 0 && self.access == 0
    }

    /// Creates an empty (not present) entry.
    pub fn empty() -> (entry: Self)
        ensures
            entry.is_empty(),
    {
        Self::new(0, 0, AccessByte::not_present(), 0)
    }

    /// Creates a GDT entry. The entry holds the offset, the low 20 bits of
    /// the limit, the access byte and the high nibble of the flags.
    pub fn new(offset: u32, limit: u32, access: AccessByte, flags: u8) -> (entry: Self)
        ensures
            entry.offset() == offset,
            entry.limit() == limit % 0x10_0000,
            entry.flags() == flags / 16,
            entry.access == access.0,
    {
        proof {
            lemma_pieces_u32(offset);
            lemma_pieces_u32(limit);
            lemma_flags_limit(flags, (limit >> 16) as u8);
        }
        Self {
            limitl: #[verifier::truncate]
            (limit as u16),
            offsetl: #[verifier::truncate]
            (offset as u16),
            offsetm: #[verifier::truncate]
            ((offset >> 16) as u8),
            access: access.0,
            flags_limith: flags & 0xF0 | (#[verifier::truncate]
            ((limit >> 16) as u8)) & 0x0F,
            offseth: #[verifier::truncate]
            ((offset >> 24) as u8),
        }
    }

    /// Returns the "Access Bytes" that VMX wants: the access byte in bits 0
    /// to 7 and the flags in bits 12 to 15.
    pub fn access_bytes(&self) -> (bytes: u32)
        ensures
            bytes == self.access + 0x1000 * self.flags(),
    {
        proof {
            lemma_access_bytes(self.access, self.flags_limith);
        }
        let flags = self.flags_limith & 0b11110000;
        (self.access as u32) | ((flags as u32) << 8)
    }
}

/// A 16-byte GDT System entry.
///
/// This is described in Figure 4-22 in AMD Vol. 2.
#[derive(Copy, Clone, Debug)]
pub struct BigGdtEntry {
    /// Bits 0 to 15 of the limit.
    pub limitl: u16,
    /// Bits 0 to 15 of the offset.
    pub offsetl: u16,
    /// Bits 16 to 23 of the offset.
    pub offsetm: u8,
    /// The access byte, with the type of the descriptor.
    pub access_type: u8,
    /// The flags in the high nibble, bits 16 to 19 of the limit in the low.
    pub flags_limith: u8,
    /// Bits 24 to 31 of the offset.
    pub offseth: u8,
    /// Bits 32 to 63 of the offset.
    pub offsetx: u32,
    /// Reserved; zero.
    pub reserved: u32,
}

impl BigGdtEntry {
    /// The offset that the entry encodes.
    pub open spec fn offset(self) -> int {
        self.offsetl + 0x1_0000 * self.offsetm + 0x100_0000 * self.offseth + 0x1_0000_0000
            * self.offsetx
    }

    /// The limit that the entry encodes, a number of 20 bits.
    pub open spec fn limit(self) -> int {
        self.limitl + 0x1_0000 * (self.flags_limith % 16)
    }

    /// The flags that the entry encodes, a number of four bits.
    pub open spec fn flags(self) -> int {
        self.flags_limith as int / 16
    }

    /// Whether every field of the entry is zero.
    pub open spec fn is_empty(self) -> bool {
        &&& self.offset() == 0
        &&& self.limit() == 0
        &&& self.flags() == 0
        &&& self.access_type == 0
        &&& self.reserved == 0
    }

    /// Creates an empty (not present) entry.
    pub fn empty() -> (entry: Self)
        ensures
            entry.is_empty(),
    {
        Self::new(0, 0, SystemAccessByte::not_present(), 0)
    }

    /// Creates a 16-byte GDT entry. The entry holds the offset, the low 20
    /// bits of the limit, the access byte and the high nibble of the flags.
    pub fn new(offset: u64, limit: u32, access_type: SystemAccessByte, flags: u8) -> (entry: Self)
        ensures
            entry.offset() == offset,
            entry.limit() == limit % 0x10_0000,
            entry.flags() == flags / 16,
            entry.access_type == access_type.0,
            entry.reserved == 0,
    {
        proof {
            lemma_pieces_u64(offset);
            lemma_pieces_u32(limit);
            lemma_flags_limit(flags, (limit >> 16) as u8);
        }
        Self {
            limitl: #[verifier::truncate]
            (limit as u16),
            offsetl: #[verifier::truncate]
            (offset as u16),
            offsetm: #[verifier::truncate]
            ((offset >> 16) as u8),
            access_type: access_type.0,
            flags_limith: flags & 0xF0 | (#[verifier::truncate]
            ((limit >> 16) as u8)) & 0x0F,
            offsetx: #[verifier::truncate]
            ((offset >> 32) as u32),
            offseth: #[verifier::truncate]
            ((offset >> 24) as u8),
            reserved: 0,
        }
    }

    /// Returns the "Access Bytes" that VMX wants: the access byte in bits 0
    /// to 7 and the flags in bits 12 to 15.
    pub fn access_bytes(&self) -> (bytes: u32)
        ensures
            bytes == self.access_type + 0x1000 * self.flags(),
    {
        proof {
            lemma_access_bytes(self.access_type, self.flags_limith);
        }
        let flags = self.flags_limith & 0b11110000;
        (self.access_type as u32) | ((flags as u32) << 8)
    }
}

/// A Global Descriptor Table.
#[derive(Debug, Clone, Copy)]
pub struct GlobalDescriptorTable {
    /// Null entry.
    pub null: GdtEntry,
    /// Kernel data.
    pub kernel_data: GdtEntry,
    /// Kernel code.
    pub kernel_code: GdtEntry,
    /// User data.
    pub user_data: GdtEntry,
    /// User code.
    pub user_code: GdtEntry,
    /// TSS.
    ///
    /// This is 16 bytes in Long Mode.
    pub tss: BigGdtEntry,
}

/// Whether `entry` is a flat long-mode segment with the given access byte.
pub open spec fn is_flat_segment(entry: GdtEntry, access: u8) -> bool {
    &&& entry.offset() == 0
    &&& entry.limit() == 0
    &&& entry.flags() == 2
    &&& entry.access == access
}

impl GlobalDescriptorTable {
    /// Whether every entry of the table is empty.
    pub open spec fn is_empty(self) -> bool {
        &&& self.null.is_empty()
        &&& self.kernel_data.is_empty()
        &&& self.kernel_code.is_empty()
        &&& self.user_data.is_empty()
        &&& self.user_code.is_empty()
        &&& self.tss.is_empty()
    }

    /// Zero-initializes the GDT.
    ///
    /// It must be correctly initialized before being loaded.
    pub fn empty() -> (gdt: Self)
        ensures
            gdt.is_empty(),
    {
        Self {
            null: GdtEntry::empty(),
            kernel_code: GdtEntry::empty(),
            kernel_data: GdtEntry::empty(),
            user_code: GdtEntry::empty(),
            user_data: GdtEntry::empty(),
            tss: BigGdtEntry::empty(),
        }
    }
}

/// A present code or data segment of the given privilege level that can be
/// read and written: the access byte is `0x92` plus the level in bits 5 and
/// 6 plus the executable bit.
fn segment(privilege: u8, executable: bool) -> (entry: GdtEntry)
    requires
        privilege < 4,
    ensures
        is_flat_segment(
            entry,
            (0x92 + 0x20 * privilege + if executable {
                8int
            } else {
                0int
            }) as u8,
        ),
{
    let mut access = AccessByte::new();
    access.set_privilege(privilege);
    access.set_executable(executable);
    access.set_read_write(true);
    proof {
        lemma_segment_access(privilege);
    }
    GdtEntry::new(0, 0, access, GDT_F_LONG_MODE)
}

/// The access bytes of the four levels, with and without the executable bit.
proof fn lemma_segment_access(privilege: u8)
    by (bit_vector)
    requires
        privilege < 4,
    ensures
        ((((0x90u8 & 0x9f) | ((privilege & 3) << 5)) | 0x08) | 0x02) == 0x9au8 + 0x20u8 * privilege,
        ((((0x90u8 & 0x9f) | ((privilege & 3) << 5)) & 0xf7) | 0x02) == 0x92u8 + 0x20u8 * privilege,
        (0x89u8 & 0x9f) | ((3u8 & 3) << 5) == 0xe9u8,
{
}

/// Fills the GDT in: flat kernel and user segments for data and code, and
/// the task state segment at `tss_addr` with `tss_limit`, open to ring 3.
/// The null entry is not touched.
pub fn init_cpu(gdt: &mut GlobalDescriptorTable, tss_addr: u64, tss_limit: u32)
    ensures
        final(gdt).null == old(gdt).null,
        is_flat_segment(final(gdt).kernel_data, 0x92),
        is_flat_segment(final(gdt).kernel_code, 0x9a),
        is_flat_segment(final(gdt).user_data, 0xf2),
        is_flat_segment(final(gdt).user_code, 0xfa),
        final(gdt).tss.access_type == 0xe9,
        final(gdt).tss.offset() == tss_addr,
        final(gdt).tss.limit() == tss_limit % 0x10_0000,
        final(gdt).tss.flags() == 0,
        final(gdt).tss.reserved == 0,
{
    gdt.kernel_data = segment(0, false);
    gdt.kernel_code = segment(0, true);
    // User data segment
    gdt.user_data = segment(3, false);
    // User code segment
    gdt.user_code = segment(3, true);
    // TSS segment
    gdt.tss = {
        let mut access = SystemAccessByte::new(SystemDescriptorType::AvailableTss);
        access.set_privilege(3);
        proof {
            lemma_segment_access(3);
        }
        BigGdtEntry::new(tss_addr, tss_limit, access, 0)
    };
}

} // verus!
