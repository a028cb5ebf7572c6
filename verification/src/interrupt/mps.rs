//! The MultiProcessor Specification tables, read from bytes.

use vstd::prelude::*;

use crate::error::Error;

verus! {

/// The IOAPIC base that is assumed when no table names one.
pub const FALLBACK_IOAPIC_BASE: usize = 0xfec0_0000;

/// Where the Extended BIOS Data Area starts.
pub const EBDA_BASE: usize = 0x80000;

/// The most bytes that the Extended BIOS Data Area takes.
pub const EBDA_MAX_SIZE: usize = 0x2_0000;

/// Where the BIOS ROM starts.
pub const BIOS_BASE: usize = 0xf0000;

/// The most bytes that are searched of the BIOS ROM.
pub const BIOS_MAX_SIZE: usize = 0x1_0000;

/// The type of the entry of an IOAPIC.
pub const ENTRY_IOAPIC: u8 = 2;

/// Bytes in the header of the configuration table.
pub const HEADER_SIZE: usize = 44;

/// Whether the four bytes from offset `at` are the signature `_MP_` of the
/// floating pointer.
pub open spec fn is_fp_signature(memory: Seq<u8>, at: int) -> bool {
    &&& memory[at] == 0x5f
    &&& memory[at + 1] == 0x4d
    &&& memory[at + 2] == 0x50
    &&& memory[at + 3] == 0x5f
}

/// Whether the four bytes from offset `at` are the signature `PCMP` of the
/// configuration table.
pub open spec fn is_config_signature(memory: Seq<u8>, at: int) -> bool {
    &&& memory[at] == 0x50
    &&& memory[at + 1] == 0x43
    &&& memory[at + 2] == 0x4d
    &&& memory[at + 3] == 0x50
}

/// The little-endian 32-bit number that starts at offset `at`.
pub open spec fn le_u32(bytes: Seq<u8>, at: int) -> int {
    bytes[at] + 0x100 * bytes[at + 1] + 0x1_0000 * bytes[at + 2] + 0x100_0000 * bytes[at + 3]
}

/// The MPS floating pointer.
#[derive(Debug, Clone, Copy, PartialEq, Eq)]
pub struct FloatingPointer {
    /// The signature, `_MP_`.
    pub signature: [u8; 4],
    /// The physical address of the configuration table.
    pub phys_addr: u32,
}

/// The entry of an IOAPIC in the configuration table.
#[derive(Debug, Clone, Copy, PartialEq, Eq)]
pub struct IoApicEntry {
    /// The type of the entry, 2.
    pub entry_type: u8,
    /// The identifier of the IOAPIC.
    pub id: u8,
    /// The version of the IOAPIC.
    pub version: u8,
    /// Whether the IOAPIC can be used, in bit 0.
    pub flags: u8,
    /// The physical address of the IOAPIC.
    pub base: u32,
}

/// The IOAPIC entry whose eight bytes start at offset `at`.
pub open spec fn ioapic_entry_at(bytes: Seq<u8>, at: int) -> IoApicEntry {
    IoApicEntry {
        entry_type: bytes[at],
        id: bytes[at + 1],
        version: bytes[at + 2],
        flags: bytes[at + 3],
        base: le_u32(bytes, at + 4) as u32,
    }
}

/// The number of bytes that an entry of the given type takes: 20 for a
/// processor, 8 for a bus, an IOAPIC and the two kinds of interrupt
/// assignment; other types are not valid.
pub open spec fn entry_len(entry_type: u8) -> Option<int> {
    if entry_type == 0 {
        Some(20)
    } else if entry_type <= 4 {
        Some(8)
    } else {
        None
    }
}

/// The first offset that is a multiple of 16, not below `from` and below
/// `end`, at which the floating pointer signature stands, if there is one.
pub open spec fn first_signature(memory: Seq<u8>, from: int, end: int) -> Option<int>
    decreases
            if from < end {
                end - from
            } else {
                0
            },
{
    if from >= end {
        None
    } else if is_fp_signature(memory, from) {
        Some(from)
    } else {
        first_signature(memory, from + 16, end)
    }
}

/// Finds the floating pointer in `memory`: the offset of the first
/// signature `_MP_` at a multiple of 16 below the last 16 bytes.
pub fn find_fp(memory: &[u8]) -> (r: Option<usize>)
    requires
        memory@.len() >= 16,
    ensures
        r.is_some() == first_signature(memory@, 0, memory@.len() - 16).is_some(),
        r.is_some() ==> r.unwrap() == first_signature(memory@, 0, memory@.len() - 16).unwrap(),
{
    let mut cur: usize = 0;
    let search_end = memory.len() - 16;
    while cur < search_end
        invariant
            search_end == memory@.len() - 16,
            first_signature(memory@, 0, search_end as int) == first_signature(
                memory@,
                cur as int,
                search_end as int,
            ),
        decreases
                if cur < search_end {
                    search_end - cur
                } else {
                    0
                },
    {
        if memory[cur] == 0x5f && memory[cur + 1] == 0x4d && memory[cur + 2] == 0x50 && memory[cur
            + 3] == 0x5f {
            return Some(cur);
        }
        cur += 16;
    }
    None
}

/// Reads the floating pointer at offset `at`: its signature and the address
/// of the configuration table. There is none if its eight bytes do not lie
/// inside `memory`.
pub fn read_fp(memory: &[u8], at: usize) -> (r: Option<FloatingPointer>)
    ensures
        r.is_some() == (at + 8 <= memory@.len()),
        r.is_some() ==> r.unwrap().signature@ == memory@.subrange(at as int, at + 4),
        r.is_some() ==> r.unwrap().phys_addr == le_u32(memory@, at + 4),
{
    if memory.len() < 8 || at > memory.len() - 8 {
        return None;
    }
    let signature = [memory[at], memory[at + 1], memory[at + 2], memory[at + 3]];
    assert(signature@ =~= memory@.subrange(at as int, at + 4));
    let phys_addr = memory[at + 4] as u32 + 0x100 * (memory[at + 5] as u32) + 0x1_0000 * (memory[at
        + 6] as u32) + 0x100_0000 * (memory[at + 7] as u32);
    Some(FloatingPointer { signature, phys_addr })
}

/// The MPS configuration table, of which the header is read.
#[derive(Debug, Clone, PartialEq, Eq)]
pub struct ConfigurationTable {
    /// The number of entries behind the header.
    pub entry_count: u16,
    /// The bytes of the table, from its signature on.
    pub bytes: Vec<u8>,
}

/// Where a walk over `left` entries that starts at offset `cur` finds the
/// first IOAPIC entry: `Ok(None)` if it finds none, and an error if an entry
/// has a type that is not valid or does not lie inside the bytes.
pub open spec fn ioapic_from(bytes: Seq<u8>, cur: int, left: int) -> Result<Option<int>, Error>
    decreases left,
{
    if left <= 0 {
        Ok(None)
    } else if cur < 0 || cur >= bytes.len() {
        Err(Error::Other("MPS entry outside the table"))
    } else if entry_len(bytes[cur]).is_none() {
        Err(Error::Other("Invalid MPS entry type"))
    } else if cur + entry_len(bytes[cur]).unwrap() > bytes.len() {
        Err(Error::Other("MPS entry outside the table"))
    } else if bytes[cur] == 2 {
        Ok(Some(cur))
    } else {
        ioapic_from(bytes, cur + entry_len(bytes[cur]).unwrap(), left - 1)
    }
}

impl FloatingPointer {
    /// The configuration table in `table`, the bytes at the address that the
    /// floating pointer holds. There is none if the bytes do not start with
    /// the signature `PCMP` or do not hold the header.
    pub fn get_config_table(&self, table: &[u8]) -> (r: Option<ConfigurationTable>)
        ensures
            r.is_some() == (table@.len() >= 44 && is_config_signature(table@, 0)),
            r.is_some() ==> r.unwrap().bytes@ == table@,
            r.is_some() ==> r.unwrap().entry_count == table@[34] + 0x100 * table@[35],
    {
        if table.len() < HEADER_SIZE {
            return None;
        }
        if table[0] != 0x50 || table[1] != 0x43 || table[2] != 0x4d || table[3] != 0x50 {
            return None;
        }
        let entry_count = table[34] as u16 + 0x100 * (table[35] as u16);
        let mut bytes: Vec<u8> = Vec::new();
        for i in 0..table.len()
            invariant
                bytes@ == table@.subrange(0, i as int),
        {
            bytes.push(table[i]);
            assert(bytes@ =~= table@.subrange(0, i + 1));
        }
        assert(bytes@ =~= table@);
        Some(ConfigurationTable { entry_count, bytes })
    }
}

impl ConfigurationTable {
    /// The first IOAPIC entry among the entries behind the header, `Ok(None)`
    /// if there is none, and an error for a table that is not valid.
    pub fn get_ioapic_entry(&self) -> (r: Result<Option<IoApicEntry>, Error>)
        ensures
            match ioapic_from(self.bytes@, 44, self.entry_count as int) {
                Ok(Some(at)) => r == Ok::<Option<IoApicEntry>, Error>(
                    Some(ioapic_entry_at(self.bytes@, at)),
                ),
                Ok(None) => r == Ok::<Option<IoApicEntry>, Error>(None),
                Err(e) => r == Err::<Option<IoApicEntry>, Error>(e),
            },
    {
        let mut cur: usize = HEADER_SIZE;
        let mut i: u16 = 0;
        while i < self.entry_count
            invariant
                i <= self.entry_count,
                44 <= cur,
                ioapic_from(self.bytes@, 44, self.entry_count as int) == ioapic_from(
                    self.bytes@,
                    cur as int,
                    self.entry_count - i,
                ),
            decreases self.entry_count - i,
        {
            if cur >= self.bytes.len() {
                return Err(Error::Other("MPS entry outside the table"));
            }
            let entry_type = self.bytes[cur];
            let entry_len: usize = if entry_type == 0 {
                20  // Processor
            } else if entry_type <= 4 {
                8
            } else {
                return Err(Error::Other("Invalid MPS entry type"));
            };
            if entry_len > self.bytes.len() - cur {
                return Err(Error::Other("MPS entry outside the table"));
            }
            if entry_type == ENTRY_IOAPIC {
                let base = self.bytes[cur + 4] as u32 + 0x100 * (self.bytes[cur + 5] as u32)
                    + 0x1_0000 * (self.bytes[cur + 6] as u32) + 0x100_0000 * (self.bytes[cur
                    + 7] as u32);
                return Ok(
                    Some(
                        IoApicEntry {
                            entry_type,
                            id: self.bytes[cur + 1],
                            version: self.bytes[cur + 2],
                            flags: self.bytes[cur + 3],
                            base,
                        },
                    ),
                );
            }
            cur += entry_len;
            i += 1;
        }
        Ok(None)
    }
}

/// The physical address of the IOAPIC: the one that is assumed for every
/// machine.
pub fn probe_ioapic() -> (base: usize)
    ensures
        base == FALLBACK_IOAPIC_BASE,
{
    FALLBACK_IOAPIC_BASE
}

} // verus!
