//! The per-CPU data structure.

use vstd::prelude::*;

use x86::bits64::task::TaskStateSegment;

use crate::gdt::task::{empty_tss, ist_pointers, rsp_pointers};
use crate::gdt::GlobalDescriptorTable;

verus! {

/// Size of an IST stack.
pub const IST_STACK_SIZE: usize = 0x10_0000;

/// x86 Protection levels
#[derive(Debug, Clone, Copy, PartialEq, Eq)]
pub enum Ring {
    Ring0,
    Ring1,
    Ring2,
    Ring3,
}

impl Ring {
    /// The number of the level, a number of two bits.
    pub open spec fn number(self) -> u8 {
        match self {
            Ring::Ring0 => 0,
            Ring::Ring1 => 1,
            Ring::Ring2 => 2,
            Ring::Ring3 => 3,
        }
    }

    /// The number of the level.
    pub fn into_u8(self) -> (number: u8)
        ensures
            number == self.number(),
    {
        match self {
            Ring::Ring0 => 0,
            Ring::Ring1 => 1,
            Ring::Ring2 => 2,
            Ring::Ring3 => 3,
        }
    }
}

/// A stack.
pub struct Stack<const SZ: usize>(pub [u8; SZ]);

/// An IST stack.
pub type IstStack = Stack<IST_STACK_SIZE>;

impl<const SZ: usize> Stack<SZ> {
    /// A stack of zero bytes.
    pub fn new() -> (stack: Self)
        ensures
            forall|i: int| 0 <= i < SZ ==> stack.0@[i] == 0,
    {
        Self([0u8;SZ])
    }

    /// The number of bytes between the start of the stack and its bottom,
    /// the address from which it grows down.
    pub fn size(&self) -> (size: usize)
        ensures
            size == SZ,
    {
        SZ
    }
}

/// The per-CPU data: the descriptor table, the task state segment and the
/// interrupt stacks of one CPU.
pub struct Cpu {
    /// The CPU ID.
    ///
    /// Currently it's the logical APIC ID.
    pub id: usize,
    /// The Global Descriptor Table.
    pub gdt: GlobalDescriptorTable,
    /// The Task State Segment.
    pub tss: TaskStateSegment,
    /// The Interrupt Stacks.
    pub ist: [IstStack; 7],
}

impl Cpu {
    /// The data of CPU 0 before anything is set up: an empty descriptor
    /// table, a task state segment without stacks, and seven zeroed stacks.
    pub fn new() -> (cpu: Self)
        ensures
            cpu.id == 0,
            cpu.gdt.is_empty(),
            ist_pointers(cpu.tss) == Seq::new(7, |i: int| 0u64),
            rsp_pointers(cpu.tss) == Seq::new(3, |i: int| 0u64),
            forall|k: int, i: int|
                0 <= k < 7 && 0 <= i < IST_STACK_SIZE ==> #[trigger] cpu.ist@[k].0@[i] == 0,
    {
        Self {
            id: 0,
            gdt: GlobalDescriptorTable::empty(),
            tss: empty_tss(),
            ist: [
                IstStack::new(),
                IstStack::new(),
                IstStack::new(),
                IstStack::new(),
                IstStack::new(),
                IstStack::new(),
                IstStack::new(),
            ],
        }
    }
}

/// The identifier of the CPU that runs; there is only one.
pub fn get_cpu_id() -> (id: i32)
    ensures
        id == 0,
{
    0
}

} // verus!
