//! X86-64 IDT abstractions.
//!
//! References:
//! - <https://wiki.osdev.org/Interrupt_Descriptor_Table>

use core::marker::PhantomData;
use vstd::prelude::*;
use vstd::std_specs::convert::FromSpecImpl;

use super::{
    HandlerFunc, HandlerFuncWithErrCode, TrampolineHandlerFunc, IST_EXCEPTION, IST_IRQ,
};
use crate::bits::{assign_bit, assign_bits, largest_in, with_bit, with_bits};
use crate::cpu::Ring;

verus! {

/// What the fields of the attributes byte are.
proof fn lemma_attribute_bits(b: u8, v: u8)
    by (bit_vector)
    ensures
        with_bit(b, 7, true) == b | 0x80,
        with_bit(b, 7, false) == b & 0x7f,
        largest_in(0, 4) == 15,
        largest_in(5, 7) == 3,
        v <= 15 ==> with_bits(b, 0, 4, v) == (b & 0xf0) | v,
        v <= 3 ==> with_bits(b, 5, 7, v) == (b & 0x9f) | (v << 5),
        b == 0 ==> ((b | 0x80) & 0xf0) | 0x0e == 0x8e,
{
}

/// How a handler address falls into the pieces of an entry.
proof fn lemma_address_pieces(x: u64)
    by (bit_vector)
    ensures
        (x as u16) as u64 == x % 0x1_0000u64,
        ((x >> 16) as u16) as u64 == (x / 0x1_0000u64) % 0x1_0000u64,
        ((x >> 32) as u32) as u64 == x / 0x1_0000_0000u64,
{
}

/// Attributes of an IDT entry.
///
/// ```text
///   7   6   5   4   3   2   1   0
/// +---+---+---+---+---+---+---+---+
/// | P |  DPL  | Z |    GateType   |
/// +---+---+---+---+---+---+---+---+
/// ```
///
/// - P: Present.
/// - DPL: Descriptor Privilege Level.
/// - Z: Zero.
/// - GateType: Type of the IDT gate (see `GateType`).
#[derive(Clone, Copy, Debug, PartialEq, Eq)]
pub struct EntryAttributes(pub u8);

impl EntryAttributes {
    /// Returns an empty IDT entry (Not Present).
    pub fn missing() -> (attributes: Self)
        ensures
            attributes.0 == 0,
    {
        Self(0)
    }

    /// Sets or clears the Present bit.
    pub fn set_present(&mut self, present: bool) -> (r: &mut Self)
        ensures
            r.0 == if present {
                old(self).0 | 0x80
            } else {
                old(self).0 & 0x7f
            },
            *final(self) == *final(r),
    {
        proof {
            lemma_attribute_bits(self.0, 0);
        }
        assign_bit(&mut self.0, 7, present);
        self
    }

    /// Sets the Descriptor Privilege Level.
    pub fn set_privilege_level(&mut self, dpl: Ring) -> (r: &mut Self)
        ensures
            r.0 == (old(self).0 & 0x9f) | (dpl.number() << 5),
            *final(self) == *final(r),
    {
        let level = dpl.into_u8();
        proof {
            lemma_attribute_bits(self.0, level);
        }
        assign_bits(&mut self.0, 5, 7, level);
        self
    }

    /// Sets what kind of IDT gate the entry is.
    pub fn set_gate_type(&mut self, gate_type: GateType) -> (r: &mut Self)
        ensures
            r.0 == (old(self).0 & 0xf0) | gate_type.number(),
            *final(self) == *final(r),
    {
        let number = gate_type.into_u8();
        proof {
            lemma_attribute_bits(self.0, number);
        }
        assign_bits(&mut self.0, 0, 4, number);
        self
    }
}

/// Type of an IDT gate.
///
/// Trap and Interrupt gates are similar, and their descriptors are
/// structurally the same, they differ only in the "type" field. The
/// difference is that for interrupt gates, interrupts are automatically
/// disabled upon entry and reenabled upon IRET which restores the saved
/// EFLAGS.
///
/// We mostly deal with `Int32` and `Trap32`. The GateType field is 4-bit wide.
#[derive(Clone, Copy, Debug, PartialEq, Eq)]
pub enum GateType {
    /// 32-bit interrupt gate (0b1110).
    ///
    /// Interrupts are automatically disabled upon entry.
    Int32,
    /// 16-bit interrupt gate (0b0110).
    ///
    /// Interrupts are automatically disabled upon entry.
    Int16,
    /// 32-bit trap gate (0b1111).
    ///
    /// Interrupts are not disabled upon entry.
    Trap32,
    /// 16-bit trap gate (0b0111).
    ///
    /// Interrupts are not disabled upon entry.
    Trap16,
}

impl GateType {
    /// The four-bit number that the attributes hold for this kind of gate.
    pub open spec fn number(self) -> u8 {
        match self {
            GateType::Int32 => 0b1110,
            GateType::Trap32 => 0b1111,
            GateType::Int16 => 0b0110,
            GateType::Trap16 => 0b0111,
        }
    }

    /// The four-bit number that the attributes hold for this kind of gate.
    pub fn into_u8(self) -> (number: u8)
        ensures
            number == self.number(),
    {
        match self {
            GateType::Int32 => 0b1110,
            GateType::Trap32 => 0b1111,
            GateType::Int16 => 0b0110,
            GateType::Trap16 => 0b0111,
        }
    }
}

impl From<GateType> for u8 {
    fn from(gate_type: GateType) -> (number: u8) {
        gate_type.into_u8()
    }
}

impl FromSpecImpl<GateType> for u8 {
    open spec fn obeys_from_spec() -> bool {
        true
    }

    open spec fn from_spec(gate_type: GateType) -> u8 {
        gate_type.number()
    }
}

/// An entry in an X86-64 Interrupt Descriptor Table.
#[derive(Debug)]
pub struct Entry<F> {
    /// Bits 0 to 15 of the ISR entrypoint.
    pub entry_low: u16,
    /// GDT selector.
    pub selector: u16,
    /// The Interrupt Stack Table offset.
    ///
    /// Only the 3 least-significant bits are used.
    pub ist: u8,
    /// IDT attributes.
    pub attributes: EntryAttributes,
    /// Bits 16 to 31 of the ISR entrypoint.
    pub entry_mid: u16,
    /// Bits 32 to 63 of the ISR entrypoint.
    pub entry_hi: u32,
    /// Reserved.
    pub reserved: u32,
    /// The kind of handler that the entry takes.
    pub phantom: PhantomData<F>,
}

impl<F> Clone for Entry<F> {
    fn clone(&self) -> (entry: Self)
        ensures
            entry == *self,
    {
        Entry {
            entry_low: self.entry_low,
            selector: self.selector,
            ist: self.ist,
            attributes: self.attributes,
            entry_mid: self.entry_mid,
            entry_hi: self.entry_hi,
            reserved: self.reserved,
            phantom: PhantomData,
        }
    }
}

impl<F> Copy for Entry<F> {

}

impl<F> Entry<F> {
    /// The address of the handler that the entry points to.
    pub open spec fn handler_addr(self) -> int {
        self.entry_low + 0x1_0000 * self.entry_mid + 0x1_0000_0000 * self.entry_hi
    }

    /// Whether the entry is not present, points nowhere and uses interrupt
    /// stack `ist`.
    pub open spec fn is_missing(self, ist: int) -> bool {
        &&& self.handler_addr() == 0
        &&& self.selector == 0
        &&& self.ist == ist
        &&& self.attributes.0 == 0
        &&& self.reserved == 0
    }

    /// Creates a non-present IDT entry.
    pub fn missing() -> (entry: Self)
        ensures
            entry.is_missing(0),
    {
        Self {
            entry_low: 0,
            entry_mid: 0,
            entry_hi: 0,
            selector: 0,
            ist: 0,
            attributes: EntryAttributes::missing(),
            reserved: 0,
            phantom: PhantomData,
        }
    }

    /// Creates a non-present entry that uses the stack of the exceptions.
    pub fn missing_exception() -> (entry: Self)
        ensures
            entry.is_missing(IST_EXCEPTION as int),
    {
        let mut entry = Self::missing();
        entry.ist = IST_EXCEPTION as u8;
        entry
    }

    /// Creates a non-present entry that uses the stack of the interrupt
    /// requests.
    pub fn missing_irq() -> (entry: Self)
        ensures
            entry.is_missing(IST_IRQ as int),
    {
        let mut entry = Self::missing();
        entry.ist = IST_IRQ as u8;
        entry
    }

    /// Sets the handler address for the IDT entry and sets the present bit.
    ///
    /// The entry becomes a present 32-bit interrupt gate. `selector` is the
    /// code segment selector that is active in the CPU.
    pub fn set_handler_addr(&mut self, addr: u64, selector: u16) -> (r: &mut Self)
        ensures
            r.handler_addr() == addr,
            r.selector == selector,
            r.attributes.0 == ((old(self).attributes.0 | 0x80) & 0xf0) | 0x0e,
            r.ist == old(self).ist,
            r.reserved == old(self).reserved,
            *final(self) == *final(r),
    {
        proof {
            lemma_address_pieces(addr);
        }
        self.entry_low = #[verifier::truncate]
        (addr as u16);
        self.entry_mid = #[verifier::truncate]
        ((addr >> 16) as u16);
        self.entry_hi = #[verifier::truncate]
        ((addr >> 32) as u32);
        self.attributes.set_present(true);
        self.attributes.set_gate_type(GateType::Int32);
        self.selector = selector;
        self
    }

    /// Sets the IST stack.
    pub fn set_ist(&mut self, ist: u8) -> (r: &mut Self)
        ensures
            r.ist == ist,
            r.entry_low == old(self).entry_low,
            r.entry_mid == old(self).entry_mid,
            r.entry_hi == old(self).entry_hi,
            r.selector == old(self).selector,
            r.attributes == old(self).attributes,
            r.reserved == old(self).reserved,
            *final(self) == *final(r),
    {
        self.ist = ist;
        self
    }
}

/// An X86-64 Interrupt Descriptor Table.
#[derive(Clone)]
pub struct Idt {
    /// Device-By-Zero (`#DE`).
    pub divide_by_zero: Entry<HandlerFunc>,
    /// Debug (`#DB`)
    pub debug: Entry<HandlerFunc>,
    /// Non-Maskable Exception.
    pub non_maskable_interrupt: Entry<HandlerFunc>,
    /// Breakpoint (`#BP`)
    pub breakpoint: Entry<TrampolineHandlerFunc>,
    /// Overflow (`#OF`)
    pub overflow: Entry<HandlerFunc>,
    /// Bound-Range Exception (`#BR`)
    pub bound_range_exceeded: Entry<HandlerFunc>,
    /// Invalid Opcode (`#UD`)
    pub invalid_opcode: Entry<HandlerFunc>,
    /// Device Not Available (`#NM`)
    pub device_not_available: Entry<HandlerFunc>,
    /// Double Fault (`#DF`)
    pub double_fault: Entry<HandlerFunc>,
    /// Obsolete
    pub exception_9: Entry<HandlerFunc>,
    /// Invalid TSS (`#TS`)
    pub invalid_tss: Entry<HandlerFuncWithErrCode>,
    /// Segment Not Present (`#NP`)
    pub segment_not_present: Entry<HandlerFuncWithErrCode>,
    /// Stack Segment Fault (`#SS`)
    pub stack_segment_fault: Entry<HandlerFuncWithErrCode>,
    /// General Protection Fault (`#GP`)
    pub general_protection_fault: Entry<TrampolineHandlerFunc>,
    /// Page Fault (`#PF`)
    pub page_fault: Entry<TrampolineHandlerFunc>,
    /// Reserved
    pub exception_15: Entry<HandlerFunc>,
    /// X87 Floating-Point Exception (`#MF`)
    pub x87_floating_point: Entry<HandlerFunc>,
    /// Alignment Check (`#AC`)
    pub alignment_check: Entry<HandlerFunc>,
    /// Machine Check (`#MC`)
    pub machine_check: Entry<HandlerFunc>,
    /// SIMD Floating-Point (`#XM`)
    pub simd_floating_point: Entry<HandlerFunc>,
    /// Virtualization (`#VE`)
    pub virtualization: Entry<HandlerFunc>,
    /// Reserved
    pub reserved_2: [Entry<HandlerFunc>; 9],
    /// Security (`#SX`)
    pub security_exception: Entry<HandlerFunc>,
    /// Reserved
    pub reserved_3: Entry<HandlerFunc>,
    /// Other interrupts
    pub interrupts: [Entry<TrampolineHandlerFunc>; 224],
}

impl Idt {
    /// Whether the named exceptions, but for the breakpoint, are missing
    /// entries on the stack of the exceptions.
    pub open spec fn exceptions_missing(self) -> bool {
        &&& self.divide_by_zero.is_missing(IST_EXCEPTION as int)
        &&& self.debug.is_missing(IST_EXCEPTION as int)
        &&& self.non_maskable_interrupt.is_missing(IST_EXCEPTION as int)
        &&& self.overflow.is_missing(IST_EXCEPTION as int)
        &&& self.bound_range_exceeded.is_missing(IST_EXCEPTION as int)
        &&& self.invalid_opcode.is_missing(IST_EXCEPTION as int)
        &&& self.device_not_available.is_missing(IST_EXCEPTION as int)
        &&& self.double_fault.is_missing(IST_EXCEPTION as int)
        &&& self.exception_9.is_missing(IST_EXCEPTION as int)
        &&& self.invalid_tss.is_missing(IST_EXCEPTION as int)
        &&& self.segment_not_present.is_missing(IST_EXCEPTION as int)
        &&& self.stack_segment_fault.is_missing(IST_EXCEPTION as int)
        &&& self.general_protection_fault.is_missing(IST_EXCEPTION as int)
        &&& self.page_fault.is_missing(IST_EXCEPTION as int)
        &&& self.exception_15.is_missing(IST_EXCEPTION as int)
        &&& self.x87_floating_point.is_missing(IST_EXCEPTION as int)
        &&& self.alignment_check.is_missing(IST_EXCEPTION as int)
        &&& self.machine_check.is_missing(IST_EXCEPTION as int)
        &&& self.simd_floating_point.is_missing(IST_EXCEPTION as int)
        &&& self.virtualization.is_missing(IST_EXCEPTION as int)
        &&& self.security_exception.is_missing(IST_EXCEPTION as int)
    }

    /// A table without a handler: every entry is missing. The exceptions use
    /// the stack of the exceptions, the interrupts that of the interrupt
    /// requests; the breakpoint and the reserved entries switch to no stack.
    pub fn new() -> (idt: Self)
        ensures
            idt.exceptions_missing(),
            idt.breakpoint.is_missing(0),
            idt.reserved_3.is_missing(0),
            forall|i: int| 0 <= i < 9 ==> (#[trigger] idt.reserved_2@[i]).is_missing(0),
            forall|i: int|
                0 <= i < 224 ==> (#[trigger] idt.interrupts@[i]).is_missing(IST_IRQ as int),
    {
        Self {
            divide_by_zero: Entry::missing_exception(),
            debug: Entry::missing_exception(),
            non_maskable_interrupt: Entry::missing_exception(),
            breakpoint: Entry::missing(),
            overflow: Entry::missing_exception(),
            bound_range_exceeded: Entry::missing_exception(),
            invalid_opcode: Entry::missing_exception(),
            device_not_available: Entry::missing_exception(),
            double_fault: Entry::missing_exception(),
            exception_9: Entry::missing_exception(),
            invalid_tss: Entry::missing_exception(),
            segment_not_present: Entry::missing_exception(),
            stack_segment_fault: Entry::missing_exception(),
            general_protection_fault: Entry::missing_exception(),
            page_fault: Entry::missing_exception(),
            exception_15: Entry::missing_exception(),
            x87_floating_point: Entry::missing_exception(),
            alignment_check: Entry::missing_exception(),
            machine_check: Entry::missing_exception(),
            simd_floating_point: Entry::missing_exception(),
            virtualization: Entry::missing_exception(),
            reserved_2: [Entry::missing();9],
            security_exception: Entry::missing_exception(),
            reserved_3: Entry::missing(),
            interrupts: [Entry::missing_irq();224],
        }
    }
}

} // verus!
