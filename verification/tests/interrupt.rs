use kernel_core::cpu::Ring;
use kernel_core::interrupt::exception::{Exception, EXCEPTION_MAX};
use kernel_core::interrupt::idt::{Entry, EntryAttributes, GateType, Idt};
use kernel_core::interrupt::{Cycles, HandlerFunc, InterruptStackFrame, IST_EXCEPTION, IST_IRQ};

#[test]
fn exception_numbers() {
    assert_eq!(usize::from(Exception::DivideByZero), 0);
    assert_eq!(usize::from(Exception::DoubleFault), 8);
    assert_eq!(usize::from(Exception::InvalidTss), 10);
    assert_eq!(usize::from(Exception::PageFault), 14);
    assert_eq!(usize::from(Exception::X87FloatingPoint), 16);
    assert_eq!(usize::from(Exception::Virtualization), 20);
    assert_eq!(usize::from(Exception::Security), 30);
    assert_eq!(usize::from(Exception::Reserved(21)), 21);
    assert_eq!(Exception::GeneralProtectionFault.into_usize(), 13);
}

#[test]
fn exception_from_number() {
    assert_eq!(Exception::try_from(0), Ok(Exception::DivideByZero));
    assert_eq!(Exception::try_from(3), Ok(Exception::Breakpoint));
    assert_eq!(Exception::try_from(9), Ok(Exception::Reserved(9)));
    assert_eq!(Exception::try_from(15), Ok(Exception::Reserved(15)));
    assert_eq!(Exception::try_from(0x15), Ok(Exception::Reserved(0x15)));
    assert_eq!(Exception::try_from(0x1d), Ok(Exception::Reserved(0x1d)));
    assert_eq!(Exception::try_from(0x1e), Ok(Exception::Security));
    assert_eq!(Exception::from_usize(0x13), Ok(Exception::SimdFloatingPoint));
}

#[test]
fn numbers_from_31_on_are_no_exceptions() {
    assert_eq!(EXCEPTION_MAX, 31);
    assert_eq!(Exception::try_from(31), Err("Not an exception"));
    assert_eq!(Exception::try_from(32), Err("Not an exception"));
    assert_eq!(Exception::try_from(usize::MAX), Err("Not an exception"));
}

#[test]
fn every_exception_number_comes_back() {
    for num in 0..31 {
        let exception = Exception::try_from(num).unwrap();
        assert_eq!(usize::from(exception), num);
    }
}

#[test]
fn gate_type_numbers() {
    assert_eq!(u8::from(GateType::Int32), 0b1110);
    assert_eq!(u8::from(GateType::Trap32), 0b1111);
    assert_eq!(u8::from(GateType::Int16), 0b0110);
    assert_eq!(u8::from(GateType::Trap16), 0b0111);
}

#[test]
fn entry_attributes_fields() {
    let mut attributes = EntryAttributes::missing();
    assert_eq!(attributes.0, 0);
    attributes.set_present(true);
    assert_eq!(attributes.0, 0x80);
    attributes.set_gate_type(GateType::Trap32);
    assert_eq!(attributes.0, 0x8f);
    attributes.set_gate_type(GateType::Int16);
    assert_eq!(attributes.0, 0x86);
    attributes.set_privilege_level(Ring::Ring3);
    assert_eq!(attributes.0, 0xe6);
    attributes.set_privilege_level(Ring::Ring1);
    assert_eq!(attributes.0, 0xa6);
    attributes.set_present(false);
    assert_eq!(attributes.0, 0x26);
    // the setters chain
    let mut chained = EntryAttributes(0x10);
    chained.set_present(true).set_privilege_level(Ring::Ring2).set_gate_type(GateType::Int32);
    assert_eq!(chained.0, 0xde);
}

#[test]
fn missing_entries() {
    let entry: Entry<HandlerFunc> = Entry::missing();
    assert_eq!((entry.entry_low, entry.entry_mid, entry.entry_hi), (0, 0, 0));
    assert_eq!((entry.selector, entry.ist, entry.attributes.0, entry.reserved), (0, 0, 0, 0));
    let exception: Entry<HandlerFunc> = Entry::missing_exception();
    assert_eq!(exception.ist as usize, IST_EXCEPTION);
    assert_eq!(exception.attributes.0, 0);
    let irq: Entry<HandlerFunc> = Entry::missing_irq();
    assert_eq!(irq.ist as usize, IST_IRQ);
}

#[test]
fn set_handler_addr_makes_a_present_interrupt_gate() {
    let mut entry: Entry<HandlerFunc> = Entry::missing_exception();
    entry.set_handler_addr(0xffff_8000_1234_5678, 0x10);
    assert_eq!(entry.entry_low, 0x5678);
    assert_eq!(entry.entry_mid, 0x1234);
    assert_eq!(entry.entry_hi, 0xffff_8000);
    assert_eq!(entry.selector, 0x10);
    assert_eq!(entry.attributes.0, 0x8e);
    assert_eq!(entry.ist as usize, IST_EXCEPTION);
    entry.set_ist(5).set_handler_addr(0x1_0000, 0x08);
    assert_eq!(entry.ist, 5);
    assert_eq!((entry.entry_low, entry.entry_mid, entry.entry_hi), (0, 1, 0));
    assert_eq!(entry.selector, 0x08);
    let copy = entry;
    assert_eq!(copy.clone().entry_mid, 1);
}

#[test]
fn new_idt_has_no_handlers() {
    let idt = Idt::new();
    assert_eq!(idt.divide_by_zero.attributes.0, 0);
    assert_eq!(idt.divide_by_zero.ist as usize, IST_EXCEPTION);
    assert_eq!(idt.page_fault.ist as usize, IST_EXCEPTION);
    assert_eq!(idt.security_exception.ist as usize, IST_EXCEPTION);
    assert_eq!(idt.breakpoint.ist, 0);
    assert_eq!(idt.reserved_3.ist, 0);
    assert_eq!(idt.reserved_2.len(), 9);
    assert!(idt.reserved_2.iter().all(|e| e.ist == 0 && e.attributes.0 == 0));
    assert_eq!(idt.interrupts.len(), 224);
    assert!(idt.interrupts.iter().all(|e| e.ist as usize == IST_IRQ && e.attributes.0 == 0));
    assert!(idt.interrupts.iter().all(|e| e.entry_low == 0 && e.selector == 0));
}

#[test]
fn plain_records() {
    assert_eq!(Cycles(100_000).0, 100_000);
    let frame = InterruptStackFrame {
        r15: 15,
        r14: 14,
        r13: 13,
        r12: 12,
        rbp: 1,
        rbx: 2,
        r11: 11,
        r10: 10,
        r9: 9,
        r8: 8,
        rcx: 3,
        rdx: 4,
        rsi: 5,
        rdi: 6,
        rax: 7,
        error_code: 0x10,
        rip: 0xffff_8000_0000_1000,
        cs: 0x10,
        rflags: 0x202,
        rsp: 0xffff_8000_0010_0000,
        ss: 0x08,
    };
    assert_eq!(frame.error_code, 0x10);
    assert_eq!(frame, frame.clone());
}
