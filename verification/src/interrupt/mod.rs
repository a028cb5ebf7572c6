//! Interrupt handling.

pub mod exception;
pub mod idt;
pub mod mps;

use vstd::prelude::*;

verus! {

/// The IRQ offset.
pub const IRQ_OFFSET: usize = 32;

/// The IRQ of the timer.
pub const IRQ_TIMER: usize = 0;

/// The interrupt stack on which exceptions are handled.
pub const IST_EXCEPTION: usize = 1;

/// The interrupt stack on which interrupt requests are handled.
pub const IST_IRQ: usize = 2;

/// The data port of the first 8259 PIC.
pub const PIC1_DATA: u16 = 0x21;

/// The data port of the second 8259 PIC.
pub const PIC2_DATA: u16 = 0xa1;

/// An amount of cycles.
#[derive(Debug, Clone, Copy, PartialEq, Eq)]
pub struct Cycles(pub usize);

/// Marks an entry whose handler is reached through a trampoline that pushes
/// an error code of zero.
#[derive(Debug, Clone, Copy)]
pub struct HandlerFunc;

/// Marks an entry whose handler is reached through a trampoline that finds
/// the error code which the hardware pushed.
#[derive(Debug, Clone, Copy)]
pub struct HandlerFuncWithErrCode;

/// Marks an entry whose handler is a trampoline of either kind.
#[derive(Debug, Clone, Copy)]
pub struct TrampolineHandlerFunc;

/// Marks the entry of the page fault handler.
#[derive(Debug, Clone, Copy)]
pub struct PageFaultHandlerFunc;

/// Registers passed to the interrupt handler
#[derive(Debug, Clone, Copy, PartialEq, Eq)]
pub struct InterruptStackFrame {
    pub r15: u64,
    pub r14: u64,
    pub r13: u64,
    pub r12: u64,
    pub rbp: u64,
    pub rbx: u64,
    pub r11: u64,
    pub r10: u64,
    pub r9: u64,
    pub r8: u64,
    pub rcx: u64,
    pub rdx: u64,
    pub rsi: u64,
    pub rdi: u64,
    pub rax: u64,
    /// The error code, pushed by the hardware or by the trampoline.
    pub error_code: u64,
    pub rip: u64,
    pub cs: u64,
    pub rflags: u64,
    pub rsp: u64,
    pub ss: u64,
}

} // verus!
