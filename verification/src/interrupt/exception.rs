//! X86 Exceptions.

use vstd::prelude::*;
use vstd::std_specs::convert::{FromSpecImpl, TryFromSpecImpl};

verus! {

/// Numbers from this one on are not exceptions.
pub const EXCEPTION_MAX: usize = 31;

/// An exception.
#[derive(Copy, Clone, Debug, PartialEq, Eq)]
pub enum Exception {
    /// Device-By-Zero (#DE)
    DivideByZero,
    /// Debug (`#DB`)
    Debug,
    /// Non-Maskable Interrupt
    NonMaskableInterrupt,
    /// Breakpoint (`#BP`)
    Breakpoint,
    /// Overflow (`#OF`)
    Overflow,
    /// Bound-Range Exception (`#BR`)
    BoundRangeExceeded,
    /// Invalid Opcode (`#UD`)
    InvalidOpcode,
    /// Device Not Available (`#NM`)
    DeviceNotAvailable,
    /// Double Fault (`#DF`)
    DoubleFault,
    /// Invalid TSS (`#TS`)
    InvalidTss,
    /// Segment Not Present (`#NP`)
    SegmentNotPresent,
    /// Stack Segment Fault (`#SS`)
    StackSegmentFault,
    /// General Protection Fault (`#GP`)
    GeneralProtectionFault,
    /// Page Fault (`#PF`)
    PageFault,
    /// X87 Floating-Point Exception (`#MF`)
    X87FloatingPoint,
    /// Alignment Check (`#AC`)
    AlignmentCheck,
    /// Machine Check (`#MC`)
    MachineCheck,
    /// SIMD Floating-Point (`#XM`)
    SimdFloatingPoint,
    /// Virtualization (`#VE`)
    Virtualization,
    /// Security (`#SX`)
    Security,
    /// Reserved
    ///
    /// This can be one of:
    /// - 0x9 - Obsolete exception used for "Co-processor Segment Overrun"
    /// - 0xf
    /// - 0x15 to 0x1d, inclusive
    Reserved(usize),
}

impl Exception {
    /// The vector number of the exception.
    pub open spec fn number(self) -> usize {
        match self {
            Exception::DivideByZero => 0x0,
            Exception::Debug => 0x1,
            Exception::NonMaskableInterrupt => 0x2,
            Exception::Breakpoint => 0x3,
            Exception::Overflow => 0x4,
            Exception::BoundRangeExceeded => 0x5,
            Exception::InvalidOpcode => 0x6,
            Exception::DeviceNotAvailable => 0x7,
            Exception::DoubleFault => 0x8,
            Exception::InvalidTss => 0xa,
            Exception::SegmentNotPresent => 0xb,
            Exception::StackSegmentFault => 0xc,
            Exception::GeneralProtectionFault => 0xd,
            Exception::PageFault => 0xe,
            Exception::X87FloatingPoint => 0x10,
            Exception::AlignmentCheck => 0x11,
            Exception::MachineCheck => 0x12,
            Exception::SimdFloatingPoint => 0x13,
            Exception::Virtualization => 0x14,
            Exception::Security => 0x1e,
            Exception::Reserved(num) => num,
        }
    }

    /// Whether `num` is one of the vector numbers that carry no name.
    pub open spec fn is_reserved(num: usize) -> bool {
        num == 0x9 || num == 0xf || 0x15 <= num <= 0x1d
    }

    /// The exception with vector number `num`: numbers from 31 on are not
    /// exceptions, a number without a name is `Reserved`.
    pub open spec fn of_number(num: usize) -> Result<Exception, &'static str> {
        if num >= 31 {
            Err("Not an exception")
        } else if Self::is_reserved(num) {
            Ok(Exception::Reserved(num))
        } else if num == 0x0 {
            Ok(Exception::DivideByZero)
        } else if num == 0x1 {
            Ok(Exception::Debug)
        } else if num == 0x2 {
            Ok(Exception::NonMaskableInterrupt)
        } else if num == 0x3 {
            Ok(Exception::Breakpoint)
        } else if num == 0x4 {
            Ok(Exception::Overflow)
        } else if num == 0x5 {
            Ok(Exception::BoundRangeExceeded)
        } else if num == 0x6 {
            Ok(Exception::InvalidOpcode)
        } else if num == 0x7 {
            Ok(Exception::DeviceNotAvailable)
        } else if num == 0x8 {
            Ok(Exception::DoubleFault)
        } else if num == 0xa {
            Ok(Exception::InvalidTss)
        } else if num == 0xb {
            Ok(Exception::SegmentNotPresent)
        } else if num == 0xc {
            Ok(Exception::StackSegmentFault)
        } else if num == 0xd {
            Ok(Exception::GeneralProtectionFault)
        } else if num == 0xe {
            Ok(Exception::PageFault)
        } else if num == 0x10 {
            Ok(Exception::X87FloatingPoint)
        } else if num == 0x11 {
            Ok(Exception::AlignmentCheck)
        } else if num == 0x12 {
            Ok(Exception::MachineCheck)
        } else if num == 0x13 {
            Ok(Exception::SimdFloatingPoint)
        } else if num == 0x14 {
            Ok(Exception::Virtualization)
        } else {
            Ok(Exception::Security)
        }
    }

    /// The vector number of the exception.
    pub fn into_usize(self) -> (num: usize)
        ensures
            num == self.number(),
    {
        match self {
            Exception::DivideByZero => 0x0,
            Exception::Debug => 0x1,
            Exception::NonMaskableInterrupt => 0x2,
            Exception::Breakpoint => 0x3,
            Exception::Overflow => 0x4,
            Exception::BoundRangeExceeded => 0x5,
            Exception::InvalidOpcode => 0x6,
            Exception::DeviceNotAvailable => 0x7,
            Exception::DoubleFault => 0x8,
            Exception::InvalidTss => 0xa,
            Exception::SegmentNotPresent => 0xb,
            Exception::StackSegmentFault => 0xc,
            Exception::GeneralProtectionFault => 0xd,
            Exception::PageFault => 0xe,
            Exception::X87FloatingPoint => 0x10,
            Exception::AlignmentCheck => 0x11,
            Exception::MachineCheck => 0x12,
            Exception::SimdFloatingPoint => 0x13,
            Exception::Virtualization => 0x14,
            Exception::Security => 0x1e,
            Exception::Reserved(num) => num,
        }
    }

    /// The exception with vector number `num`, or an error for a number
    /// that is not an exception.
    pub fn from_usize(num: usize) -> (r: Result<Exception, &'static str>)
        ensures
            r == Self::of_number(num),
    {
        if num >= EXCEPTION_MAX {
            return Err("Not an exception");
        }
        match num {
            0x0 => Ok(Exception::DivideByZero),
            0x1 => Ok(Exception::Debug),
            0x2 => Ok(Exception::NonMaskableInterrupt),
            0x3 => Ok(Exception::Breakpoint),
            0x4 => Ok(Exception::Overflow),
            0x5 => Ok(Exception::BoundRangeExceeded),
            0x6 => Ok(Exception::InvalidOpcode),
            0x7 => Ok(Exception::DeviceNotAvailable),
            0x8 => Ok(Exception::DoubleFault),
            0xa => Ok(Exception::InvalidTss),
            0xb => Ok(Exception::SegmentNotPresent),
            0xc => Ok(Exception::StackSegmentFault),
            0xd => Ok(Exception::GeneralProtectionFault),
            0xe => Ok(Exception::PageFault),
            0x10 => Ok(Exception::X87FloatingPoint),
            0x11 => Ok(Exception::AlignmentCheck),
            0x12 => Ok(Exception::MachineCheck),
            0x13 => Ok(Exception::SimdFloatingPoint),
            0x14 => Ok(Exception::Virtualization),
            0x1e => Ok(Exception::Security),
            num => Ok(Exception::Reserved(num)),
        }
    }
}

impl From<Exception> for usize {
    fn from(exception: Exception) -> (num: usize) {
        exception.into_usize()
    }
}

impl FromSpecImpl<Exception> for usize {
    open spec fn obeys_from_spec() -> bool {
        true
    }

    open spec fn from_spec(exception: Exception) -> usize {
        exception.number()
    }
}

impl TryFrom<usize> for Exception {
    type Error = &'static str;

    fn try_from(num: usize) -> (r: Result<Self, &'static str>) {
        Self::from_usize(num)
    }
}

impl TryFromSpecImpl<usize> for Exception {
    open spec fn obeys_try_from_spec() -> bool {
        true
    }

    open spec fn try_from_spec(num: usize) -> Result<Self, &'static str> {
        Self::of_number(num)
    }
}

/// The exception found for a vector number below 31 has that number.
pub proof fn law_exception_number(num: usize)
    requires
        num < 31,
    ensures
        Exception::of_number(num).is_ok(),
        Exception::of_number(num).unwrap().number() == num,
{
}

/// An exception with a name, or a reserved one with a number that carries
/// no name, is found again from its number.
pub proof fn law_exception_round_trip(exception: Exception)
    requires
        exception matches Exception::Reserved(num) ==> Exception::is_reserved(num),
    ensures
        Exception::of_number(exception.number()) == Ok::<Exception, &'static str>(exception),
{
}

} // verus!
