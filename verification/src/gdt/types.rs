//! Types.
//!
//! Well, most of this doesn't matter at all in Long Mode anyways.

use vstd::prelude::*;
use vstd::std_specs::convert::{FromSpecImpl, TryFromSpecImpl};

use crate::bits::{
    field_get, field_of, field_set, flag_get, flag_set, lemma_fields, lemma_flags, with_field,
};
use crate::error::Error;

verus! {

/// The Access Byte for Code and Data descriptors.
///
/// This struct is only for Code and Data descriptors.
/// The meaning of bits 0-3 is different for System descriptors (e.g., TSS),
/// and you should use [SystemAccessByte] instead.
#[derive(Debug, Clone, Copy)]
pub struct AccessByte(pub u8);

impl AccessByte {
    /// The access byte of a present code or data segment: the Present bit
    /// and the code/data bit are set, everything else is clear.
    pub fn new() -> (access: Self)
        ensures
            access.0 == 0x90,
    {
        let mut access = Self(0);
        access.set_present(true);
        access.set_code_data(true);
        proof {
            lemma_flags(0);
            lemma_flags(0x80);
        }
        access
    }

    /// The access byte of a segment that is not present: all bits clear.
    pub fn not_present() -> (access: Self)
        ensures
            access.0 == 0,
    {
        Self(0)
    }

    /// The Present bit.
    pub fn present(&self) -> (set: bool)
        ensures
            set == (self.0 & 0x80 != 0),
    {
        proof {
            lemma_flags(self.0);
        }
        flag_get(self.0, 7)
    }

    /// Sets or clears the Present bit.
    pub fn set_present(&mut self, value: bool)
        ensures
            final(self).0 == if value {
                old(self).0 | 0x80
            } else {
                old(self).0 & 0x7f
            },
    {
        proof {
            lemma_flags(self.0);
        }
        flag_set(&mut self.0, 7, value);
    }

    /// The descriptor privilege level.
    pub fn privilege(&self) -> (level: u8)
        ensures
            level == (self.0 >> 5) & 3,
    {
        proof {
            lemma_fields(self.0, 0);
        }
        field_get(self.0, 6, 5)
    }

    /// Sets the descriptor privilege level to the two low bits of `value`.
    pub fn set_privilege(&mut self, value: u8)
        ensures
            final(self).0 == (old(self).0 & 0x9f) | ((value & 3) << 5),
    {
        proof {
            lemma_fields(self.0, value);
        }
        field_set(&mut self.0, 6, 5, value);
    }

    /// Whether this segment is Code or Data.
    ///
    /// This should be 1.
    pub fn code_data(&self) -> (set: bool)
        ensures
            set == (self.0 & 0x10 != 0),
    {
        proof {
            lemma_flags(self.0);
        }
        flag_get(self.0, 4)
    }

    /// Sets or clears the code/data bit.
    pub fn set_code_data(&mut self, value: bool)
        ensures
            final(self).0 == if value {
                old(self).0 | 0x10
            } else {
                old(self).0 & 0xef
            },
    {
        proof {
            lemma_flags(self.0);
        }
        flag_set(&mut self.0, 4, value);
    }

    /// Whether this segment is executable.
    pub fn executable(&self) -> (set: bool)
        ensures
            set == (self.0 & 0x08 != 0),
    {
        proof {
            lemma_flags(self.0);
        }
        flag_get(self.0, 3)
    }

    /// Sets or clears the executable bit.
    pub fn set_executable(&mut self, value: bool)
        ensures
            final(self).0 == if value {
                old(self).0 | 0x08
            } else {
                old(self).0 & 0xf7
            },
    {
        proof {
            lemma_flags(self.0);
        }
        flag_set(&mut self.0, 3, value);
    }

    /// The Direction (Data) or Conforming (Code) bit.
    ///
    /// For data segments, this is the Direction bit.
    /// 0 means that the segment grows up.
    ///
    /// For code segments, this is the Conforming bit.
    /// 0 means that the segment can only be executed from the ring set in DPL.
    /// 1 means that the segment can only be executed from a ring equal or lower than DPL.
    pub fn direction(&self) -> (set: bool)
        ensures
            set == (self.0 & 0x04 != 0),
    {
        proof {
            lemma_flags(self.0);
        }
        flag_get(self.0, 2)
    }

    /// Sets or clears the direction bit.
    pub fn set_direction(&mut self, value: bool)
        ensures
            final(self).0 == if value {
                old(self).0 | 0x04
            } else {
                old(self).0 & 0xfb
            },
    {
        proof {
            lemma_flags(self.0);
        }
        flag_set(&mut self.0, 2, value);
    }

    /// The Writable (Data) or Readable (Code) bit.
    ///
    /// For data segments, this is the Writable bit.
    /// For code segments, this is the Readable bit.
    pub fn read_write(&self) -> (set: bool)
        ensures
            set == (self.0 & 0x02 != 0),
    {
        proof {
            lemma_flags(self.0);
        }
        flag_get(self.0, 1)
    }

    /// Sets or clears the read/write bit.
    pub fn set_read_write(&mut self, value: bool)
        ensures
            final(self).0 == if value {
                old(self).0 | 0x02
            } else {
                old(self).0 & 0xfd
            },
    {
        proof {
            lemma_flags(self.0);
        }
        flag_set(&mut self.0, 1, value);
    }

    /// The Accessed bit.
    ///
    /// The processor will set it to 1 internally.
    pub fn accessed(&self) -> (set: bool)
        ensures
            set == (self.0 & 0x01 != 0),
    {
        proof {
            lemma_flags(self.0);
        }
        flag_get(self.0, 0)
    }

    /// Sets or clears the Accessed bit.
    pub fn set_accessed(&mut self, value: bool)
        ensures
            final(self).0 == if value {
                old(self).0 | 0x01
            } else {
                old(self).0 & 0xfe
            },
    {
        proof {
            lemma_flags(self.0);
        }
        flag_set(&mut self.0, 0, value);
    }
}

/// The Access Byte for System descriptors.
#[derive(Debug, Clone, Copy)]
pub struct SystemAccessByte(pub u8);

impl SystemAccessByte {
    /// The access byte of a present system descriptor of the given type.
    pub fn new(descriptor_type: SystemDescriptorType) -> (access: Self)
        ensures
            access.0 == 0x80 + descriptor_type.number(),
    {
        let mut access = Self(0);
        access.set_present(true);
        access.set_code_data(false);
        access.set_descriptor_type(descriptor_type);
        proof {
            lemma_flags(0);
            lemma_flags(0x80);
            lemma_fields(0x80, 0b1001);
            lemma_fields(0x80, 0b1011);
        }
        access
    }

    /// The access byte of a descriptor that is not present: all bits clear.
    pub fn not_present() -> (access: Self)
        ensures
            access.0 == 0,
    {
        Self(0)
    }

    /// Sets the type of the descriptor, which takes the four low bits.
    pub fn set_descriptor_type(&mut self, descriptor_type: SystemDescriptorType)
        ensures
            final(self).0 == (old(self).0 & 0xf0) | descriptor_type.number(),
    {
        let number = descriptor_type.into_u8();
        proof {
            lemma_fields(self.0, number);
        }
        self.set_real_descriptor_type(number);
    }

    /// The Present bit.
    pub fn present(&self) -> (set: bool)
        ensures
            set == (self.0 & 0x80 != 0),
    {
        proof {
            lemma_flags(self.0);
        }
        flag_get(self.0, 7)
    }

    /// Sets or clears the Present bit.
    pub fn set_present(&mut self, value: bool)
        ensures
            final(self).0 == if value {
                old(self).0 | 0x80
            } else {
                old(self).0 & 0x7f
            },
    {
        proof {
            lemma_flags(self.0);
        }
        flag_set(&mut self.0, 7, value);
    }

    /// The descriptor privilege level.
    pub fn privilege(&self) -> (level: u8)
        ensures
            level == (self.0 >> 5) & 3,
    {
        proof {
            lemma_fields(self.0, 0);
        }
        field_get(self.0, 6, 5)
    }

    /// Sets the descriptor privilege level to the two low bits of `value`.
    pub fn set_privilege(&mut self, value: u8)
        ensures
            final(self).0 == (old(self).0 & 0x9f) | ((value & 3) << 5),
    {
        proof {
            lemma_fields(self.0, value);
        }
        field_set(&mut self.0, 6, 5, value);
    }

    /// Whether this segment is Code or Data.
    ///
    /// This should be 0.
    pub fn code_data(&self) -> (set: bool)
        ensures
            set == (self.0 & 0x10 != 0),
    {
        proof {
            lemma_flags(self.0);
        }
        flag_get(self.0, 4)
    }

    /// Sets or clears the code/data bit.
    pub fn set_code_data(&mut self, value: bool)
        ensures
            final(self).0 == if value {
                old(self).0 | 0x10
            } else {
                old(self).0 & 0xef
            },
    {
        proof {
            lemma_flags(self.0);
        }
        flag_set(&mut self.0, 4, value);
    }

    /// Type of the descriptor, as the number in the four low bits.
    pub fn real_descriptor_type(&self) -> (number: u8)
        ensures
            number == self.0 & 0x0f,
    {
        proof {
            lemma_fields(self.0, 0);
        }
        field_get(self.0, 3, 0)
    }

    /// Sets the four low bits to the four low bits of `value`.
    pub fn set_real_descriptor_type(&mut self, value: u8)
        ensures
            final(self).0 == (old(self).0 & 0xf0) | (value & 0x0f),
    {
        proof {
            lemma_fields(self.0, value);
        }
        field_set(&mut self.0, 3, 0, value);
    }
}

/// The type of a System descriptor.
#[derive(Debug, Copy, Clone, PartialEq, Eq)]
pub enum SystemDescriptorType {
    /// An available TSS.
    AvailableTss,
    /// A busy TSS.
    BusyTss,
}

impl SystemDescriptorType {
    /// The number that stands for the type in a descriptor.
    pub open spec fn number(self) -> u8 {
        match self {
            SystemDescriptorType::AvailableTss => 0b1001,
            SystemDescriptorType::BusyTss => 0b1011,
        }
    }

    /// The type that `number` stands for, if it stands for one.
    pub open spec fn of_number(number: u8) -> Result<Self, Error> {
        if number == 0b1001 {
            Ok(SystemDescriptorType::AvailableTss)
        } else if number == 0b1011 {
            Ok(SystemDescriptorType::BusyTss)
        } else {
            Err(Error::InvalidDescriptorType(number))
        }
    }

    /// The number that stands for the type in a descriptor.
    pub fn into_u8(self) -> (number: u8)
        ensures
            number == self.number(),
    {
        match self {
            SystemDescriptorType::AvailableTss => 0b1001,
            SystemDescriptorType::BusyTss => 0b1011,
        }
    }

    /// The type that `descriptor_type` stands for; any other number is an
    /// invalid descriptor type.
    pub fn from_u8(descriptor_type: u8) -> (r: Result<Self, Error>)
        ensures
            r == Self::of_number(descriptor_type),
    {
        match descriptor_type {
            0b1001 => Ok(Self::AvailableTss),
            0b1011 => Ok(Self::BusyTss),
            _ => Err(Error::InvalidDescriptorType(descriptor_type)),
        }
    }
}

impl From<SystemDescriptorType> for u8 {
    fn from(descriptor_type: SystemDescriptorType) -> (number: u8) {
        descriptor_type.into_u8()
    }
}

impl FromSpecImpl<SystemDescriptorType> for u8 {
    open spec fn obeys_from_spec() -> bool {
        true
    }

    open spec fn from_spec(descriptor_type: SystemDescriptorType) -> u8 {
        descriptor_type.number()
    }
}

impl TryFrom<u8> for SystemDescriptorType {
    type Error = Error;

    fn try_from(descriptor_type: u8) -> (r: Result<Self, Error>) {
        Self::from_u8(descriptor_type)
    }
}

impl TryFromSpecImpl<u8> for SystemDescriptorType {
    open spec fn obeys_try_from_spec() -> bool {
        true
    }

    open spec fn try_from_spec(descriptor_type: u8) -> Result<Self, Error> {
        Self::of_number(descriptor_type)
    }
}

/// A type's number stands for that type again.
pub proof fn law_descriptor_type_round_trip(descriptor_type: SystemDescriptorType)
    ensures
        SystemDescriptorType::of_number(descriptor_type.number()) == Ok::<
            SystemDescriptorType,
            Error,
        >(descriptor_type),
{
}

} // verus!
