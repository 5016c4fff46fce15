//! Splitting raw register values into classification keys.

use vstd::prelude::*;

verus! {

/// Vendor code that the identity register of an absent function reads as.
pub const ABSENT_VENDOR: u16 = 0xFFFF;

/// Who made a device and which device it is: the identity register's halves.
#[derive(Clone, Copy, Debug, PartialEq, Eq, Structural)]
pub struct Identity {
    /// Low 16 bits of the identity register.
    pub vendor: u16,
    /// High 16 bits of the identity register.
    pub device: u16,
}

/// What kind of device a function is: the upper three bytes of the class
/// register.  The lowest byte, the revision, is dropped.
#[derive(Clone, Copy, Debug, PartialEq, Eq, Structural)]
pub struct ClassCode {
    /// Bits 31 to 24 of the class register.
    pub class: u8,
    /// Bits 23 to 16 of the class register.
    pub subclass: u8,
    /// Bits 15 to 8 of the class register.
    pub interface: u8,
}

impl Identity {
    /// The two halves of an identity register value.
    pub open spec fn of(register: u32) -> Identity {
        Identity { vendor: (register & 0xFFFF) as u16, device: (register >> 16) as u16 }
    }

    /// Whether the vendor code is that of a function that exists.
    pub open spec fn spec_is_present(self) -> bool {
        self.vendor != ABSENT_VENDOR
    }

    /// Splits an identity register value into vendor and device codes.
    pub fn from_register(register: u32) -> (result: Identity)
        ensures
            result == Self::of(register),
            result.vendor as int == register as int % 0x1_0000,
            result.device as int == register as int / 0x1_0000,
    {
        assert(register & 0xFFFF == register % 0x1_0000) by (bit_vector);
        assert(register >> 16 == register / 0x1_0000) by (bit_vector);
        Identity { vendor: (register & 0xFFFF) as u16, device: (register >> 16) as u16 }
    }

    /// Whether a function answered: an absent one reads as vendor 0xFFFF.
    pub fn is_present(&self) -> (result: bool)
        ensures
            result == self.spec_is_present(),
    {
        self.vendor != ABSENT_VENDOR
    }
}

impl ClassCode {
    /// The three classification bytes of a class register value.
    pub open spec fn of(register: u32) -> ClassCode {
        ClassCode {
            class: (register >> 24) as u8,
            subclass: ((register >> 16) & 0xFF) as u8,
            interface: ((register >> 8) & 0xFF) as u8,
        }
    }

    /// Splits a class register value into class, subclass and interface.
    pub fn from_register(register: u32) -> (result: ClassCode)
        ensures
            result == Self::of(register),
            result.class as int == register as int / 0x100_0000,
            result.subclass as int == (register as int / 0x1_0000) % 0x100,
            result.interface as int == (register as int / 0x100) % 0x100,
    {
        assert(register >> 24 == register / 0x100_0000) by (bit_vector);
        assert((register >> 16) & 0xFF == (register / 0x1_0000) % 0x100) by (bit_vector);
        assert((register >> 8) & 0xFF == (register / 0x100) % 0x100) by (bit_vector);
        ClassCode {
            class: (register >> 24) as u8,
            subclass: ((register >> 16) & 0xFF) as u8,
            interface: ((register >> 8) & 0xFF) as u8,
        }
    }
}

/// Whether an identity register value comes from a function that exists.
pub open spec fn spec_is_present(identity: u32) -> bool {
    Identity::of(identity).spec_is_present()
}

/// Whether an identity register value comes from a function that exists:
/// its low 16 bits are not all ones.
pub fn is_present(identity: u32) -> (result: bool)
    ensures
        result == spec_is_present(identity),
        result == (identity as int % 0x1_0000 != 0xFFFF),
{
    Identity::from_register(identity).is_present()
}

/// The value that every register of an absent function reads as is
/// recognised as absence.
pub proof fn lemma_all_ones_is_absent()
    ensures
        !spec_is_present(0xFFFF_FFFF),
{
    assert(0xFFFF_FFFFu32 & 0xFFFF == 0xFFFF) by (bit_vector);
}

} // verus!
