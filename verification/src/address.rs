//! Addresses of PCI functions and the register offsets the scan uses.

use vstd::prelude::*;

verus! {

/// Number of functions a flat scan visits: 256 buses of 32 slots of 8 functions.
pub const ADDRESS_COUNT: u32 = 65536;

/// Number of slots on a bus.
pub const SLOT_COUNT: u8 = 32;

/// Number of functions in a slot.
pub const FUNCTION_COUNT: u8 = 8;

/// Byte offset of the identity register (vendor and device codes).
pub const IDENTITY_OFFSET: u8 = 0x00;

/// Byte offset of the class register.
pub const CLASS_OFFSET: u8 = 0x08;

/// Byte offset of the first base address register.
pub const BAR0_OFFSET: u8 = 0x10;

/// Byte offset of the register whose low byte is the interrupt line.
pub const INTERRUPT_OFFSET: u8 = 0x3C;

/// One function on the PCI bus.
///
/// The slot and the function number share a byte, five bits of slot above
/// three bits of function, so every value of this type names a function that
/// exists in the address space: there is no invalid address.
#[derive(Clone, Copy, Debug, PartialEq, Eq, Structural)]
pub struct ConfigAddress {
    /// Bus number.
    pub bus: u8,
    /// Slot number times eight, plus the function number.
    pub devfn: u8,
}

impl ConfigAddress {
    /// Slot number, 0 to 31.
    pub open spec fn spec_slot(self) -> int {
        self.devfn as int / 8
    }

    /// Function number, 0 to 7.
    pub open spec fn spec_function(self) -> int {
        self.devfn as int % 8
    }

    /// Position of the function in scan order, 0 to 65535.
    pub open spec fn spec_ordinal(self) -> int {
        self.bus as int * 256 + self.devfn as int
    }

    /// The address with the given position in scan order.
    pub open spec fn at(ordinal: int) -> ConfigAddress
        recommends
            0 <= ordinal < ADDRESS_COUNT,
    {
        ConfigAddress { bus: (ordinal / 256) as u8, devfn: (ordinal % 256) as u8 }
    }

    /// What `new` returns: an address when slot and function are in range.
    pub open spec fn spec_new(bus: u8, slot: u8, function: u8) -> Option<ConfigAddress> {
        if slot < SLOT_COUNT && function < FUNCTION_COUNT {
            Some(ConfigAddress { bus, devfn: (slot * 8 + function) as u8 })
        } else {
            None
        }
    }

    /// The function after this one in scan order, if there is one.
    pub open spec fn spec_successor(self) -> Option<ConfigAddress> {
        if self.spec_ordinal() + 1 < ADDRESS_COUNT {
            Some(Self::at(self.spec_ordinal() + 1))
        } else {
            None
        }
    }

    /// Address of `function` in `slot` on `bus`; none if the slot is above 31
    /// or the function above 7.
    pub fn new(bus: u8, slot: u8, function: u8) -> (result: Option<ConfigAddress>)
        ensures
            result == Self::spec_new(bus, slot, function),
            result matches Some(a) ==> a.bus == bus && a.spec_slot() == slot
                && a.spec_function() == function,
    {
        if slot < SLOT_COUNT && function < FUNCTION_COUNT {
            Some(ConfigAddress { bus, devfn: slot * 8 + function })
        } else {
            None
        }
    }

    /// The first address of a scan: bus 0, slot 0, function 0.
    pub fn first() -> (result: ConfigAddress)
        ensures
            result == Self::at(0),
            result.spec_ordinal() == 0,
    {
        ConfigAddress { bus: 0, devfn: 0 }
    }

    /// Bus number.
    pub fn bus(&self) -> (result: u8)
        ensures
            result == self.bus,
    {
        self.bus
    }

    /// Slot number.
    pub fn slot(&self) -> (result: u8)
        ensures
            result == self.spec_slot(),
            result < SLOT_COUNT,
    {
        self.devfn / 8
    }

    /// Function number.
    pub fn function(&self) -> (result: u8)
        ensures
            result == self.spec_function(),
            result < FUNCTION_COUNT,
    {
        self.devfn % 8
    }

    /// Position in scan order.
    pub fn ordinal(&self) -> (result: u32)
        ensures
            result == self.spec_ordinal(),
            result < ADDRESS_COUNT,
    {
        let bus: u32 = self.bus as u32;
        let devfn: u32 = self.devfn as u32;
        bus * 256 + devfn
    }

    /// The address at a position in scan order; none from 65536 on.
    pub fn from_ordinal(ordinal: u32) -> (result: Option<ConfigAddress>)
        ensures
            result == (if ordinal < ADDRESS_COUNT {
                Some(Self::at(ordinal as int))
            } else {
                None
            }),
            result matches Some(a) ==> a.spec_ordinal() == ordinal,
    {
        if ordinal < ADDRESS_COUNT {
            Some(ConfigAddress { bus: (ordinal / 256) as u8, devfn: (ordinal % 256) as u8 })
        } else {
            None
        }
    }

    /// The next address in scan order; none after bus 255, slot 31, function 7.
    pub fn successor(&self) -> (result: Option<ConfigAddress>)
        ensures
            result == self.spec_successor(),
            result matches Some(a) ==> a.spec_ordinal() == self.spec_ordinal() + 1,
            result is None <==> self.spec_ordinal() == ADDRESS_COUNT - 1,
    {
        if self.devfn < 255 {
            Some(ConfigAddress { bus: self.bus, devfn: self.devfn + 1 })
        } else if self.bus < 255 {
            Some(ConfigAddress { bus: self.bus + 1, devfn: 0 })
        } else {
            None
        }
    }
}

/// Scan order is the order of (bus, slot, function) triples: an address comes
/// before another exactly when its bus is lower, or the buses agree and its
/// slot is lower, or bus and slot agree and its function is lower.
pub proof fn lemma_scan_order_is_lexicographic(a: ConfigAddress, b: ConfigAddress)
    ensures
        a.spec_ordinal() < b.spec_ordinal() <==> (a.bus < b.bus || (a.bus == b.bus && (
            a.spec_slot() < b.spec_slot() || (a.spec_slot() == b.spec_slot()
                && a.spec_function() < b.spec_function())))),
        a.spec_ordinal() == b.spec_ordinal() <==> a == b,
{
}

/// Positions and addresses correspond one to one.
pub proof fn lemma_ordinal_round_trip(a: ConfigAddress, ordinal: int)
    ensures
        ConfigAddress::at(a.spec_ordinal()) == a,
        0 <= a.spec_ordinal() < ADDRESS_COUNT,
        0 <= ordinal < ADDRESS_COUNT ==> ConfigAddress::at(ordinal).spec_ordinal() == ordinal,
{
}

/// Every register is the register at its own offset.
pub proof fn lemma_bar_offset_round_trip(bar: Bar)
    ensures
        Bar::spec_at_offset(bar.spec_offset() as u8) == Some(bar),
        0x10 <= bar.spec_offset() <= 0x24,
{
}

/// One of the six base address registers of a function.
#[derive(Clone, Copy, Debug, PartialEq, Eq, Structural)]
pub enum Bar {
    Bar0,
    Bar1,
    Bar2,
    Bar3,
    Bar4,
    Bar5,
}

impl Bar {
    /// Index of the register, 0 to 5.
    pub open spec fn spec_index(self) -> int {
        match self {
            Bar::Bar0 => 0,
            Bar::Bar1 => 1,
            Bar::Bar2 => 2,
            Bar::Bar3 => 3,
            Bar::Bar4 => 4,
            Bar::Bar5 => 5,
        }
    }

    /// Byte offset of the register in configuration space: 0x10 plus four
    /// times the index.
    pub open spec fn spec_offset(self) -> int {
        BAR0_OFFSET as int + 4 * self.spec_index()
    }

    /// The register with the given index, if the index is below six.
    pub open spec fn spec_from_index(index: u8) -> Option<Bar> {
        if index == 0 {
            Some(Bar::Bar0)
        } else if index == 1 {
            Some(Bar::Bar1)
        } else if index == 2 {
            Some(Bar::Bar2)
        } else if index == 3 {
            Some(Bar::Bar3)
        } else if index == 4 {
            Some(Bar::Bar4)
        } else if index == 5 {
            Some(Bar::Bar5)
        } else {
            None
        }
    }

    /// The register at a byte offset, if the offset is that of one of the
    /// six: 0x10, 0x14, 0x18, 0x1C, 0x20 or 0x24.
    pub open spec fn spec_at_offset(offset: u8) -> Option<Bar> {
        if offset >= BAR0_OFFSET && offset % 4 == 0 {
            Self::spec_from_index(((offset - BAR0_OFFSET) / 4) as u8)
        } else {
            None
        }
    }

    /// The register after this one, if there is one.
    pub open spec fn spec_next(self) -> Option<Bar> {
        Self::spec_from_index((self.spec_index() + 1) as u8)
    }

    /// Index of the register.
    pub fn index(&self) -> (result: u8)
        ensures
            result == self.spec_index(),
            result < 6,
    {
        match self {
            Bar::Bar0 => 0,
            Bar::Bar1 => 1,
            Bar::Bar2 => 2,
            Bar::Bar3 => 3,
            Bar::Bar4 => 4,
            Bar::Bar5 => 5,
        }
    }

    /// Byte offset of the register.
    pub fn offset(&self) -> (result: u8)
        ensures
            result == self.spec_offset(),
            result % 4 == 0,
    {
        BAR0_OFFSET + 4 * self.index()
    }

    /// The register with the given index; none from six on.
    pub fn from_index(index: u8) -> (result: Option<Bar>)
        ensures
            result == Self::spec_from_index(index),
            result is Some <==> index < 6,
            result matches Some(bar) ==> bar.spec_index() == index,
    {
        if index == 0 {
            Some(Bar::Bar0)
        } else if index == 1 {
            Some(Bar::Bar1)
        } else if index == 2 {
            Some(Bar::Bar2)
        } else if index == 3 {
            Some(Bar::Bar3)
        } else if index == 4 {
            Some(Bar::Bar4)
        } else if index == 5 {
            Some(Bar::Bar5)
        } else {
            None
        }
    }

    /// The register at a byte offset; none if the offset is not that of a
    /// base address register.
    pub fn at_offset(offset: u8) -> (result: Option<Bar>)
        ensures
            result == Self::spec_at_offset(offset),
            result matches Some(bar) ==> bar.spec_offset() == offset,
    {
        if offset >= BAR0_OFFSET && offset % 4 == 0 {
            Self::from_index((offset - BAR0_OFFSET) / 4)
        } else {
            None
        }
    }

    /// The register after this one; none after the sixth.
    pub fn next(&self) -> (result: Option<Bar>)
        ensures
            result == self.spec_next(),
            result matches Some(bar) ==> bar.spec_index() == self.spec_index() + 1,
            result is None <==> *self == Bar::Bar5,
    {
        Self::from_index(self.index() + 1)
    }
}

} // verus!
