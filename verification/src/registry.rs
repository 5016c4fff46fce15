//! The registry of bound drivers.
//!
//! A driver is stood for by its [`Binding`]: the function it owns, which
//! driver it is, and the register window it is handed where it takes one.
//! The registry only grows, and its order is the order of discovery.

use vstd::prelude::*;
use crate::address::ConfigAddress;
use crate::classify::{ClassCode, Identity};
use crate::dispatch::{
    decide, standard_class_rules, standard_identity_rules, DispatchTable, DriverKind, Outcome,
};
use crate::probe::ADDRESS_BITS;

verus! {

/// Where a memory-mapped driver finds its device, and on which interrupt.
#[derive(Clone, Copy, Debug, PartialEq, Eq)]
pub struct RegisterWindow {
    /// The first base address register with its four flag bits cleared.
    pub base: usize,
    /// Whether the window is in memory space: the lowest flag bit is zero.
    pub memory_mapped: bool,
    /// The interrupt line: the low four bits of the register at 0x3C.
    pub irq: u8,
}

impl RegisterWindow {
    /// The window that the first base address register and the interrupt
    /// register describe.
    pub open spec fn of(bar0: u32, interrupt: u32) -> RegisterWindow {
        RegisterWindow {
            base: (bar0 & ADDRESS_BITS) as usize,
            memory_mapped: bar0 & 1 == 0,
            irq: (interrupt & 0xF) as u8,
        }
    }

    /// Reads the window out of the first base address register and the
    /// register that holds the interrupt line.
    pub fn from_registers(bar0: u32, interrupt: u32) -> (result: RegisterWindow)
        ensures
            result == Self::of(bar0, interrupt),
            result.base as int == bar0 as int - bar0 as int % 16,
            result.memory_mapped == (bar0 as int % 2 == 0),
            result.irq as int == interrupt as int % 16,
    {
        assert(bar0 & 0xFFFF_FFF0 == bar0 - bar0 % 16) by (bit_vector);
        assert((bar0 & 1 == 0) == (bar0 % 2 == 0)) by (bit_vector);
        assert(interrupt & 0xF == interrupt % 16) by (bit_vector);
        RegisterWindow {
            base: (bar0 & ADDRESS_BITS) as usize,
            memory_mapped: bar0 & 1 == 0,
            irq: (interrupt & 0xF) as u8,
        }
    }
}

/// A driver bound to a function.  The address is held by value: the driver
/// owns the function's registers from here on.
#[derive(Clone, Copy, Debug, PartialEq, Eq)]
pub struct Binding {
    /// The function the driver owns.
    pub address: ConfigAddress,
    /// Which driver it is.
    pub driver: DriverKind,
    /// The register window, for a driver that takes one.
    pub window: Option<RegisterWindow>,
}

impl Binding {
    /// The binding of `driver` to the function at `address`, whose first
    /// base address register and interrupt register read as given.  The two
    /// values matter only for a driver that takes a window.
    pub open spec fn of(address: ConfigAddress, driver: DriverKind, bar0: u32, interrupt: u32)
        -> Binding {
        Binding {
            address,
            driver,
            window: if driver.spec_takes_window() {
                Some(RegisterWindow::of(bar0, interrupt))
            } else {
                None
            },
        }
    }

    /// Binds `driver` to the function at `address`, with the register window
    /// read from `bar0` and `interrupt` if the driver takes one.
    pub fn new(address: ConfigAddress, driver: DriverKind, bar0: u32, interrupt: u32) -> (result:
        Binding)
        ensures
            result == Self::of(address, driver, bar0, interrupt),
    {
        let window = if driver.takes_window() {
            Some(RegisterWindow::from_registers(bar0, interrupt))
        } else {
            None
        };
        Binding { address, driver, window }
    }
}

/// What a decision adds to the registry: the binding if a driver was
/// chosen, nothing otherwise.
pub open spec fn bound(address: ConfigAddress, outcome: Outcome, bar0: u32, interrupt: u32) -> Seq<
    Binding,
> {
    match outcome {
        Outcome::Bind(driver) => seq![Binding::of(address, driver, bar0, interrupt)],
        Outcome::UnknownInterface(interface) => Seq::empty(),
        Outcome::Unsupported => Seq::empty(),
    }
}

/// The part of the kernel environment that the scan fills: the bound
/// drivers, in the order they were found.
#[derive(Debug)]
pub struct Environment {
    /// The bound drivers, oldest first.
    pub schemes: Vec<Binding>,
}

impl Environment {
    /// An environment with no driver bound.
    pub fn new() -> (result: Environment)
        ensures
            result.schemes@ == Seq::<Binding>::empty(),
    {
        Environment { schemes: Vec::new() }
    }

    /// Appends a binding.  Nothing that was there is moved or changed.
    pub fn register(&mut self, binding: Binding)
        ensures
            final(self).schemes@ == old(self).schemes@.push(binding),
    {
        self.schemes.push(binding);
    }

    /// Number of bound drivers.
    pub fn len(&self) -> (result: usize)
        ensures
            result == self.schemes@.len(),
    {
        self.schemes.len()
    }

    /// The binding at a position, oldest first; none past the end.
    pub fn get(&self, position: usize) -> (result: Option<Binding>)
        ensures
            result == (if position < self.schemes@.len() {
                Some(self.schemes@[position as int])
            } else {
                None
            }),
    {
        if position < self.schemes.len() {
            Some(self.schemes[position])
        } else {
            None
        }
    }
}

/// Binds the function at `pci` to the driver that the standard policy
/// chooses for its classification keys, and reports the decision.
///
/// `bar0` and `interrupt` are what the function's registers at 0x10 and 0x3C
/// read; they are looked at only for a driver that takes a register window.
/// The environment gains one binding if a driver was chosen and is left as
/// it was otherwise.
pub fn pci_device(
    env: &mut Environment,
    pci: ConfigAddress,
    class_id: u8,
    subclass_id: u8,
    interface_id: u8,
    vendor_code: u16,
    device_code: u16,
    bar0: u32,
    interrupt: u32,
) -> (result: Outcome)
    ensures
        result == decide(
            standard_class_rules(),
            standard_identity_rules(),
            ClassCode { class: class_id, subclass: subclass_id, interface: interface_id },
            Identity { vendor: vendor_code, device: device_code },
        ),
        final(env).schemes@ == old(env).schemes@ + bound(pci, result, bar0, interrupt),
{
    let table = DispatchTable::standard();
    let class = ClassCode { class: class_id, subclass: subclass_id, interface: interface_id };
    let identity = Identity { vendor: vendor_code, device: device_code };
    let outcome = table.dispatch(class, identity);
    match outcome {
        Outcome::Bind(driver) => {
            env.register(Binding::new(pci, driver, bar0, interrupt));
        },
        Outcome::UnknownInterface(interface) => {},
        Outcome::Unsupported => {},
    }
    outcome
}

} // verus!
