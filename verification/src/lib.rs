//! Boot-time PCI discovery and driver binding.
//!
//! The crate holds the decisions of a flat scan over PCI configuration
//! space: which register to touch next, how a base address register is
//! sized without disturbing the device, how raw register values split into
//! classification keys, and which driver a device is bound to.  Hardware is
//! never touched from here.  The caller performs each register access that
//! the [`scan::Scanner`] asks for and hands the value read back to it; the
//! [`sim`] module offers a simulated configuration space to run against,
//! and [`session`] runs a whole scan over it.
//!
//! - [`address`]: functions on the bus, scan order, register offsets
//! - [`classify`]: identity and class registers split into keys
//! - [`dispatch`]: the ordered rules that choose a driver
//! - [`probe`]: sizing the window behind a base address register
//! - [`registry`]: bindings and the environment that collects them
//! - [`scan`]: the scanner, one step at a time
//! - [`sim`]: a simulated configuration space with an access log
//! - [`session`], [`notices`], [`visits`]: what a whole scan binds, reads,
//!   writes and reports, and that it visits every function once
//! - [`event`]: the kernel's event records

pub mod address;
pub mod classify;
pub mod dispatch;
pub mod event;
pub mod notices;
pub mod probe;
pub mod registry;
pub mod scan;
pub mod session;
pub mod sim;
pub mod visits;
