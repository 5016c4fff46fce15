//! The bus scanner: every decision of a flat scan, one step at a time.
//!
//! The scanner never touches hardware.  It names the next thing to do as an
//! [`Action`]; the caller does it and calls [`Scanner::advance`], with the
//! value read if the action was a read.  Functions are visited in ascending
//! order of bus, slot and function, each once.  An absent function costs one
//! read.  A present one has its class register read and its six base address
//! registers sized, and is then put before the dispatch table.

use vstd::prelude::*;
use crate::address::{
    Bar, ConfigAddress, ADDRESS_COUNT, BAR0_OFFSET, CLASS_OFFSET, IDENTITY_OFFSET,
    INTERRUPT_OFFSET,
};
use crate::classify::{is_present, spec_is_present, ClassCode, Identity};
use crate::dispatch::{decide, DispatchTable, DriverKind, Outcome};
use crate::probe::{spec_window_size, BarProbe, ProbeAction, ProbeStep, ALL_ONES};
use crate::registry::Binding;

verus! {

/// The raw identity and class registers of the function under examination.
#[derive(Clone, Copy, Debug, PartialEq, Eq)]
pub struct Device {
    /// What the identity register read.
    pub identity: u32,
    /// What the class register read.
    pub class: u32,
}

/// Something the scanner has found out, for the log.  A notice asks for
/// nothing and changes nothing.
#[derive(Clone, Copy, Debug, PartialEq, Eq)]
pub enum Notice {
    /// A function answered, with these identity and class registers.
    Found { address: ConfigAddress, identity: u32, class: u32 },
    /// A base address register in use was sized: it holds `original`, and
    /// the window behind it has this size, if any.
    Window { address: ConfigAddress, bar: Bar, original: u32, size: Option<u32> },
    /// The class rules know the device's class and subclass but not this
    /// interface.  Nothing is bound.
    UnknownInterface { address: ConfigAddress, interface: u8 },
}

/// What the scanner asks of its caller.
#[derive(Clone, Copy, Debug, PartialEq, Eq)]
pub enum Action {
    /// Read the register at `offset` of the function at `address`, and hand
    /// the value to `advance`.
    Read { address: ConfigAddress, offset: u8 },
    /// Write `value` to the register at `offset` of the function at
    /// `address`.
    Write { address: ConfigAddress, offset: u8, value: u32 },
    /// Take note; nothing is to be done.
    Note(Notice),
    /// Construct the driver of this binding and append it to the registry.
    /// The function's registers are the driver's from here on.
    Bind { binding: Binding },
    /// Every function has been visited.
    Finished,
}

/// Where the scanner stands in the examination of one function.
#[derive(Clone, Copy, Debug, PartialEq, Eq)]
pub enum Phase {
    /// The identity register is about to be read.
    Identity,
    /// The function is present; its class register is about to be read.
    Class { identity: u32 },
    /// Both registers are read; the function is about to be announced.
    Announce { device: Device },
    /// A base address register is being sized, or its window is about to
    /// be announced.
    Probe { device: Device, probe: BarProbe },
    /// A driver that takes a register window was chosen; the first base
    /// address register is about to be read for it.
    Base { driver: DriverKind },
    /// The interrupt register is about to be read for the window.
    Interrupt { driver: DriverKind, bar0: u32 },
    /// The binding is about to be handed out.
    Bind { binding: Binding },
    /// An unknown interface is about to be reported.
    Unrecognized { interface: u8 },
    /// The scan is over.
    Finished,
}

/// A scan in progress.
#[derive(Debug)]
pub struct Scanner {
    /// The policy that decides which driver a device gets.
    pub table: DispatchTable,
    /// The function under examination.
    pub address: ConfigAddress,
    /// How far its examination has come.
    pub phase: Phase,
}

/// Upper bound on the steps that one function takes.
pub const STEPS_PER_FUNCTION: u32 = 37;

impl Phase {
    /// Steps that are left, at most, until the scanner leaves the function
    /// under examination.
    pub open spec fn cost(self) -> nat {
        match self {
            Phase::Identity => 36,
            Phase::Class { identity } => 35,
            Phase::Announce { device } => 34,
            Phase::Probe { device, probe } => ((5 - probe.bar.spec_index()) * 5
                + probe.remaining() + 4) as nat,
            Phase::Base { driver } => 3,
            Phase::Interrupt { driver, bar0 } => 2,
            Phase::Bind { binding } => 1,
            Phase::Unrecognized { interface } => 1,
            Phase::Finished => 0,
        }
    }
}

impl Scanner {
    /// A scan that has not begun: bus 0, slot 0, function 0 is about to be
    /// looked at.
    pub open spec fn start(table: DispatchTable) -> Scanner {
        Scanner { table, address: ConfigAddress::at(0), phase: Phase::Identity }
    }

    /// What the caller is to do next.
    pub open spec fn spec_action(self) -> Action {
        let address = self.address;
        match self.phase {
            Phase::Identity => Action::Read { address, offset: IDENTITY_OFFSET },
            Phase::Class { identity } => Action::Read { address, offset: CLASS_OFFSET },
            Phase::Announce { device } => Action::Note(
                Notice::Found { address, identity: device.identity, class: device.class },
            ),
            Phase::Probe { device, probe } => match probe.spec_action() {
                ProbeAction::Read { offset } => Action::Read { address, offset },
                ProbeAction::Write { offset, value } => Action::Write { address, offset, value },
                ProbeAction::Done { original, size } => Action::Note(
                    Notice::Window { address, bar: probe.bar, original, size },
                ),
            },
            Phase::Base { driver } => Action::Read { address, offset: BAR0_OFFSET },
            Phase::Interrupt { driver, bar0 } => Action::Read { address, offset: INTERRUPT_OFFSET },
            Phase::Bind { binding } => Action::Bind { binding },
            Phase::Unrecognized { interface } => Action::Note(
                Notice::UnknownInterface { address, interface },
            ),
            Phase::Finished => Action::Finished,
        }
    }

    /// The scanner once it has left the function under examination: at the
    /// identity register of the next function, or finished after the last.
    pub open spec fn leaving(self) -> Scanner {
        match self.address.spec_successor() {
            Some(next) => Scanner { table: self.table, address: next, phase: Phase::Identity },
            None => Scanner { table: self.table, address: self.address, phase: Phase::Finished },
        }
    }

    /// The scanner once the dispatch table has decided on `device`.
    ///
    /// A chosen driver that takes a register window has the two registers
    /// read first; any other is handed out at once.  An unknown interface is
    /// reported.  An unsupported device is left without a word.
    pub open spec fn deciding(self, device: Device) -> Scanner {
        match decide(
            self.table.class_rules@,
            self.table.identity_rules@,
            ClassCode::of(device.class),
            Identity::of(device.identity),
        ) {
            Outcome::Bind(driver) => Scanner {
                table: self.table,
                address: self.address,
                phase: if driver.spec_takes_window() {
                    Phase::Base { driver }
                } else {
                    Phase::Bind { binding: Binding::of(self.address, driver, 0, 0) }
                },
            },
            Outcome::UnknownInterface(interface) => Scanner {
                table: self.table,
                address: self.address,
                phase: Phase::Unrecognized { interface },
            },
            Outcome::Unsupported => self.leaving(),
        }
    }

    /// The scanner once it is through with one base address register: at
    /// the next register, or at the decision after the sixth.
    pub open spec fn leaving_bar(self, device: Device, bar: Bar) -> Scanner {
        match bar.spec_next() {
            Some(next) => Scanner {
                table: self.table,
                address: self.address,
                phase: Phase::Probe { device, probe: BarProbe::start(next) },
            },
            None => self.deciding(device),
        }
    }

    /// The scanner after the caller has done what `spec_action` names, where
    /// `reply` is the value read if that was a read.
    pub open spec fn after(self, reply: u32) -> Scanner {
        match self.phase {
            Phase::Identity => if spec_is_present(reply) {
                Scanner {
                    table: self.table,
                    address: self.address,
                    phase: Phase::Class { identity: reply },
                }
            } else {
                self.leaving()
            },
            Phase::Class { identity } => Scanner {
                table: self.table,
                address: self.address,
                phase: Phase::Announce { device: Device { identity, class: reply } },
            },
            Phase::Announce { device } => Scanner {
                table: self.table,
                address: self.address,
                phase: Phase::Probe { device, probe: BarProbe::start(Bar::Bar0) },
            },
            Phase::Probe { device, probe } => if probe.step is Done || (probe.step is ReadOriginal
                && reply == 0) {
                self.leaving_bar(device, probe.bar)
            } else {
                Scanner {
                    table: self.table,
                    address: self.address,
                    phase: Phase::Probe { device, probe: probe.after(reply) },
                }
            },
            Phase::Base { driver } => Scanner {
                table: self.table,
                address: self.address,
                phase: Phase::Interrupt { driver, bar0: reply },
            },
            Phase::Interrupt { driver, bar0 } => Scanner {
                table: self.table,
                address: self.address,
                phase: Phase::Bind { binding: Binding::of(self.address, driver, bar0, reply) },
            },
            Phase::Bind { binding } => self.leaving(),
            Phase::Unrecognized { interface } => self.leaving(),
            Phase::Finished => self,
        }
    }

    /// Number of functions that the scanner has left behind.
    pub open spec fn visited(self) -> int {
        if self.phase is Finished {
            ADDRESS_COUNT as int
        } else {
            self.address.spec_ordinal()
        }
    }

    /// Steps that are left until the scan is over, at most.
    pub open spec fn remaining(self) -> nat {
        if self.phase is Finished {
            0
        } else {
            ((ADDRESS_COUNT - 1 - self.address.spec_ordinal()) * STEPS_PER_FUNCTION
                + self.phase.cost()) as nat
        }
    }

    /// Begins a scan under the given policy.
    pub fn new(table: DispatchTable) -> (result: Scanner)
        ensures
            result == Self::start(table),
    {
        Scanner { table, address: ConfigAddress::first(), phase: Phase::Identity }
    }

    /// What the caller is to do next.
    pub fn action(&self) -> (result: Action)
        ensures
            result == self.spec_action(),
    {
        let address = self.address;
        match self.phase {
            Phase::Identity => Action::Read { address, offset: IDENTITY_OFFSET },
            Phase::Class { identity } => Action::Read { address, offset: CLASS_OFFSET },
            Phase::Announce { device } => Action::Note(
                Notice::Found { address, identity: device.identity, class: device.class },
            ),
            Phase::Probe { device, probe } => match probe.action() {
                ProbeAction::Read { offset } => Action::Read { address, offset },
                ProbeAction::Write { offset, value } => Action::Write { address, offset, value },
                ProbeAction::Done { original, size } => Action::Note(
                    Notice::Window { address, bar: probe.bar, original, size },
                ),
            },
            Phase::Base { driver } => Action::Read { address, offset: BAR0_OFFSET },
            Phase::Interrupt { driver, bar0 } => Action::Read { address, offset: INTERRUPT_OFFSET },
            Phase::Bind { binding } => Action::Bind { binding },
            Phase::Unrecognized { interface } => Action::Note(
                Notice::UnknownInterface { address, interface },
            ),
            Phase::Finished => Action::Finished,
        }
    }

    /// Whether every function has been visited.
    pub fn is_finished(&self) -> (result: bool)
        ensures
            result == (self.phase is Finished),
            result == (self.spec_action() is Finished),
            result == (self.remaining() == 0),
    {
        match self.phase {
            Phase::Finished => true,
            _ => false,
        }
    }

    /// Leaves the function under examination.
    fn leave(&mut self)
        ensures
            *final(self) == old(self).leaving(),
    {
        match self.address.successor() {
            Some(next) => {
                self.address = next;
                self.phase = Phase::Identity;
            },
            None => {
                self.phase = Phase::Finished;
            },
        }
    }

    /// Puts the device before the dispatch table.
    fn settle(&mut self, device: Device)
        ensures
            *final(self) == old(self).deciding(device),
    {
        let class = ClassCode::from_register(device.class);
        let identity = Identity::from_register(device.identity);
        match self.table.dispatch(class, identity) {
            Outcome::Bind(driver) => {
                if driver.takes_window() {
                    self.phase = Phase::Base { driver };
                } else {
                    self.phase = Phase::Bind { binding: Binding::new(self.address, driver, 0, 0) };
                }
            },
            Outcome::UnknownInterface(interface) => {
                self.phase = Phase::Unrecognized { interface };
            },
            Outcome::Unsupported => {
                self.leave();
            },
        }
    }

    /// Goes on after a base address register.
    fn leave_bar(&mut self, device: Device, bar: Bar)
        ensures
            *final(self) == old(self).leaving_bar(device, bar),
    {
        match bar.next() {
            Some(next) => {
                self.phase = Phase::Probe { device, probe: BarProbe::new(next) };
            },
            None => {
                self.settle(device);
            },
        }
    }

    /// Moves on after the caller has done what `action` named.  `reply` is
    /// the value read if that was a read, and is not looked at otherwise.
    ///
    /// Every step brings the end of the scan nearer: `remaining` falls.
    pub fn advance(&mut self, reply: u32)
        ensures
            *final(self) == old(self).after(reply),
            !(old(self).phase is Finished) ==> final(self).remaining() < old(self).remaining(),
            final(self).visited() >= old(self).visited(),
    {
        proof {
            lemma_step_comes_nearer(*self, reply);
        }
        match self.phase {
            Phase::Identity => {
                if is_present(reply) {
                    self.phase = Phase::Class { identity: reply };
                } else {
                    self.leave();
                }
            },
            Phase::Class { identity } => {
                self.phase = Phase::Announce { device: Device { identity, class: reply } };
            },
            Phase::Announce { device } => {
                self.phase = Phase::Probe { device, probe: BarProbe::new(Bar::Bar0) };
            },
            Phase::Probe { device, probe } => {
                let unused: bool = match probe.step {
                    ProbeStep::ReadOriginal => reply == 0,
                    _ => false,
                };
                if probe.is_done() || unused {
                    self.leave_bar(device, probe.bar);
                } else {
                    let mut probe = probe;
                    probe.advance(reply);
                    self.phase = Phase::Probe { device, probe };
                }
            },
            Phase::Base { driver } => {
                self.phase = Phase::Interrupt { driver, bar0: reply };
            },
            Phase::Interrupt { driver, bar0 } => {
                self.phase = Phase::Bind {
                    binding: Binding::new(self.address, driver, bar0, reply),
                };
            },
            Phase::Bind { binding } => {
                self.leave();
            },
            Phase::Unrecognized { interface } => {
                self.leave();
            },
            Phase::Finished => {},
        }
    }
}

/// A step of a scan that is not over brings its end nearer and never goes
/// back to a function already left.
pub proof fn lemma_step_comes_nearer(scanner: Scanner, reply: u32)
    ensures
        !(scanner.phase is Finished) ==> scanner.after(reply).remaining() < scanner.remaining(),
        scanner.after(reply).visited() >= scanner.visited(),
        scanner.after(reply).table == scanner.table,
{
    let ordinal = scanner.address.spec_ordinal();
    assert(0 <= ordinal < ADDRESS_COUNT);
    assert(scanner.leaving().visited() == scanner.visited() + 1 || scanner.phase is Finished);
    if !(scanner.phase is Finished) {
        assert(scanner.leaving().remaining() < scanner.remaining()) by {
            assert(scanner.phase.cost() >= 1);
        }
    }
}

/// An absent function costs one read and nothing else: when the identity
/// register of the function under examination reads with a vendor code of
/// all ones, the scanner leaves the function at once.  Its next action is
/// the read of the next function's identity register, or the end of the
/// scan; no class register is read, no base address register touched and
/// no driver chosen for the absent function.
pub proof fn lemma_absent_function_costs_one_read(scanner: Scanner, reply: u32)
    requires
        scanner.phase is Identity,
        !spec_is_present(reply),
    ensures
        scanner.spec_action() == (Action::Read {
            address: scanner.address,
            offset: IDENTITY_OFFSET,
        }),
        scanner.after(reply) == scanner.leaving(),
        scanner.after(reply).visited() == scanner.visited() + 1,
        match scanner.address.spec_successor() {
            Some(next) => scanner.after(reply).spec_action() == Action::Read {
                address: next,
                offset: IDENTITY_OFFSET,
            },
            None => scanner.after(reply).spec_action() == Action::Finished,
        },
{
}

impl Notice {
    /// The function a notice is about.
    pub open spec fn spec_address(self) -> ConfigAddress {
        match self {
            Notice::Found { address, identity, class } => address,
            Notice::Window { address, bar, original, size } => address,
            Notice::UnknownInterface { address, interface } => address,
        }
    }

    /// The function a notice is about.
    pub fn address(&self) -> (result: ConfigAddress)
        ensures
            result == self.spec_address(),
    {
        match self {
            Notice::Found { address, identity, class } => *address,
            Notice::Window { address, bar, original, size } => *address,
            Notice::UnknownInterface { address, interface } => *address,
        }
    }
}

/// Every access that the scanner asks for goes to the function under
/// examination, every notice is about it, and a driver that the scanner
/// comes to bind owns it.
pub proof fn lemma_actions_stay_on_the_function(scanner: Scanner, reply: u32)
    ensures
        match scanner.spec_action() {
            Action::Read { address, offset } => address == scanner.address,
            Action::Write { address, offset, value } => address == scanner.address,
            Action::Note(notice) => notice.spec_address() == scanner.address,
            Action::Bind { binding } => true,
            Action::Finished => true,
        },
        scanner.after(reply).spec_action() matches Action::Bind { binding } ==> binding.address
            == scanner.address,
{
}

/// Whatever the hardware answers, the scanner leaves a base address
/// register in use as it found it.  From the start of the probe of `bar`,
/// where the register reads `original`, not zero, and then `mask`, the
/// scanner asks for four accesses to that register of the function under
/// examination and for nothing in between: the read, the write of all
/// ones, the read of the mask, and the write of `original`.  Only then does
/// it report the window, with the size that the mask gives.  `first` and
/// `second` stand for whatever the caller hands in after the two writes.
pub proof fn lemma_scanner_writes_original_back(
    scanner: Scanner,
    device: Device,
    bar: Bar,
    original: u32,
    mask: u32,
    first: u32,
    second: u32,
)
    requires
        scanner.phase == (Phase::Probe { device, probe: BarProbe::start(bar) }),
        original != 0,
    ensures
        ({
            let address = scanner.address;
            let offset = bar.spec_offset() as u8;
            let s1 = scanner.after(original);
            let s2 = s1.after(first);
            let s3 = s2.after(mask);
            let s4 = s3.after(second);
            &&& scanner.spec_action() == Action::Read { address, offset }
            &&& s1.spec_action() == Action::Write { address, offset, value: ALL_ONES }
            &&& s2.spec_action() == Action::Read { address, offset }
            &&& s3.spec_action() == Action::Write { address, offset, value: original }
            &&& s4.spec_action() == Action::Note(
                Notice::Window { address, bar, original, size: spec_window_size(mask) },
            )
        }),
{
}

/// An unused base address register costs the scanner one read: where the
/// register reads zero, nothing is written and nothing reported, and the
/// scanner goes on to the next register or to the decision.
pub proof fn lemma_scanner_leaves_unused_register_alone(scanner: Scanner, device: Device, bar: Bar)
    requires
        scanner.phase == (Phase::Probe { device, probe: BarProbe::start(bar) }),
    ensures
        scanner.spec_action() == (Action::Read {
            address: scanner.address,
            offset: bar.spec_offset() as u8,
        }),
        scanner.after(0) == scanner.leaving_bar(device, bar),
{
}

/// Once a driver is bound to a function, the scanner is through with that
/// function: the step after a binding leaves it, so no register of it is
/// read or written by the scan again.
pub proof fn lemma_binding_ends_the_visit(scanner: Scanner, reply: u32)
    requires
        scanner.phase is Bind,
    ensures
        scanner.after(reply) == scanner.leaving(),
        scanner.after(reply).visited() == scanner.visited() + 1,
{
}

} // verus!
