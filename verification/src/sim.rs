//! A simulated configuration space.
//!
//! The simulation stands where the hardware would: it answers the reads and
//! takes the writes that a probe or a scan asks for, and keeps a log of
//! every access.  A base address register has bits that take what is
//! written and bits that are wired; every other register is read-only.  A
//! function that was never attached reads as all ones at every offset.

use vstd::prelude::*;
use crate::address::{Bar, ConfigAddress, CLASS_OFFSET, IDENTITY_OFFSET, INTERRUPT_OFFSET};
use crate::probe::{
    spec_window_size, BarProbe, ProbeAction, ProbeStep, ADDRESS_BITS, ALL_ONES,
};

verus! {

/// A register some of whose bits can be written.
#[derive(Clone, Copy, Debug, PartialEq, Eq)]
pub struct SimulatedRegister {
    /// What the register reads.
    pub value: u32,
    /// The bits that a write changes; the others keep their value.
    pub writable: u32,
}

impl SimulatedRegister {
    /// The register after `value` was written to it: writable bits are
    /// taken from the written value, the others stay.
    pub open spec fn written(self, value: u32) -> SimulatedRegister {
        SimulatedRegister {
            value: (self.value & !self.writable) | (value & self.writable),
            writable: self.writable,
        }
    }

    /// A register with the given value and writable bits.
    pub fn new(value: u32, writable: u32) -> (result: SimulatedRegister)
        ensures
            result == (SimulatedRegister { value, writable }),
    {
        SimulatedRegister { value, writable }
    }

    /// A register that ignores writes.
    pub fn fixed(value: u32) -> (result: SimulatedRegister)
        ensures
            result == (SimulatedRegister { value, writable: 0 }),
    {
        SimulatedRegister { value, writable: 0 }
    }

    /// Writes to the register.
    pub fn write(&mut self, value: u32)
        ensures
            *final(self) == old(self).written(value),
    {
        self.value = (self.value & !self.writable) | (value & self.writable);
    }
}

/// Whatever is written to a register, writing back what it held before
/// gives the register as it was.
pub proof fn lemma_write_back_restores(register: SimulatedRegister, value: u32)
    ensures
        register.written(value).written(register.value) == register,
{
    let v = register.value;
    let w = register.writable;
    assert(((((v & !w) | (value & w)) & !w) | (v & w)) == v) by (bit_vector);
}

/// The registers of one simulated function that a scan can reach.
#[derive(Clone, Copy, Debug, PartialEq, Eq)]
pub struct SimulatedFunction {
    /// The identity register, at offset 0.
    pub identity: u32,
    /// The class register, at offset 8.
    pub class: u32,
    /// The first base address register, at offset 0x10.
    pub bar0: SimulatedRegister,
    /// The second base address register.
    pub bar1: SimulatedRegister,
    /// The third base address register.
    pub bar2: SimulatedRegister,
    /// The fourth base address register.
    pub bar3: SimulatedRegister,
    /// The fifth base address register.
    pub bar4: SimulatedRegister,
    /// The sixth base address register, at offset 0x24.
    pub bar5: SimulatedRegister,
    /// The register that holds the interrupt line, at offset 0x3C.
    pub interrupt: u32,
}

impl SimulatedFunction {
    /// One of the six base address registers.
    pub open spec fn spec_bar(self, bar: Bar) -> SimulatedRegister {
        match bar {
            Bar::Bar0 => self.bar0,
            Bar::Bar1 => self.bar1,
            Bar::Bar2 => self.bar2,
            Bar::Bar3 => self.bar3,
            Bar::Bar4 => self.bar4,
            Bar::Bar5 => self.bar5,
        }
    }

    /// The function with one base address register replaced.
    pub open spec fn spec_with_bar(self, bar: Bar, register: SimulatedRegister)
        -> SimulatedFunction {
        match bar {
            Bar::Bar0 => SimulatedFunction { bar0: register, ..self },
            Bar::Bar1 => SimulatedFunction { bar1: register, ..self },
            Bar::Bar2 => SimulatedFunction { bar2: register, ..self },
            Bar::Bar3 => SimulatedFunction { bar3: register, ..self },
            Bar::Bar4 => SimulatedFunction { bar4: register, ..self },
            Bar::Bar5 => SimulatedFunction { bar5: register, ..self },
        }
    }

    /// What the register at a byte offset reads.  Offsets without a
    /// register read zero.
    pub open spec fn peek(self, offset: u8) -> u32 {
        if offset == IDENTITY_OFFSET {
            self.identity
        } else if offset == CLASS_OFFSET {
            self.class
        } else if offset == INTERRUPT_OFFSET {
            self.interrupt
        } else {
            match Bar::spec_at_offset(offset) {
                Some(bar) => self.spec_bar(bar).value,
                None => 0,
            }
        }
    }

    /// The function after `value` was written at a byte offset.  Only a
    /// base address register takes a write.
    pub open spec fn written(self, offset: u8, value: u32) -> SimulatedFunction {
        match Bar::spec_at_offset(offset) {
            Some(bar) => self.spec_with_bar(bar, self.spec_bar(bar).written(value)),
            None => self,
        }
    }

    /// A function with the given identity and class registers, no base
    /// address register in use and interrupt line zero.
    pub open spec fn blank(identity: u32, class: u32) -> SimulatedFunction {
        let unused = SimulatedRegister { value: 0, writable: 0 };
        SimulatedFunction {
            identity,
            class,
            bar0: unused,
            bar1: unused,
            bar2: unused,
            bar3: unused,
            bar4: unused,
            bar5: unused,
            interrupt: 0,
        }
    }

    /// A function with the given identity and class registers, no base
    /// address register in use and interrupt line zero.
    pub fn new(identity: u32, class: u32) -> (result: SimulatedFunction)
        ensures
            result == Self::blank(identity, class),
    {
        let unused = SimulatedRegister::fixed(0);
        SimulatedFunction {
            identity,
            class,
            bar0: unused,
            bar1: unused,
            bar2: unused,
            bar3: unused,
            bar4: unused,
            bar5: unused,
            interrupt: 0,
        }
    }

    /// One of the six base address registers.
    pub fn bar(&self, bar: Bar) -> (result: SimulatedRegister)
        ensures
            result == self.spec_bar(bar),
    {
        match bar {
            Bar::Bar0 => self.bar0,
            Bar::Bar1 => self.bar1,
            Bar::Bar2 => self.bar2,
            Bar::Bar3 => self.bar3,
            Bar::Bar4 => self.bar4,
            Bar::Bar5 => self.bar5,
        }
    }

    /// The function with one base address register replaced.
    pub fn with_bar(self, bar: Bar, register: SimulatedRegister) -> (result: SimulatedFunction)
        ensures
            result == self.spec_with_bar(bar, register),
    {
        let mut function = self;
        match bar {
            Bar::Bar0 => {
                function.bar0 = register;
            },
            Bar::Bar1 => {
                function.bar1 = register;
            },
            Bar::Bar2 => {
                function.bar2 = register;
            },
            Bar::Bar3 => {
                function.bar3 = register;
            },
            Bar::Bar4 => {
                function.bar4 = register;
            },
            Bar::Bar5 => {
                function.bar5 = register;
            },
        }
        function
    }

    /// The function with another interrupt register.
    pub fn with_interrupt(self, interrupt: u32) -> (result: SimulatedFunction)
        ensures
            result == (SimulatedFunction { interrupt, ..self }),
    {
        let mut function = self;
        function.interrupt = interrupt;
        function
    }

    /// What the register at a byte offset reads.
    pub fn read(&self, offset: u8) -> (result: u32)
        ensures
            result == self.peek(offset),
    {
        if offset == IDENTITY_OFFSET {
            self.identity
        } else if offset == CLASS_OFFSET {
            self.class
        } else if offset == INTERRUPT_OFFSET {
            self.interrupt
        } else {
            match Bar::at_offset(offset) {
                Some(bar) => self.bar(bar).value,
                None => 0,
            }
        }
    }

    /// Writes at a byte offset.
    pub fn write(&mut self, offset: u8, value: u32)
        ensures
            *final(self) == old(self).written(offset, value),
    {
        match Bar::at_offset(offset) {
            Some(bar) => {
                let mut register = self.bar(bar);
                register.write(value);
                *self = self.with_bar(bar, register);
            },
            None => {},
        }
    }
}

/// One access that the simulation has served.
#[derive(Clone, Copy, Debug, PartialEq, Eq)]
pub enum Access {
    /// A read, with the value it returned.
    Read { address: ConfigAddress, offset: u8, value: u32 },
    /// A write, with the value written.
    Write { address: ConfigAddress, offset: u8, value: u32 },
}

impl Access {
    /// The function that was accessed.
    pub open spec fn spec_address(self) -> ConfigAddress {
        match self {
            Access::Read { address, offset, value } => address,
            Access::Write { address, offset, value } => address,
        }
    }

    /// The function that was accessed.
    pub fn address(&self) -> (result: ConfigAddress)
        ensures
            result == self.spec_address(),
    {
        match self {
            Access::Read { address, offset, value } => *address,
            Access::Write { address, offset, value } => *address,
        }
    }
}

/// The slots with a function attached at an address: grown with empty
/// slots as far as the address if they ended before it, and holding the
/// function there.
pub open spec fn attached(
    slots: Seq<Option<SimulatedFunction>>,
    address: ConfigAddress,
    function: SimulatedFunction,
) -> Seq<Option<SimulatedFunction>> {
    let ordinal = address.spec_ordinal();
    let grown = if slots.len() > ordinal {
        slots
    } else {
        slots + Seq::new((ordinal + 1 - slots.len()) as nat, |i: int| None)
    };
    grown.update(ordinal, Some(function))
}

/// The function attached at an address, if any.
pub open spec fn function_at(slots: Seq<Option<SimulatedFunction>>, address: ConfigAddress)
    -> Option<SimulatedFunction> {
    if address.spec_ordinal() < slots.len() {
        slots[address.spec_ordinal()]
    } else {
        None
    }
}

/// What a read returns: the register of the function attached there, or
/// all ones where none is.
pub open spec fn peek(slots: Seq<Option<SimulatedFunction>>, address: ConfigAddress, offset: u8)
    -> u32 {
    match function_at(slots, address) {
        Some(function) => function.peek(offset),
        None => ALL_ONES,
    }
}

/// The configuration space after a write.  A write to an absent function
/// changes nothing.
pub open spec fn poked(
    slots: Seq<Option<SimulatedFunction>>,
    address: ConfigAddress,
    offset: u8,
    value: u32,
) -> Seq<Option<SimulatedFunction>> {
    match function_at(slots, address) {
        Some(function) => slots.update(
            address.spec_ordinal(),
            Some(function.written(offset, value)),
        ),
        None => slots,
    }
}

/// What a base address register reads right after all ones were written to
/// it.
pub open spec fn mask_of(slots: Seq<Option<SimulatedFunction>>, address: ConfigAddress, bar: Bar)
    -> u32 {
    let offset = bar.spec_offset() as u8;
    peek(poked(slots, address, offset, ALL_ONES), address, offset)
}

/// What the probe of a base address register finds: the value the
/// register holds and, unless that is zero, the size that its mask gives.
pub open spec fn probed(slots: Seq<Option<SimulatedFunction>>, address: ConfigAddress, bar: Bar)
    -> (u32, Option<u32>) {
    let original = peek(slots, address, bar.spec_offset() as u8);
    if original == 0 {
        (0, None)
    } else {
        (original, spec_window_size(mask_of(slots, address, bar)))
    }
}

/// The accesses that the probe of a base address register makes: one read
/// if the register holds zero, else a read, a write of all ones, a read
/// and a write of the value first read.
pub open spec fn probe_accesses(
    slots: Seq<Option<SimulatedFunction>>,
    address: ConfigAddress,
    bar: Bar,
) -> Seq<Access> {
    let offset = bar.spec_offset() as u8;
    let original = peek(slots, address, offset);
    if original == 0 {
        seq![Access::Read { address, offset, value: 0 }]
    } else {
        seq![
            Access::Read { address, offset, value: original },
            Access::Write { address, offset, value: ALL_ONES },
            Access::Read { address, offset, value: mask_of(slots, address, bar) },
            Access::Write { address, offset, value: original },
        ]
    }
}

/// Writing back what a register held undoes any write to it: the
/// configuration space is as it was.
pub proof fn lemma_poke_back_restores(
    slots: Seq<Option<SimulatedFunction>>,
    address: ConfigAddress,
    offset: u8,
    value: u32,
)
    ensures
        poked(poked(slots, address, offset, value), address, offset, peek(slots, address, offset))
            == slots,
{
    match function_at(slots, address) {
        Some(function) => {
            match Bar::spec_at_offset(offset) {
                Some(bar) => {
                    lemma_write_back_restores(function.spec_bar(bar), value);
                    assert(function.written(offset, value).written(offset, function.peek(offset))
                        == function);
                },
                None => {},
            }
            assert(poked(
                poked(slots, address, offset, value),
                address,
                offset,
                peek(slots, address, offset),
            ) =~= slots);
        },
        None => {},
    }
}

/// What a base address register of an attached function shows after all
/// ones were written: its writable bits set, its wired bits as they were.
pub proof fn lemma_mask_of_attached(
    slots: Seq<Option<SimulatedFunction>>,
    address: ConfigAddress,
    bar: Bar,
)
    requires
        function_at(slots, address) is Some,
    ensures
        mask_of(slots, address, bar) == function_at(slots, address)->0.spec_bar(bar).written(
            ALL_ONES,
        ).value,
        peek(slots, address, bar.spec_offset() as u8) == function_at(slots, address)->0.spec_bar(
            bar,
        ).value,
{
    crate::address::lemma_bar_offset_round_trip(bar);
}

/// The size of a register whose address bits are wired follows from its
/// value alone.  Such a register reads after the write of all ones as it
/// read before, so for a value `v` other than zero the probe reports all
/// ones less `v` without its four flag bits, plus one; where `v` has no
/// address bit that sum does not fit in 32 bits and no window is reported.
/// A value of zero is reported as no window at all.  The registers of an
/// absent function, which read as all ones whatever is written, are
/// covered too.
pub proof fn lemma_wired_register_size(
    slots: Seq<Option<SimulatedFunction>>,
    address: ConfigAddress,
    bar: Bar,
)
    requires
        function_at(slots, address) matches Some(function) ==> function.spec_bar(bar).writable
            & ADDRESS_BITS == 0,
    ensures
        ({
            let v = peek(slots, address, bar.spec_offset() as u8);
            let found = probed(slots, address, bar);
            &&& found.0 == v
            &&& v == 0 ==> found.1 is None
            &&& v != 0 && v & ADDRESS_BITS != 0 ==> found.1 == Some(
                ((0xFFFF_FFFF - (v & ADDRESS_BITS)) + 1) as u32,
            )
            &&& v != 0 && v & ADDRESS_BITS == 0 ==> found.1 is None
        }),
{
    let v = peek(slots, address, bar.spec_offset() as u8);
    let mask = mask_of(slots, address, bar);
    match function_at(slots, address) {
        Some(function) => {
            lemma_mask_of_attached(slots, address, bar);
            let w = function.spec_bar(bar).writable;
            assert(((v & !w) | (0xFFFF_FFFFu32 & w)) & 0xFFFF_FFF0 == v & 0xFFFF_FFF0)
                by (bit_vector)
                requires
                    w & 0xFFFF_FFF0 == 0,
            ;
        },
        None => {},
    }
    assert(mask & ADDRESS_BITS == v & ADDRESS_BITS);
}

/// How a probe in progress and the configuration space go together: what
/// the probe has learnt is what the registers held at its start, and the
/// space differs from that start only between the two writes.
pub open spec fn probe_agrees(
    probe: BarProbe,
    address: ConfigAddress,
    start: Seq<Option<SimulatedFunction>>,
    now: Seq<Option<SimulatedFunction>>,
) -> bool {
    let offset = probe.bar.spec_offset() as u8;
    let held = peek(start, address, offset);
    match probe.step {
        ProbeStep::ReadOriginal => now == start,
        ProbeStep::WriteOnes { original } => now == start && original == held && held != 0,
        ProbeStep::ReadBack { original } => now == poked(start, address, offset, ALL_ONES)
            && original == held && held != 0,
        ProbeStep::Restore { original, size } => now == poked(start, address, offset, ALL_ONES)
            && original == held && held != 0 && size == probed(start, address, probe.bar).1,
        ProbeStep::Done { original, size } => now == start && (original, size) == probed(
            start,
            address,
            probe.bar,
        ),
    }
}

/// The accesses that a probe in progress has made so far.
pub open spec fn probe_made(
    probe: BarProbe,
    address: ConfigAddress,
    start: Seq<Option<SimulatedFunction>>,
) -> Seq<Access> {
    let all = probe_accesses(start, address, probe.bar);
    match probe.step {
        ProbeStep::ReadOriginal => Seq::empty(),
        ProbeStep::WriteOnes { original } => all.subrange(0, 1),
        ProbeStep::ReadBack { original } => all.subrange(0, 2),
        ProbeStep::Restore { original, size } => all.subrange(0, 3),
        ProbeStep::Done { original, size } => all,
    }
}

/// The configuration space after the access that a probe asks for.
pub open spec fn space_after_probe_action(
    action: ProbeAction,
    address: ConfigAddress,
    now: Seq<Option<SimulatedFunction>>,
) -> Seq<Option<SimulatedFunction>> {
    match action {
        ProbeAction::Write { offset, value } => poked(now, address, offset, value),
        _ => now,
    }
}

/// The log entry of the access that a probe asks for, where `reply` is the
/// value read if it is a read.
pub open spec fn logged_probe_action(action: ProbeAction, address: ConfigAddress, reply: u32)
    -> Seq<Access> {
    match action {
        ProbeAction::Read { offset } => seq![Access::Read { address, offset, value: reply }],
        ProbeAction::Write { offset, value } => seq![Access::Write { address, offset, value }],
        ProbeAction::Done { original, size } => Seq::empty(),
    }
}

/// A probe and the configuration space stay together over every step: if
/// the caller does what the probe asks for and reports what it read, what
/// held before the step holds after it.
pub proof fn lemma_probe_step_agrees(
    probe: BarProbe,
    address: ConfigAddress,
    start: Seq<Option<SimulatedFunction>>,
    now: Seq<Option<SimulatedFunction>>,
    reply: u32,
)
    requires
        probe_agrees(probe, address, start, now),
        probe.spec_action() matches ProbeAction::Read { offset } ==> reply == peek(
            now,
            address,
            offset,
        ),
    ensures
        probe_agrees(
            probe.after(reply),
            address,
            start,
            space_after_probe_action(probe.spec_action(), address, now),
        ),
        probe_made(probe.after(reply), address, start) == probe_made(probe, address, start)
            + logged_probe_action(probe.spec_action(), address, reply),
{
    let offset = probe.bar.spec_offset() as u8;
    let all = probe_accesses(start, address, probe.bar);
    let made = probe_made(probe, address, start);
    let more = logged_probe_action(probe.spec_action(), address, reply);
    lemma_poke_back_restores(start, address, offset, ALL_ONES);
    assert(probe_made(probe.after(reply), address, start) =~= made + more);
}

/// A simulated configuration space with its access log.
#[derive(Debug)]
pub struct SimulatedBus {
    /// The attached functions, by position in scan order.  Positions past
    /// the end hold nothing.
    pub slots: Vec<Option<SimulatedFunction>>,
    /// Every access served, oldest first.
    pub log: Vec<Access>,
}

impl SimulatedBus {
    /// A configuration space with no function attached and an empty log.
    pub fn new() -> (result: SimulatedBus)
        ensures
            result.slots@ == Seq::<Option<SimulatedFunction>>::empty(),
            result.log@ == Seq::<Access>::empty(),
            forall|address: ConfigAddress| #[trigger]
                function_at(result.slots@, address) is None,
    {
        SimulatedBus { slots: Vec::new(), log: Vec::new() }
    }

    /// Attaches a function at an address, in place of what was there.
    /// Other addresses and the log are left alone.
    pub fn attach(&mut self, address: ConfigAddress, function: SimulatedFunction)
        ensures
            final(self).slots@ == attached(old(self).slots@, address, function),
            function_at(final(self).slots@, address) == Some(function),
            forall|other: ConfigAddress|
                other != address ==> #[trigger] function_at(final(self).slots@, other)
                    == function_at(old(self).slots@, other),
            final(self).log@ == old(self).log@,
    {
        let ordinal: usize = address.ordinal() as usize;
        while self.slots.len() <= ordinal
            invariant
                ordinal == address.spec_ordinal(),
                self.log@ == old(self).log@,
                self.slots@.len() >= old(self).slots@.len(),
                self.slots@.len() <= old(self).slots@.len() || self.slots@.len() <= ordinal + 1,
                forall|i: int|
                    0 <= i < self.slots@.len() ==> #[trigger] self.slots@[i] == (if i < old(
                        self,
                    ).slots@.len() {
                        old(self).slots@[i]
                    } else {
                        None
                    }),
            decreases ordinal + 1 - self.slots.len(),
        {
            self.slots.push(None);
        }
        self.slots.set(ordinal, Some(function));
        proof {
            assert(self.slots@ =~= attached(old(self).slots@, address, function));
            assert forall|other: ConfigAddress| other != address implies #[trigger] function_at(
                self.slots@,
                other,
            ) == function_at(old(self).slots@, other) by {
                crate::address::lemma_scan_order_is_lexicographic(other, address);
            }
        }
    }

    /// The function attached at an address, if any.
    pub fn function(&self, address: ConfigAddress) -> (result: Option<SimulatedFunction>)
        ensures
            result == function_at(self.slots@, address),
    {
        let ordinal: usize = address.ordinal() as usize;
        if ordinal < self.slots.len() {
            self.slots[ordinal]
        } else {
            None
        }
    }

    /// Serves a read and logs it.  The registers are left alone.
    pub fn read(&mut self, address: ConfigAddress, offset: u8) -> (result: u32)
        ensures
            result == peek(old(self).slots@, address, offset),
            final(self).slots@ == old(self).slots@,
            final(self).log@ == old(self).log@.push(Access::Read { address, offset, value: result }),
    {
        let value: u32 = match self.function(address) {
            Some(function) => function.read(offset),
            None => ALL_ONES,
        };
        self.log.push(Access::Read { address, offset, value });
        value
    }

    /// Serves a write and logs it.
    pub fn write(&mut self, address: ConfigAddress, offset: u8, value: u32)
        ensures
            final(self).slots@ == poked(old(self).slots@, address, offset, value),
            final(self).log@ == old(self).log@.push(Access::Write { address, offset, value }),
    {
        match self.function(address) {
            Some(function) => {
                let mut function = function;
                function.write(offset, value);
                let ordinal: usize = address.ordinal() as usize;
                self.slots.set(ordinal, Some(function));
            },
            None => {},
        }
        self.log.push(Access::Write { address, offset, value });
    }

    /// Sizes the window behind a base address register of the function at
    /// `address`, and returns what the register holds with the size.
    ///
    /// Every register holds afterwards what it held before, whatever was
    /// found.  A register that holds zero is read once and never written,
    /// and has no size.  Any other is read, written with all ones, read and
    /// written with its first value; its size is what the mask read in
    /// between gives, and none if the mask has no address bit.
    pub fn probe(&mut self, address: ConfigAddress, bar: Bar) -> (result: (u32, Option<u32>))
        ensures
            final(self).slots@ == old(self).slots@,
            result == probed(old(self).slots@, address, bar),
            result.0 == peek(old(self).slots@, address, bar.spec_offset() as u8),
            result.0 == 0 ==> result.1 is None,
            final(self).log@ == old(self).log@ + probe_accesses(old(self).slots@, address, bar),
    {
        let mut probe = BarProbe::new(bar);
        loop
            invariant
                probe.bar == bar,
                probe_agrees(probe, address, old(self).slots@, self.slots@),
                self.log@ == old(self).log@ + probe_made(probe, address, old(self).slots@),
            decreases probe.remaining(),
        {
            match probe.action() {
                ProbeAction::Read { offset } => {
                    let value: u32 = self.read(address, offset);
                    proof {
                        lemma_probe_step_agrees(
                            probe,
                            address,
                            old(self).slots@,
                            self.slots@,
                            value,
                        );
                    }
                    probe.advance(value);
                },
                ProbeAction::Write { offset, value } => {
                    proof {
                        lemma_probe_step_agrees(probe, address, old(self).slots@, self.slots@, 0);
                    }
                    self.write(address, offset, value);
                    probe.advance(0);
                },
                ProbeAction::Done { original, size } => {
                    return (original, size);
                },
            }
        }
    }
}

} // verus!
