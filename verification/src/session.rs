//! A whole scan, run against a simulated configuration space.
//!
//! [`scan`] drives a [`Scanner`] to its end: it serves every read and write
//! from the simulation and appends every binding to the environment.  What
//! the environment gains is stated outright, as a function of the registers
//! and the dispatch table, and the registers are afterwards what they were.

use vstd::prelude::*;
use crate::address::{
    lemma_ordinal_round_trip, Bar, ConfigAddress, ADDRESS_COUNT, BAR0_OFFSET, CLASS_OFFSET,
    IDENTITY_OFFSET, INTERRUPT_OFFSET,
};
use crate::classify::{spec_is_present, ClassCode, Identity};
use crate::dispatch::{
    decide, standard_class_rules, standard_identity_rules, ClassRule, DispatchTable, IdentityRule,
    Outcome,
};
use crate::probe::BarProbe;
use crate::registry::{Binding, Environment};
use crate::notices::{lemma_scan_step_notes, note_of, noted, notices};
use crate::scan::{lemma_step_comes_nearer, Action, Device, Notice, Phase, Scanner};
use crate::sim::{
    lemma_probe_step_agrees, peek, poked, probe_accesses, probe_agrees, probe_made, Access,
    SimulatedBus, SimulatedFunction,
};

verus! {

/// What the dispatch table decides for the function at `address`; none if
/// no function answers there.
pub open spec fn outcome_at(
    slots: Seq<Option<SimulatedFunction>>,
    class_rules: Seq<ClassRule>,
    identity_rules: Seq<IdentityRule>,
    address: ConfigAddress,
) -> Option<Outcome> {
    let identity = peek(slots, address, IDENTITY_OFFSET);
    if spec_is_present(identity) {
        Some(
            decide(
                class_rules,
                identity_rules,
                ClassCode::of(peek(slots, address, CLASS_OFFSET)),
                Identity::of(identity),
            ),
        )
    } else {
        None
    }
}

/// The binding that a scan makes for the function at `address`: that of
/// the driver chosen for it, if the function answers and the table chooses
/// one.
pub open spec fn binding_at(
    slots: Seq<Option<SimulatedFunction>>,
    class_rules: Seq<ClassRule>,
    identity_rules: Seq<IdentityRule>,
    address: ConfigAddress,
) -> Option<Binding> {
    match outcome_at(slots, class_rules, identity_rules, address) {
        Some(Outcome::Bind(driver)) => Some(
            Binding::of(
                address,
                driver,
                peek(slots, address, BAR0_OFFSET),
                peek(slots, address, INTERRUPT_OFFSET),
            ),
        ),
        _ => None,
    }
}

/// The bindings that a scan makes for the first `count` functions in scan
/// order, in that order.
pub open spec fn bindings_before(
    slots: Seq<Option<SimulatedFunction>>,
    class_rules: Seq<ClassRule>,
    identity_rules: Seq<IdentityRule>,
    count: int,
) -> Seq<Binding>
    decreases count,
{
    if count <= 0 {
        Seq::empty()
    } else {
        let earlier = bindings_before(slots, class_rules, identity_rules, count - 1);
        match binding_at(slots, class_rules, identity_rules, ConfigAddress::at(count - 1)) {
            Some(binding) => earlier.push(binding),
            None => earlier,
        }
    }
}

/// The bindings that a whole scan makes.
pub open spec fn bindings(
    slots: Seq<Option<SimulatedFunction>>,
    class_rules: Seq<ClassRule>,
    identity_rules: Seq<IdentityRule>,
) -> Seq<Binding> {
    bindings_before(slots, class_rules, identity_rules, ADDRESS_COUNT as int)
}

/// The accesses that the probes of the first `count` base address
/// registers of a function make, in order.
pub open spec fn probes_before(
    slots: Seq<Option<SimulatedFunction>>,
    address: ConfigAddress,
    count: int,
) -> Seq<Access>
    decreases count,
{
    if count <= 0 {
        Seq::empty()
    } else {
        let earlier = probes_before(slots, address, count - 1);
        match Bar::spec_from_index((count - 1) as u8) {
            Some(bar) => earlier + probe_accesses(slots, address, bar),
            None => earlier,
        }
    }
}

/// The two reads that every present function gets first: identity, then
/// class.
pub open spec fn opening_reads(slots: Seq<Option<SimulatedFunction>>, address: ConfigAddress)
    -> Seq<Access> {
    seq![
        Access::Read {
            address,
            offset: IDENTITY_OFFSET,
            value: peek(slots, address, IDENTITY_OFFSET),
        },
        Access::Read { address, offset: CLASS_OFFSET, value: peek(slots, address, CLASS_OFFSET) },
    ]
}

/// The reads made for the register window of a driver that takes one:
/// the first base address register, then the interrupt register.
pub open spec fn window_reads(slots: Seq<Option<SimulatedFunction>>, address: ConfigAddress)
    -> Seq<Access> {
    seq![
        Access::Read { address, offset: BAR0_OFFSET, value: peek(slots, address, BAR0_OFFSET) },
        Access::Read {
            address,
            offset: INTERRUPT_OFFSET,
            value: peek(slots, address, INTERRUPT_OFFSET),
        },
    ]
}

/// Every access that a scan makes to the function at `address`, in order.
///
/// An absent function gets the one read of its identity register.  A
/// present one gets that read and the read of its class register, then the
/// probes of its six base address registers, then, if a driver that takes
/// a register window is chosen for it, the two reads for the window.
pub open spec fn function_accesses(
    slots: Seq<Option<SimulatedFunction>>,
    class_rules: Seq<ClassRule>,
    identity_rules: Seq<IdentityRule>,
    address: ConfigAddress,
) -> Seq<Access> {
    match outcome_at(slots, class_rules, identity_rules, address) {
        None => opening_reads(slots, address).subrange(0, 1),
        Some(outcome) => opening_reads(slots, address) + probes_before(slots, address, 6) + (
        match outcome {
            Outcome::Bind(driver) => if driver.spec_takes_window() {
                window_reads(slots, address)
            } else {
                Seq::empty()
            },
            _ => Seq::empty(),
        }),
    }
}

/// Every access that a scan makes to the first `count` functions in scan
/// order, in order.
pub open spec fn accesses_before(
    slots: Seq<Option<SimulatedFunction>>,
    class_rules: Seq<ClassRule>,
    identity_rules: Seq<IdentityRule>,
    count: int,
) -> Seq<Access>
    decreases count,
{
    if count <= 0 {
        Seq::empty()
    } else {
        accesses_before(slots, class_rules, identity_rules, count - 1) + function_accesses(
            slots,
            class_rules,
            identity_rules,
            ConfigAddress::at(count - 1),
        )
    }
}

/// Every access that a whole scan makes, in order.
pub open spec fn accesses(
    slots: Seq<Option<SimulatedFunction>>,
    class_rules: Seq<ClassRule>,
    identity_rules: Seq<IdentityRule>,
) -> Seq<Access> {
    accesses_before(slots, class_rules, identity_rules, ADDRESS_COUNT as int)
}

/// The accesses that a scan in progress has made so far to the function
/// under examination.
pub open spec fn made_here(scanner: Scanner, start: Seq<Option<SimulatedFunction>>) -> Seq<Access> {
    let address = scanner.address;
    let opening = opening_reads(start, address);
    let whole = function_accesses(
        start,
        scanner.table.class_rules@,
        scanner.table.identity_rules@,
        address,
    );
    match scanner.phase {
        Phase::Identity => Seq::empty(),
        Phase::Class { identity } => opening.subrange(0, 1),
        Phase::Announce { device } => opening,
        Phase::Probe { device, probe } => opening + probes_before(
            start,
            address,
            probe.bar.spec_index(),
        ) + probe_made(probe, address, start),
        Phase::Base { driver } => opening + probes_before(start, address, 6),
        Phase::Interrupt { driver, bar0 } => opening + probes_before(start, address, 6)
            + window_reads(start, address).subrange(0, 1),
        Phase::Bind { binding } => whole,
        Phase::Unrecognized { interface } => whole,
        Phase::Finished => Seq::empty(),
    }
}

/// Every access that a scan in progress has made so far.
pub open spec fn trail(scanner: Scanner, start: Seq<Option<SimulatedFunction>>) -> Seq<Access> {
    accesses_before(
        start,
        scanner.table.class_rules@,
        scanner.table.identity_rules@,
        scanner.visited(),
    ) + made_here(scanner, start)
}

/// The log entry of what the scanner asks for, where `reply` is the value
/// read if it is a read.  Only reads and writes are logged.
pub open spec fn logged(action: Action, reply: u32) -> Seq<Access> {
    match action {
        Action::Read { address, offset } => seq![Access::Read { address, offset, value: reply }],
        Action::Write { address, offset, value } => seq![Access::Write { address, offset, value }],
        _ => Seq::empty(),
    }
}

/// What the scanner knows of the function under examination is what its
/// identity and class registers held when the scan began.
pub open spec fn device_agrees(
    device: Device,
    address: ConfigAddress,
    start: Seq<Option<SimulatedFunction>>,
) -> bool {
    &&& device.identity == peek(start, address, IDENTITY_OFFSET)
    &&& device.class == peek(start, address, CLASS_OFFSET)
    &&& spec_is_present(device.identity)
}

/// How a scan in progress, the configuration space and the registry go
/// together.  `start` is the space when the scan began, `now` the space at
/// this step, `bound` what the registry has gained.
pub open spec fn scan_agrees(
    scanner: Scanner,
    start: Seq<Option<SimulatedFunction>>,
    now: Seq<Option<SimulatedFunction>>,
    bound: Seq<Binding>,
) -> bool {
    let address = scanner.address;
    let class_rules = scanner.table.class_rules@;
    let identity_rules = scanner.table.identity_rules@;
    let here = binding_at(start, class_rules, identity_rules, address);
    let outcome = outcome_at(start, class_rules, identity_rules, address);
    &&& bound == bindings_before(start, class_rules, identity_rules, scanner.visited())
    &&& match scanner.phase {
        Phase::Identity => now == start,
        Phase::Class { identity } => now == start && identity == peek(
            start,
            address,
            IDENTITY_OFFSET,
        ) && spec_is_present(identity),
        Phase::Announce { device } => now == start && device_agrees(device, address, start),
        Phase::Probe { device, probe } => device_agrees(device, address, start) && probe_agrees(
            probe,
            address,
            start,
            now,
        ) && (probe.step is Done ==> peek(start, address, probe.bar.spec_offset() as u8) != 0),
        Phase::Base { driver } => now == start && outcome == Some(Outcome::Bind(driver))
            && driver.spec_takes_window(),
        Phase::Interrupt { driver, bar0 } => now == start && outcome == Some(Outcome::Bind(driver))
            && driver.spec_takes_window() && bar0 == peek(start, address, BAR0_OFFSET),
        Phase::Bind { binding } => now == start && here == Some(binding),
        Phase::Unrecognized { interface } => now == start && outcome == Some(
            Outcome::UnknownInterface(interface),
        ),
        Phase::Finished => now == start,
    }
}

/// The configuration space after the caller has done what the scanner
/// asks for.
pub open spec fn space_after(action: Action, now: Seq<Option<SimulatedFunction>>) -> Seq<
    Option<SimulatedFunction>,
> {
    match action {
        Action::Write { address, offset, value } => poked(now, address, offset, value),
        _ => now,
    }
}

/// What the registry has gained after the caller has done what the scanner
/// asks for.
pub open spec fn bound_after(action: Action, bound: Seq<Binding>) -> Seq<Binding> {
    match action {
        Action::Bind { binding } => bound.push(binding),
        _ => bound,
    }
}

/// The bindings for one function more are those before it, with its own
/// binding behind them if it has one.
pub proof fn lemma_bindings_one_more(
    slots: Seq<Option<SimulatedFunction>>,
    class_rules: Seq<ClassRule>,
    identity_rules: Seq<IdentityRule>,
    address: ConfigAddress,
)
    ensures
        bindings_before(slots, class_rules, identity_rules, address.spec_ordinal() + 1) == (
        match binding_at(slots, class_rules, identity_rules, address) {
            Some(binding) => bindings_before(
                slots,
                class_rules,
                identity_rules,
                address.spec_ordinal(),
            ).push(binding),
            None => bindings_before(slots, class_rules, identity_rules, address.spec_ordinal()),
        }),
{
    lemma_ordinal_round_trip(address, 0);
}

/// A scan, the configuration space and the registry stay together over
/// every step: if the caller does what the scanner asks for and reports
/// what it read, what held before the step holds after it.
pub proof fn lemma_scan_step_agrees(
    scanner: Scanner,
    start: Seq<Option<SimulatedFunction>>,
    now: Seq<Option<SimulatedFunction>>,
    bound: Seq<Binding>,
    reply: u32,
)
    requires
        scan_agrees(scanner, start, now, bound),
        scanner.spec_action() matches Action::Read { address, offset } ==> reply == peek(
            now,
            address,
            offset,
        ),
    ensures
        scan_agrees(
            scanner.after(reply),
            start,
            space_after(scanner.spec_action(), now),
            bound_after(scanner.spec_action(), bound),
        ),
{
    let address = scanner.address;
    let class_rules = scanner.table.class_rules@;
    let identity_rules = scanner.table.identity_rules@;
    lemma_bindings_one_more(start, class_rules, identity_rules, address);
    lemma_ordinal_round_trip(address, 0);
    lemma_step_comes_nearer(scanner, reply);
    match scanner.phase {
        Phase::Probe { device, probe } => {
            lemma_probe_step_agrees(probe, address, start, now, reply);
        },
        _ => {},
    }
}

/// The accesses for one function more are those before it with its own
/// behind them.
pub proof fn lemma_accesses_one_more(
    slots: Seq<Option<SimulatedFunction>>,
    class_rules: Seq<ClassRule>,
    identity_rules: Seq<IdentityRule>,
    address: ConfigAddress,
)
    ensures
        accesses_before(slots, class_rules, identity_rules, address.spec_ordinal() + 1)
            == accesses_before(slots, class_rules, identity_rules, address.spec_ordinal())
            + function_accesses(slots, class_rules, identity_rules, address),
{
    lemma_ordinal_round_trip(address, 0);
}

/// The probes up to and with a register are the probes before it with its
/// own behind them.
pub proof fn lemma_probes_one_more(
    slots: Seq<Option<SimulatedFunction>>,
    address: ConfigAddress,
    bar: Bar,
)
    ensures
        probes_before(slots, address, bar.spec_index() + 1) == probes_before(
            slots,
            address,
            bar.spec_index(),
        ) + probe_accesses(slots, address, bar),
        probes_before(slots, address, 0) == Seq::<Access>::empty(),
{
}

/// Concatenation may be bracketed either way.
proof fn lemma_concat_brackets(a: Seq<Access>, b: Seq<Access>, c: Seq<Access>)
    ensures
        (a + b) + c == a + (b + c),
        a + Seq::<Access>::empty() == a,
        Seq::<Access>::empty() + a == a,
{
    assert((a + b) + c =~= a + (b + c));
    assert(a + Seq::<Access>::empty() =~= a);
    assert(Seq::<Access>::empty() + a =~= a);
}

/// What a step adds to the accesses made to the function under
/// examination: when the scanner stays on the function, the step's own
/// access; when it leaves, the last of all the accesses the function gets.
pub open spec fn here_grows(
    scanner: Scanner,
    start: Seq<Option<SimulatedFunction>>,
    reply: u32,
) -> bool {
    let next = scanner.after(reply);
    let entry = logged(scanner.spec_action(), reply);
    if next.visited() == scanner.visited() {
        made_here(next, start) == made_here(scanner, start) + entry
    } else {
        &&& next.visited() == scanner.visited() + 1
        &&& made_here(next, start) == Seq::<Access>::empty()
        &&& made_here(scanner, start) + entry == function_accesses(
            start,
            scanner.table.class_rules@,
            scanner.table.identity_rules@,
            scanner.address,
        )
    }
}

/// The step that reads the identity register.
proof fn lemma_here_grows_identity(
    scanner: Scanner,
    start: Seq<Option<SimulatedFunction>>,
    now: Seq<Option<SimulatedFunction>>,
    bound: Seq<Binding>,
    reply: u32,
)
    requires
        scan_agrees(scanner, start, now, bound),
        scanner.phase is Identity,
        reply == peek(now, scanner.address, IDENTITY_OFFSET),
    ensures
        here_grows(scanner, start, reply),
{
    let opening = opening_reads(start, scanner.address);
    let entry = logged(scanner.spec_action(), reply);
    lemma_step_comes_nearer(scanner, reply);
    assert(entry =~= opening.subrange(0, 1));
    lemma_concat_brackets(entry, Seq::empty(), Seq::empty());
}

/// The steps between the identity register and the first probe.
proof fn lemma_here_grows_opening(
    scanner: Scanner,
    start: Seq<Option<SimulatedFunction>>,
    now: Seq<Option<SimulatedFunction>>,
    bound: Seq<Binding>,
    reply: u32,
)
    requires
        scan_agrees(scanner, start, now, bound),
        scanner.phase is Class || scanner.phase is Announce,
        scanner.phase is Class ==> reply == peek(now, scanner.address, CLASS_OFFSET),
    ensures
        here_grows(scanner, start, reply),
{
    let address = scanner.address;
    let opening = opening_reads(start, address);
    let entry = logged(scanner.spec_action(), reply);
    lemma_probes_one_more(start, address, Bar::Bar0);
    if scanner.phase is Class {
        assert(opening.subrange(0, 1) + entry =~= opening);
    } else {
        assert(probe_made(BarProbe::start(Bar::Bar0), address, start) =~= Seq::<Access>::empty());
        lemma_concat_brackets(opening, Seq::empty(), Seq::empty());
    }
}

/// A step of a probe that stays with its register.
proof fn lemma_here_grows_probing(
    scanner: Scanner,
    start: Seq<Option<SimulatedFunction>>,
    now: Seq<Option<SimulatedFunction>>,
    bound: Seq<Binding>,
    reply: u32,
)
    requires
        scan_agrees(scanner, start, now, bound),
        scanner.phase matches Phase::Probe { device, probe } && !(probe.step is Done || (
        probe.step is ReadOriginal && reply == 0)),
        scanner.spec_action() matches Action::Read { address, offset } ==> reply == peek(
            now,
            address,
            offset,
        ),
    ensures
        here_grows(scanner, start, reply),
{
    let address = scanner.address;
    let probe = scanner.phase->Probe_probe;
    let opening = opening_reads(start, address);
    let held = probes_before(start, address, probe.bar.spec_index());
    let entry = logged(scanner.spec_action(), reply);
    lemma_probe_step_agrees(probe, address, start, now, reply);
    assert(entry == crate::sim::logged_probe_action(probe.spec_action(), address, reply));
    lemma_concat_brackets(opening + held, probe_made(probe, address, start), entry);
}

/// What a probe that is over, or that found its register unused, has put
/// into the log with its last step is all that the probe of the register
/// makes.
proof fn lemma_probe_is_whole(
    scanner: Scanner,
    start: Seq<Option<SimulatedFunction>>,
    now: Seq<Option<SimulatedFunction>>,
    bound: Seq<Binding>,
    reply: u32,
)
    requires
        scan_agrees(scanner, start, now, bound),
        scanner.phase matches Phase::Probe { device, probe } && (probe.step is Done || (
        probe.step is ReadOriginal && reply == 0)),
        scanner.spec_action() matches Action::Read { address, offset } ==> reply == peek(
            now,
            address,
            offset,
        ),
    ensures
        made_here(scanner, start) + logged(scanner.spec_action(), reply) == opening_reads(
            start,
            scanner.address,
        ) + probes_before(start, scanner.address, scanner.phase->Probe_probe.bar.spec_index() + 1),
{
    let address = scanner.address;
    let probe = scanner.phase->Probe_probe;
    let opening = opening_reads(start, address);
    let held = probes_before(start, address, probe.bar.spec_index());
    let all = probe_accesses(start, address, probe.bar);
    let entry = logged(scanner.spec_action(), reply);
    lemma_probes_one_more(start, address, probe.bar);
    assert(probe_made(probe, address, start) + entry =~= all);
    lemma_concat_brackets(opening + held, probe_made(probe, address, start), entry);
    lemma_concat_brackets(opening, held, all);
}

/// The step that takes the scanner from one base address register to the
/// next.
proof fn lemma_here_grows_next_bar(
    scanner: Scanner,
    start: Seq<Option<SimulatedFunction>>,
    now: Seq<Option<SimulatedFunction>>,
    bound: Seq<Binding>,
    reply: u32,
)
    requires
        scan_agrees(scanner, start, now, bound),
        scanner.phase matches Phase::Probe { device, probe } && (probe.step is Done || (
        probe.step is ReadOriginal && reply == 0)) && probe.bar.spec_next() is Some,
        scanner.spec_action() matches Action::Read { address, offset } ==> reply == peek(
            now,
            address,
            offset,
        ),
    ensures
        here_grows(scanner, start, reply),
{
    let address = scanner.address;
    let probe = scanner.phase->Probe_probe;
    let following = probe.bar.spec_next()->0;
    let opening = opening_reads(start, address);
    lemma_probe_is_whole(scanner, start, now, bound, reply);
    assert(probe_made(BarProbe::start(following), address, start) =~= Seq::<Access>::empty());
    lemma_concat_brackets(
        opening + probes_before(start, address, probe.bar.spec_index() + 1),
        Seq::empty(),
        Seq::empty(),
    );
}

/// The step that takes the scanner from the sixth base address register
/// to the decision.
proof fn lemma_here_grows_decision(
    scanner: Scanner,
    start: Seq<Option<SimulatedFunction>>,
    now: Seq<Option<SimulatedFunction>>,
    bound: Seq<Binding>,
    reply: u32,
)
    requires
        scan_agrees(scanner, start, now, bound),
        scanner.phase matches Phase::Probe { device, probe } && (probe.step is Done || (
        probe.step is ReadOriginal && reply == 0)) && probe.bar.spec_next() is None,
        scanner.spec_action() matches Action::Read { address, offset } ==> reply == peek(
            now,
            address,
            offset,
        ),
    ensures
        here_grows(scanner, start, reply),
{
    let address = scanner.address;
    let probe = scanner.phase->Probe_probe;
    let opening = opening_reads(start, address);
    let six = probes_before(start, address, 6);
    lemma_probe_is_whole(scanner, start, now, bound, reply);
    lemma_step_comes_nearer(scanner, reply);
    lemma_concat_brackets(opening + six, Seq::empty(), Seq::empty());
    assert(probe.bar == Bar::Bar5);
}

/// The steps after the decision.
proof fn lemma_here_grows_closing(
    scanner: Scanner,
    start: Seq<Option<SimulatedFunction>>,
    now: Seq<Option<SimulatedFunction>>,
    bound: Seq<Binding>,
    reply: u32,
)
    requires
        scan_agrees(scanner, start, now, bound),
        scanner.phase is Base || scanner.phase is Interrupt || scanner.phase is Bind
            || scanner.phase is Unrecognized,
        scanner.spec_action() matches Action::Read { address, offset } ==> reply == peek(
            now,
            address,
            offset,
        ),
    ensures
        here_grows(scanner, start, reply),
{
    let address = scanner.address;
    let opening = opening_reads(start, address);
    let six = probes_before(start, address, 6);
    let window = window_reads(start, address);
    let entry = logged(scanner.spec_action(), reply);
    lemma_step_comes_nearer(scanner, reply);
    if scanner.phase is Base {
        assert(entry =~= window.subrange(0, 1));
    } else if scanner.phase is Interrupt {
        assert(window.subrange(0, 1) + entry =~= window);
        lemma_concat_brackets(opening + six, window.subrange(0, 1), entry);
    } else {
        lemma_concat_brackets(made_here(scanner, start), Seq::empty(), Seq::empty());
    }
}

/// The log of a scan grows by what each step asks for and by nothing
/// else: after a step, the accesses made so far are those made before it
/// with the step's own access behind them.
pub proof fn lemma_scan_step_logs(
    scanner: Scanner,
    start: Seq<Option<SimulatedFunction>>,
    now: Seq<Option<SimulatedFunction>>,
    bound: Seq<Binding>,
    reply: u32,
)
    requires
        scan_agrees(scanner, start, now, bound),
        scanner.spec_action() matches Action::Read { address, offset } ==> reply == peek(
            now,
            address,
            offset,
        ),
    ensures
        trail(scanner.after(reply), start) == trail(scanner, start) + logged(
            scanner.spec_action(),
            reply,
        ),
{
    let class_rules = scanner.table.class_rules@;
    let identity_rules = scanner.table.identity_rules@;
    let before = accesses_before(start, class_rules, identity_rules, scanner.visited());
    let entry = logged(scanner.spec_action(), reply);
    lemma_step_comes_nearer(scanner, reply);
    match scanner.phase {
        Phase::Identity => {
            lemma_here_grows_identity(scanner, start, now, bound, reply);
        },
        Phase::Class { identity } => {
            lemma_here_grows_opening(scanner, start, now, bound, reply);
        },
        Phase::Announce { device } => {
            lemma_here_grows_opening(scanner, start, now, bound, reply);
        },
        Phase::Probe { device, probe } => {
            if probe.step is Done || (probe.step is ReadOriginal && reply == 0) {
                if probe.bar.spec_next() is Some {
                    lemma_here_grows_next_bar(scanner, start, now, bound, reply);
                } else {
                    lemma_here_grows_decision(scanner, start, now, bound, reply);
                }
            } else {
                lemma_here_grows_probing(scanner, start, now, bound, reply);
            }
        },
        Phase::Finished => {
            lemma_concat_brackets(before, Seq::empty(), Seq::empty());
        },
        _ => {
            lemma_here_grows_closing(scanner, start, now, bound, reply);
        },
    }
    if !(scanner.phase is Finished) {
        assert(here_grows(scanner, start, reply));
        lemma_accesses_one_more(start, class_rules, identity_rules, scanner.address);
        lemma_concat_brackets(before, made_here(scanner, start), entry);
        lemma_concat_brackets(
            accesses_before(start, class_rules, identity_rules, scanner.visited() + 1),
            Seq::empty(),
            Seq::empty(),
        );
    }
}

/// Runs a whole scan under `table` against a simulated configuration
/// space, appends what it binds to the environment, and returns the
/// notices of the scan.
///
/// The environment gains, behind what it held, the bindings of exactly
/// those functions that answer and for which the table chooses a driver,
/// in ascending order of bus, slot and function.  Every register of the
/// simulation holds afterwards what it held before, so a second scan finds
/// what the first found.  The log gains every access made, in order: one
/// read for an absent function, and for a present one the two opening
/// reads, the six probes and, where the driver takes one, the two reads for
/// its register window.  The notices announce each present function, report
/// each of its base address registers in use with the size of its window,
/// and report an interface that the class rules do not know.
pub fn scan(env: &mut Environment, bus: &mut SimulatedBus, table: DispatchTable) -> (result: Vec<
    Notice,
>)
    ensures
        final(env).schemes@ == old(env).schemes@ + bindings(
            old(bus).slots@,
            table.class_rules@,
            table.identity_rules@,
        ),
        final(bus).slots@ == old(bus).slots@,
        final(bus).log@ == old(bus).log@ + accesses(
            old(bus).slots@,
            table.class_rules@,
            table.identity_rules@,
        ),
        result@ == notices(old(bus).slots@, table.class_rules@, table.identity_rules@),
{
    let ghost class_rules = table.class_rules@;
    let ghost identity_rules = table.identity_rules@;
    let ghost start = bus.slots@;
    let mut scanner = Scanner::new(table);
    let mut notes: Vec<Notice> = Vec::new();
    let ghost mut bound: Seq<Binding> = Seq::empty();
    proof {
        assert(env.schemes@ =~= old(env).schemes@ + bound);
        assert(bus.log@ =~= old(bus).log@ + trail(scanner, start));
        assert(notes@ =~= noted(scanner, start));
    }
    while !scanner.is_finished()
        invariant
            start == old(bus).slots@,
            scanner.table.class_rules@ == class_rules,
            scanner.table.identity_rules@ == identity_rules,
            scan_agrees(scanner, start, bus.slots@, bound),
            env.schemes@ == old(env).schemes@ + bound,
            bus.log@ == old(bus).log@ + trail(scanner, start),
            notes@ == noted(scanner, start),
        decreases scanner.remaining(),
    {
        let ghost before = scanner;
        let ghost now = bus.slots@;
        let ghost made = trail(scanner, start);
        let ghost held = bound;
        let ghost told = notes@;
        let ghost reply: u32 = 0;
        match scanner.action() {
            Action::Read { address, offset } => {
                let value: u32 = bus.read(address, offset);
                proof {
                    reply = value;
                }
                scanner.advance(value);
            },
            Action::Write { address, offset, value } => {
                bus.write(address, offset, value);
                scanner.advance(0);
            },
            Action::Note(notice) => {
                notes.push(notice);
                scanner.advance(0);
            },
            Action::Bind { binding } => {
                env.register(binding);
                proof {
                    bound = bound.push(binding);
                    assert(env.schemes@ =~= old(env).schemes@ + bound);
                }
                scanner.advance(0);
            },
            Action::Finished => {
                scanner.advance(0);
            },
        }
        proof {
            lemma_scan_step_agrees(before, start, now, held, reply);
            lemma_scan_step_logs(before, start, now, held, reply);
            lemma_scan_step_notes(before, start, now, held, reply);
            lemma_concat_brackets(old(bus).log@, made, logged(before.spec_action(), reply));
            assert(bus.log@ =~= old(bus).log@ + made + logged(before.spec_action(), reply));
            assert(notes@ =~= told + note_of(before.spec_action()));
        }
    }
    proof {
        lemma_concat_brackets(
            accesses_before(start, class_rules, identity_rules, ADDRESS_COUNT as int),
            Seq::empty(),
            Seq::empty(),
        );
        assert(noted(scanner, start) =~= notices(start, class_rules, identity_rules));
    }
    notes
}

/// Initialises the PCI session: runs a whole scan under the standard
/// policy against a simulated configuration space, appends what it binds
/// to the environment, and returns the notices of the scan.
pub fn pci_init(env: &mut Environment, bus: &mut SimulatedBus) -> (result: Vec<Notice>)
    ensures
        final(env).schemes@ == old(env).schemes@ + bindings(
            old(bus).slots@,
            standard_class_rules(),
            standard_identity_rules(),
        ),
        final(bus).slots@ == old(bus).slots@,
        final(bus).log@ == old(bus).log@ + accesses(
            old(bus).slots@,
            standard_class_rules(),
            standard_identity_rules(),
        ),
        result@ == notices(old(bus).slots@, standard_class_rules(), standard_identity_rules()),
{
    scan(env, bus, DispatchTable::standard())
}

/// An absent function gets one read and nothing else: where the identity
/// register reads with a vendor code of all ones, the scan reads that
/// register once, reads no class register, probes no base address
/// register, consults no rule and binds nothing.
pub proof fn lemma_absent_function_gets_one_read(
    slots: Seq<Option<SimulatedFunction>>,
    class_rules: Seq<ClassRule>,
    identity_rules: Seq<IdentityRule>,
    address: ConfigAddress,
)
    requires
        !spec_is_present(peek(slots, address, IDENTITY_OFFSET)),
    ensures
        function_accesses(slots, class_rules, identity_rules, address) == seq![
            Access::Read {
                address,
                offset: IDENTITY_OFFSET,
                value: peek(slots, address, IDENTITY_OFFSET),
            },
        ],
        outcome_at(slots, class_rules, identity_rules, address) is None,
        binding_at(slots, class_rules, identity_rules, address) is None,
{
    assert(opening_reads(slots, address).subrange(0, 1) =~= seq![
        Access::Read {
            address,
            offset: IDENTITY_OFFSET,
            value: peek(slots, address, IDENTITY_OFFSET),
        },
    ]);
}

/// Every access that the probes of a function's base address registers
/// make goes to that function.
pub proof fn lemma_probes_name_their_function(
    slots: Seq<Option<SimulatedFunction>>,
    address: ConfigAddress,
    count: int,
)
    ensures
        forall|i: int|
            0 <= i < probes_before(slots, address, count).len() ==> (#[trigger] probes_before(
                slots,
                address,
                count,
            )[i]).spec_address() == address,
    decreases count,
{
    if count > 0 {
        lemma_probes_name_their_function(slots, address, count - 1);
        let earlier = probes_before(slots, address, count - 1);
        let all = probes_before(slots, address, count);
        assert forall|i: int| 0 <= i < all.len() implies (#[trigger] all[i]).spec_address()
            == address by {
            if i < earlier.len() {
                assert(all[i] == earlier[i]);
            }
        }
    }
}

/// A function is visited once: the accesses that a scan makes to it stand
/// together in the log, begin with the read of its identity register, and
/// all go to that function and to no other.
pub proof fn lemma_accesses_name_their_function(
    slots: Seq<Option<SimulatedFunction>>,
    class_rules: Seq<ClassRule>,
    identity_rules: Seq<IdentityRule>,
    address: ConfigAddress,
)
    ensures
        function_accesses(slots, class_rules, identity_rules, address).len() >= 1,
        function_accesses(slots, class_rules, identity_rules, address)[0] == (Access::Read {
            address,
            offset: IDENTITY_OFFSET,
            value: peek(slots, address, IDENTITY_OFFSET),
        }),
        forall|i: int|
            0 <= i < function_accesses(slots, class_rules, identity_rules, address).len() ==> (
            #[trigger] function_accesses(
                slots,
                class_rules,
                identity_rules,
                address,
            )[i]).spec_address() == address,
{
    lemma_probes_name_their_function(slots, address, 6);
}

/// The registry is in scan order and holds nothing twice: every binding
/// made for the first `count` functions is that of the function it names,
/// which is among those functions, and of two bindings the earlier names
/// the function that comes first by bus, slot and function.
pub proof fn lemma_bindings_ascend(
    slots: Seq<Option<SimulatedFunction>>,
    class_rules: Seq<ClassRule>,
    identity_rules: Seq<IdentityRule>,
    count: int,
)
    requires
        0 <= count <= ADDRESS_COUNT,
    ensures
        forall|i: int|
            0 <= i < bindings_before(slots, class_rules, identity_rules, count).len() ==> {
                let binding = #[trigger] bindings_before(slots, class_rules, identity_rules, count)[i];
                &&& binding.address.spec_ordinal() < count
                &&& binding_at(slots, class_rules, identity_rules, binding.address) == Some(binding)
            },
        forall|i: int, j: int|
            #![trigger
                bindings_before(slots, class_rules, identity_rules, count)[i],
                bindings_before(slots, class_rules, identity_rules, count)[j],
            ]
            0 <= i < j < bindings_before(slots, class_rules, identity_rules, count).len()
                ==> bindings_before(slots, class_rules, identity_rules, count)[i].address.spec_ordinal()
                < bindings_before(
                slots,
                class_rules,
                identity_rules,
                count,
            )[j].address.spec_ordinal(),
    decreases count,
{
    if count > 0 {
        lemma_bindings_ascend(slots, class_rules, identity_rules, count - 1);
        lemma_ordinal_round_trip(ConfigAddress::at(0), count - 1);
    }
}

/// Every function that answers and for which the table chooses a driver
/// is in the registry: its binding is among those made for the first
/// `count` functions as soon as it is one of them.
pub proof fn lemma_every_binding_is_made(
    slots: Seq<Option<SimulatedFunction>>,
    class_rules: Seq<ClassRule>,
    identity_rules: Seq<IdentityRule>,
    count: int,
    address: ConfigAddress,
)
    requires
        address.spec_ordinal() < count,
        binding_at(slots, class_rules, identity_rules, address) is Some,
    ensures
        bindings_before(slots, class_rules, identity_rules, count).contains(
            binding_at(slots, class_rules, identity_rules, address)->0,
        ),
    decreases count,
{
    let binding = binding_at(slots, class_rules, identity_rules, address)->0;
    let earlier = bindings_before(slots, class_rules, identity_rules, count - 1);
    let all = bindings_before(slots, class_rules, identity_rules, count);
    lemma_ordinal_round_trip(address, 0);
    if address.spec_ordinal() == count - 1 {
        assert(all == earlier.push(binding));
        assert(all[all.len() - 1] == binding);
    } else {
        lemma_every_binding_is_made(slots, class_rules, identity_rules, count - 1, address);
        let i = choose|i: int| 0 <= i < earlier.len() && earlier[i] == binding;
        assert(all[i] == binding);
    }
}

/// Unknown hardware does not disturb the scan: if the table chooses a
/// driver for one function and for no other, whatever else answers on the
/// bus, the registry gains that one binding and nothing more.
pub proof fn lemma_one_recognized_one_binding(
    slots: Seq<Option<SimulatedFunction>>,
    class_rules: Seq<ClassRule>,
    identity_rules: Seq<IdentityRule>,
    address: ConfigAddress,
    count: int,
)
    requires
        0 <= count <= ADDRESS_COUNT,
        binding_at(slots, class_rules, identity_rules, address) is Some,
        forall|other: ConfigAddress|
            other != address ==> #[trigger] binding_at(slots, class_rules, identity_rules, other)
                is None,
    ensures
        bindings_before(slots, class_rules, identity_rules, count) == (if address.spec_ordinal()
            < count {
            seq![binding_at(slots, class_rules, identity_rules, address)->0]
        } else {
            Seq::empty()
        }),
        count == ADDRESS_COUNT ==> bindings(slots, class_rules, identity_rules) == seq![
            binding_at(slots, class_rules, identity_rules, address)->0,
        ],
    decreases count,
{
    if count > 0 {
        lemma_one_recognized_one_binding(slots, class_rules, identity_rules, address, count - 1);
        lemma_ordinal_round_trip(address, count - 1);
        let binding = binding_at(slots, class_rules, identity_rules, address)->0;
        if address.spec_ordinal() == count - 1 {
            assert(Seq::<Binding>::empty().push(binding) =~= seq![binding]);
        }
    }
    lemma_ordinal_round_trip(address, 0);
}

/// The registry depends on nothing but what the scan reads: two
/// configuration spaces whose identity, class, first base address and
/// interrupt registers read alike at every address give the same bindings
/// in the same order.
pub proof fn lemma_equal_reads_equal_bindings(
    first: Seq<Option<SimulatedFunction>>,
    second: Seq<Option<SimulatedFunction>>,
    class_rules: Seq<ClassRule>,
    identity_rules: Seq<IdentityRule>,
    count: int,
)
    requires
        forall|address: ConfigAddress| #[trigger]
            peek(first, address, IDENTITY_OFFSET) == peek(second, address, IDENTITY_OFFSET),
        forall|address: ConfigAddress| #[trigger]
            peek(first, address, CLASS_OFFSET) == peek(second, address, CLASS_OFFSET),
        forall|address: ConfigAddress| #[trigger]
            peek(first, address, BAR0_OFFSET) == peek(second, address, BAR0_OFFSET),
        forall|address: ConfigAddress| #[trigger]
            peek(first, address, INTERRUPT_OFFSET) == peek(second, address, INTERRUPT_OFFSET),
    ensures
        bindings_before(first, class_rules, identity_rules, count) == bindings_before(
            second,
            class_rules,
            identity_rules,
            count,
        ),
    decreases count,
{
    if count > 0 {
        lemma_equal_reads_equal_bindings(first, second, class_rules, identity_rules, count - 1);
        let address = ConfigAddress::at(count - 1);
        assert(peek(first, address, IDENTITY_OFFSET) == peek(second, address, IDENTITY_OFFSET));
        assert(peek(first, address, CLASS_OFFSET) == peek(second, address, CLASS_OFFSET));
        assert(peek(first, address, BAR0_OFFSET) == peek(second, address, BAR0_OFFSET));
        assert(peek(first, address, INTERRUPT_OFFSET) == peek(second, address, INTERRUPT_OFFSET));
    }
}

} // verus!
