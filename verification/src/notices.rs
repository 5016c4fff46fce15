//! What a scan has to report: the notices it hands out, stated outright.
//!
//! A present function is announced with its identity and class registers.
//! Each of its base address registers that is in use is reported with the
//! value it holds and the size of its window.  A device whose class and
//! subclass the class rules name, but whose interface none accepts, is
//! reported last.  An absent function is not reported at all, and neither
//! is an unsupported device beyond its announcement.

use vstd::prelude::*;
use crate::address::{
    lemma_ordinal_round_trip, Bar, ConfigAddress, ADDRESS_COUNT, CLASS_OFFSET, IDENTITY_OFFSET,
};
use crate::dispatch::{ClassRule, IdentityRule, Outcome};
use crate::registry::Binding;
use crate::scan::{lemma_step_comes_nearer, Action, Notice, Phase, Scanner};
use crate::session::{outcome_at, scan_agrees};
use crate::sim::{peek, probed, SimulatedFunction};

verus! {

/// The announcement of the function at `address`.
pub open spec fn announcement(slots: Seq<Option<SimulatedFunction>>, address: ConfigAddress)
    -> Notice {
    Notice::Found {
        address,
        identity: peek(slots, address, IDENTITY_OFFSET),
        class: peek(slots, address, CLASS_OFFSET),
    }
}

/// The report on a base address register in use.
pub open spec fn window_notice(
    slots: Seq<Option<SimulatedFunction>>,
    address: ConfigAddress,
    bar: Bar,
) -> Notice {
    Notice::Window {
        address,
        bar,
        original: probed(slots, address, bar).0,
        size: probed(slots, address, bar).1,
    }
}

/// The reports on those of the first `count` base address registers of a
/// function that are in use, in order.  A register that holds zero is
/// passed over.
pub open spec fn windows_before(
    slots: Seq<Option<SimulatedFunction>>,
    address: ConfigAddress,
    count: int,
) -> Seq<Notice>
    decreases count,
{
    if count <= 0 {
        Seq::empty()
    } else {
        let earlier = windows_before(slots, address, count - 1);
        match Bar::spec_from_index((count - 1) as u8) {
            Some(bar) => if peek(slots, address, bar.spec_offset() as u8) != 0 {
                earlier.push(window_notice(slots, address, bar))
            } else {
                earlier
            },
            None => earlier,
        }
    }
}

/// Every notice that a scan hands out on the function at `address`, in
/// order.
pub open spec fn function_notices(
    slots: Seq<Option<SimulatedFunction>>,
    class_rules: Seq<ClassRule>,
    identity_rules: Seq<IdentityRule>,
    address: ConfigAddress,
) -> Seq<Notice> {
    match outcome_at(slots, class_rules, identity_rules, address) {
        None => Seq::empty(),
        Some(outcome) => seq![announcement(slots, address)] + windows_before(slots, address, 6) + (
        match outcome {
            Outcome::UnknownInterface(interface) => seq![
                Notice::UnknownInterface { address, interface },
            ],
            _ => Seq::empty(),
        }),
    }
}

/// Every notice that a scan hands out on the first `count` functions in
/// scan order, in order.
pub open spec fn notices_before(
    slots: Seq<Option<SimulatedFunction>>,
    class_rules: Seq<ClassRule>,
    identity_rules: Seq<IdentityRule>,
    count: int,
) -> Seq<Notice>
    decreases count,
{
    if count <= 0 {
        Seq::empty()
    } else {
        notices_before(slots, class_rules, identity_rules, count - 1) + function_notices(
            slots,
            class_rules,
            identity_rules,
            ConfigAddress::at(count - 1),
        )
    }
}

/// Every notice that a whole scan hands out, in order.
pub open spec fn notices(
    slots: Seq<Option<SimulatedFunction>>,
    class_rules: Seq<ClassRule>,
    identity_rules: Seq<IdentityRule>,
) -> Seq<Notice> {
    notices_before(slots, class_rules, identity_rules, ADDRESS_COUNT as int)
}

/// The notices that a scan in progress has handed out so far on the
/// function under examination.
pub open spec fn noted_here(scanner: Scanner, start: Seq<Option<SimulatedFunction>>) -> Seq<
    Notice,
> {
    let address = scanner.address;
    let found = seq![announcement(start, address)];
    match scanner.phase {
        Phase::Identity => Seq::empty(),
        Phase::Class { identity } => Seq::empty(),
        Phase::Announce { device } => Seq::empty(),
        Phase::Probe { device, probe } => found + windows_before(
            start,
            address,
            probe.bar.spec_index(),
        ),
        Phase::Base { driver } => found + windows_before(start, address, 6),
        Phase::Interrupt { driver, bar0 } => found + windows_before(start, address, 6),
        Phase::Bind { binding } => found + windows_before(start, address, 6),
        Phase::Unrecognized { interface } => found + windows_before(start, address, 6),
        Phase::Finished => Seq::empty(),
    }
}

/// Every notice that a scan in progress has handed out so far.
pub open spec fn noted(scanner: Scanner, start: Seq<Option<SimulatedFunction>>) -> Seq<Notice> {
    notices_before(
        start,
        scanner.table.class_rules@,
        scanner.table.identity_rules@,
        scanner.visited(),
    ) + noted_here(scanner, start)
}

/// The notice in what the scanner asks for, if it is one.
pub open spec fn note_of(action: Action) -> Seq<Notice> {
    match action {
        Action::Note(notice) => seq![notice],
        _ => Seq::empty(),
    }
}

/// Concatenation may be bracketed either way.
proof fn lemma_notices_brackets(a: Seq<Notice>, b: Seq<Notice>, c: Seq<Notice>)
    ensures
        (a + b) + c == a + (b + c),
        a + Seq::<Notice>::empty() == a,
        Seq::<Notice>::empty() + a == a,
        a.push(c[0]) == a + seq![c[0]],
{
    assert((a + b) + c =~= a + (b + c));
    assert(a + Seq::<Notice>::empty() =~= a);
    assert(Seq::<Notice>::empty() + a =~= a);
    assert(a.push(c[0]) =~= a + seq![c[0]]);
}

/// The notices on one function more are those before it with its own
/// behind them.
pub proof fn lemma_notices_one_more(
    slots: Seq<Option<SimulatedFunction>>,
    class_rules: Seq<ClassRule>,
    identity_rules: Seq<IdentityRule>,
    address: ConfigAddress,
)
    ensures
        notices_before(slots, class_rules, identity_rules, address.spec_ordinal() + 1)
            == notices_before(slots, class_rules, identity_rules, address.spec_ordinal())
            + function_notices(slots, class_rules, identity_rules, address),
{
    lemma_ordinal_round_trip(address, 0);
}

/// The reports up to and with a register are those before it, with its
/// own behind them if it is in use.
pub proof fn lemma_windows_one_more(
    slots: Seq<Option<SimulatedFunction>>,
    address: ConfigAddress,
    bar: Bar,
)
    ensures
        windows_before(slots, address, bar.spec_index() + 1) == (if peek(
            slots,
            address,
            bar.spec_offset() as u8,
        ) != 0 {
            windows_before(slots, address, bar.spec_index()) + seq![
                window_notice(slots, address, bar),
            ]
        } else {
            windows_before(slots, address, bar.spec_index())
        }),
        windows_before(slots, address, 0) == Seq::<Notice>::empty(),
{
    let earlier = windows_before(slots, address, bar.spec_index());
    assert(earlier.push(window_notice(slots, address, bar)) =~= earlier + seq![
        window_notice(slots, address, bar),
    ]);
}

/// What a step adds to the notices on the function under examination:
/// when the scanner stays on the function, the step's own notice if it has
/// one; when it leaves, the last of all the notices on the function.
pub open spec fn notes_grow(scanner: Scanner, start: Seq<Option<SimulatedFunction>>, reply: u32)
    -> bool {
    let next = scanner.after(reply);
    let entry = note_of(scanner.spec_action());
    if next.visited() == scanner.visited() {
        noted_here(next, start) == noted_here(scanner, start) + entry
    } else {
        &&& next.visited() == scanner.visited() + 1
        &&& noted_here(next, start) == Seq::<Notice>::empty()
        &&& noted_here(scanner, start) + entry == function_notices(
            start,
            scanner.table.class_rules@,
            scanner.table.identity_rules@,
            scanner.address,
        )
    }
}

/// The steps up to the announcement.
proof fn lemma_notes_grow_opening(
    scanner: Scanner,
    start: Seq<Option<SimulatedFunction>>,
    now: Seq<Option<SimulatedFunction>>,
    bound: Seq<Binding>,
    reply: u32,
)
    requires
        scan_agrees(scanner, start, now, bound),
        scanner.phase is Identity || scanner.phase is Class || scanner.phase is Announce,
        scanner.phase is Identity ==> reply == peek(now, scanner.address, IDENTITY_OFFSET),
    ensures
        notes_grow(scanner, start, reply),
{
    let address = scanner.address;
    let found = seq![announcement(start, address)];
    lemma_step_comes_nearer(scanner, reply);
    lemma_windows_one_more(start, address, Bar::Bar0);
    lemma_notices_brackets(found, Seq::empty(), Seq::empty());
    lemma_notices_brackets(Seq::empty(), Seq::empty(), Seq::empty());
    if scanner.phase is Announce {
        assert(note_of(scanner.spec_action()) =~= found);
    }
}

/// A step of a probe that stays with its register.
proof fn lemma_notes_grow_probing(
    scanner: Scanner,
    start: Seq<Option<SimulatedFunction>>,
    now: Seq<Option<SimulatedFunction>>,
    bound: Seq<Binding>,
    reply: u32,
)
    requires
        scan_agrees(scanner, start, now, bound),
        scanner.phase matches Phase::Probe { device, probe } && !(probe.step is Done || (
        probe.step is ReadOriginal && reply == 0)),
    ensures
        notes_grow(scanner, start, reply),
{
    lemma_notices_brackets(noted_here(scanner, start), Seq::empty(), Seq::empty());
}

/// What the scanner has noted on a function when it is through with one
/// of its base address registers.
proof fn lemma_notes_after_bar(
    scanner: Scanner,
    start: Seq<Option<SimulatedFunction>>,
    now: Seq<Option<SimulatedFunction>>,
    bound: Seq<Binding>,
    reply: u32,
)
    requires
        scan_agrees(scanner, start, now, bound),
        scanner.phase matches Phase::Probe { device, probe } && (probe.step is Done || (
        probe.step is ReadOriginal && reply == 0)),
        scanner.spec_action() matches Action::Read { address, offset } ==> reply == peek(
            now,
            address,
            offset,
        ),
    ensures
        noted_here(scanner, start) + note_of(scanner.spec_action()) == seq![
            announcement(start, scanner.address),
        ] + windows_before(start, scanner.address, scanner.phase->Probe_probe.bar.spec_index() + 1),
{
    let address = scanner.address;
    let probe = scanner.phase->Probe_probe;
    let found = seq![announcement(start, address)];
    let earlier = windows_before(start, address, probe.bar.spec_index());
    let entry = note_of(scanner.spec_action());
    lemma_windows_one_more(start, address, probe.bar);
    lemma_notices_brackets(found, earlier, entry);
    if probe.step is Done {
        assert(entry =~= seq![window_notice(start, address, probe.bar)]);
    } else {
        lemma_notices_brackets(found + earlier, Seq::empty(), Seq::empty());
    }
}

/// The step that takes the scanner away from a base address register.
proof fn lemma_notes_grow_leaving_bar(
    scanner: Scanner,
    start: Seq<Option<SimulatedFunction>>,
    now: Seq<Option<SimulatedFunction>>,
    bound: Seq<Binding>,
    reply: u32,
)
    requires
        scan_agrees(scanner, start, now, bound),
        scanner.phase matches Phase::Probe { device, probe } && (probe.step is Done || (
        probe.step is ReadOriginal && reply == 0)),
        scanner.spec_action() matches Action::Read { address, offset } ==> reply == peek(
            now,
            address,
            offset,
        ),
    ensures
        notes_grow(scanner, start, reply),
{
    let address = scanner.address;
    let probe = scanner.phase->Probe_probe;
    let found = seq![announcement(start, address)];
    lemma_notes_after_bar(scanner, start, now, bound, reply);
    lemma_step_comes_nearer(scanner, reply);
    lemma_notices_brackets(found + windows_before(start, address, 6), Seq::empty(), Seq::empty());
    if probe.bar.spec_next() is None {
        assert(probe.bar == Bar::Bar5);
    }
}

/// The steps after the decision.
proof fn lemma_notes_grow_closing(
    scanner: Scanner,
    start: Seq<Option<SimulatedFunction>>,
    now: Seq<Option<SimulatedFunction>>,
    bound: Seq<Binding>,
    reply: u32,
)
    requires
        scan_agrees(scanner, start, now, bound),
        scanner.phase is Base || scanner.phase is Interrupt || scanner.phase is Bind
            || scanner.phase is Unrecognized,
    ensures
        notes_grow(scanner, start, reply),
{
    lemma_step_comes_nearer(scanner, reply);
    lemma_notices_brackets(noted_here(scanner, start), Seq::empty(), Seq::empty());
}

/// A scan hands out the notice of each step and no other: after a step,
/// the notices handed out so far are those handed out before it, with the
/// step's own behind them if it has one.
pub proof fn lemma_scan_step_notes(
    scanner: Scanner,
    start: Seq<Option<SimulatedFunction>>,
    now: Seq<Option<SimulatedFunction>>,
    bound: Seq<Binding>,
    reply: u32,
)
    requires
        scan_agrees(scanner, start, now, bound),
        scanner.spec_action() matches Action::Read { address, offset } ==> reply == peek(
            now,
            address,
            offset,
        ),
    ensures
        noted(scanner.after(reply), start) == noted(scanner, start) + note_of(
            scanner.spec_action(),
        ),
{
    let class_rules = scanner.table.class_rules@;
    let identity_rules = scanner.table.identity_rules@;
    let before = notices_before(start, class_rules, identity_rules, scanner.visited());
    let entry = note_of(scanner.spec_action());
    lemma_step_comes_nearer(scanner, reply);
    match scanner.phase {
        Phase::Probe { device, probe } => {
            if probe.step is Done || (probe.step is ReadOriginal && reply == 0) {
                lemma_notes_grow_leaving_bar(scanner, start, now, bound, reply);
            } else {
                lemma_notes_grow_probing(scanner, start, now, bound, reply);
            }
        },
        Phase::Finished => {
            lemma_notices_brackets(before, Seq::empty(), Seq::empty());
        },
        Phase::Identity => {
            lemma_notes_grow_opening(scanner, start, now, bound, reply);
        },
        Phase::Class { identity } => {
            lemma_notes_grow_opening(scanner, start, now, bound, reply);
        },
        Phase::Announce { device } => {
            lemma_notes_grow_opening(scanner, start, now, bound, reply);
        },
        _ => {
            lemma_notes_grow_closing(scanner, start, now, bound, reply);
        },
    }
    if !(scanner.phase is Finished) {
        assert(notes_grow(scanner, start, reply));
        lemma_notices_one_more(start, class_rules, identity_rules, scanner.address);
        lemma_notices_brackets(before, noted_here(scanner, start), entry);
        lemma_notices_brackets(
            notices_before(start, class_rules, identity_rules, scanner.visited() + 1),
            Seq::empty(),
            Seq::empty(),
        );
    }
}

/// An absent function is passed over in silence, and every notice on a
/// present one is about that function, the announcement first.
pub proof fn lemma_notices_name_their_function(
    slots: Seq<Option<SimulatedFunction>>,
    class_rules: Seq<ClassRule>,
    identity_rules: Seq<IdentityRule>,
    address: ConfigAddress,
)
    ensures
        outcome_at(slots, class_rules, identity_rules, address) is None ==> function_notices(
            slots,
            class_rules,
            identity_rules,
            address,
        ) == Seq::<Notice>::empty(),
        outcome_at(slots, class_rules, identity_rules, address) is Some ==> function_notices(
            slots,
            class_rules,
            identity_rules,
            address,
        )[0] == announcement(slots, address),
        forall|i: int|
            0 <= i < function_notices(slots, class_rules, identity_rules, address).len() ==> (
            #[trigger] function_notices(
                slots,
                class_rules,
                identity_rules,
                address,
            )[i]).spec_address() == address,
{
    lemma_windows_name_their_function(slots, address, 6);
}

/// Every report on a base address register of a function is about that
/// function.
pub proof fn lemma_windows_name_their_function(
    slots: Seq<Option<SimulatedFunction>>,
    address: ConfigAddress,
    count: int,
)
    ensures
        forall|i: int|
            0 <= i < windows_before(slots, address, count).len() ==> (#[trigger] windows_before(
                slots,
                address,
                count,
            )[i]).spec_address() == address,
    decreases count,
{
    if count > 0 {
        lemma_windows_name_their_function(slots, address, count - 1);
        let earlier = windows_before(slots, address, count - 1);
        let all = windows_before(slots, address, count);
        assert forall|i: int| 0 <= i < all.len() implies (#[trigger] all[i]).spec_address()
            == address by {
            if i < earlier.len() {
                assert(all[i] == earlier[i]);
            }
        }
    }
}

} // verus!
