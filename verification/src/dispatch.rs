//! The driver dispatch table: which driver, if any, a device is bound to.
//!
//! A table holds two ordered lists of rules.  Rules of the first list match
//! on the standard class codes, rules of the second on the exact vendor and
//! device codes.  The class rules are tried first; the identity rules are
//! consulted only for a device whose class and subclass no class rule names.

use vstd::prelude::*;
use crate::classify::{ClassCode, Identity};

verus! {

/// Class code of mass-storage controllers.
pub const MASS_STORAGE: u8 = 0x01;

/// Class code of serial-bus controllers.
pub const SERIAL_BUS: u8 = 0x0C;

/// Subclass code of IDE controllers, under mass storage.
pub const IDE: u8 = 0x01;

/// Subclass code of SATA controllers, under mass storage.
pub const SATA: u8 = 0x06;

/// Subclass code of USB host controllers, under serial bus.
pub const USB: u8 = 0x03;

/// Interface code of AHCI, under SATA.
pub const AHCI: u8 = 0x01;

/// Interface code of UHCI, under USB.
pub const UHCI: u8 = 0x00;

/// Interface code of OHCI, under USB.
pub const OHCI: u8 = 0x10;

/// Interface code of EHCI, under USB.
pub const EHCI: u8 = 0x20;

/// Interface code of XHCI, under USB.
pub const XHCI: u8 = 0x30;

/// Vendor code of Realtek.
pub const REALTEK: u16 = 0x10EC;

/// Vendor code of Intel.
pub const INTEL: u16 = 0x8086;

/// Device code of the Realtek 8139 network chip.
pub const RTL8139: u16 = 0x8139;

/// Device code of the Intel 82540EM gigabit network chip.
pub const GBE_82540EM: u16 = 0x100E;

/// Device code of the Intel 82801AA AC'97 audio codec.
pub const AC97_82801AA: u16 = 0x2415;

/// Device code of the Intel ICH4 AC'97 audio codec.
pub const AC97_ICH4: u16 = 0x24C5;

/// Device code of the Intel ICH6 high-definition audio codec.
pub const INTELHDA_ICH6: u16 = 0x2668;

/// The drivers a device can be bound to.
#[derive(Clone, Copy, Debug, PartialEq, Eq, Structural)]
pub enum DriverKind {
    /// IDE disk controller.
    Ide,
    /// AHCI disk controller.
    Ahci,
    /// XHCI USB host controller.
    Xhci,
    /// EHCI USB host controller.
    Ehci,
    /// OHCI USB host controller.
    Ohci,
    /// UHCI USB host controller.
    Uhci,
    /// Realtek 8139 network interface.
    Rtl8139,
    /// Intel 8254x network interface.
    Intel8254x,
    /// AC'97 audio codec.
    Ac97,
    /// Intel high-definition audio codec.
    IntelHda,
}

impl DriverKind {
    /// Whether the driver is handed a register window: the USB host
    /// controllers and the memory-mapped audio codec are.
    pub open spec fn spec_takes_window(self) -> bool {
        self is Xhci || self is Ehci || self is Ohci || self is Uhci || self is IntelHda
    }

    /// Whether the driver is handed a register window, read from the first
    /// base address register and the interrupt line.
    pub fn takes_window(&self) -> (result: bool)
        ensures
            result == self.spec_takes_window(),
    {
        match self {
            DriverKind::Xhci => true,
            DriverKind::Ehci => true,
            DriverKind::Ohci => true,
            DriverKind::Uhci => true,
            DriverKind::IntelHda => true,
            _ => false,
        }
    }
}

/// A rule on the standard class codes.
#[derive(Clone, Copy, Debug, PartialEq, Eq)]
pub struct ClassRule {
    /// Class code the rule asks for.
    pub class: u8,
    /// Subclass code the rule asks for.
    pub subclass: u8,
    /// Interface code the rule asks for; none if any interface will do.
    pub interface: Option<u8>,
    /// Driver that a matching device is bound to.
    pub driver: DriverKind,
}

/// A rule on the exact silicon identity.
#[derive(Clone, Copy, Debug, PartialEq, Eq)]
pub struct IdentityRule {
    /// Vendor code the rule asks for.
    pub vendor: u16,
    /// Device code the rule asks for.
    pub device: u16,
    /// Driver that a matching device is bound to.
    pub driver: DriverKind,
}

/// What the table decides for one device.
#[derive(Clone, Copy, Debug, PartialEq, Eq)]
pub enum Outcome {
    /// A rule matched: the device is bound to this driver.
    Bind(DriverKind),
    /// Class rules name the device's class and subclass, but none accepts
    /// its interface code, which is carried here.  Nothing is bound.
    UnknownInterface(u8),
    /// No rule of either list has anything to say.  Nothing is bound.
    Unsupported,
}

impl ClassRule {
    /// Whether the rule names the class and subclass of `key`.
    pub open spec fn spec_same_family(self, key: ClassCode) -> bool {
        self.class == key.class && self.subclass == key.subclass
    }

    /// Whether the rule accepts `key`: class and subclass agree, and so does
    /// the interface where the rule asks for one.
    pub open spec fn spec_matches(self, key: ClassCode) -> bool {
        self.spec_same_family(key) && match self.interface {
            Some(interface) => interface == key.interface,
            None => true,
        }
    }

    /// Whether the rule names the class and subclass of `key`.
    pub fn same_family(&self, key: ClassCode) -> (result: bool)
        ensures
            result == self.spec_same_family(key),
    {
        self.class == key.class && self.subclass == key.subclass
    }

    /// Whether the rule accepts `key`.
    pub fn matches(&self, key: ClassCode) -> (result: bool)
        ensures
            result == self.spec_matches(key),
    {
        self.same_family(key) && match self.interface {
            Some(interface) => interface == key.interface,
            None => true,
        }
    }
}

impl IdentityRule {
    /// Whether the rule accepts `key`: vendor and device codes agree.
    pub open spec fn spec_matches(self, key: Identity) -> bool {
        self.vendor == key.vendor && self.device == key.device
    }

    /// Whether the rule accepts `key`.
    pub fn matches(&self, key: Identity) -> (result: bool)
        ensures
            result == self.spec_matches(key),
    {
        self.vendor == key.vendor && self.device == key.device
    }
}

/// Driver of the first class rule at or after `start` that accepts `key`.
pub open spec fn class_match_from(rules: Seq<ClassRule>, key: ClassCode, start: int) -> Option<
    DriverKind,
>
    decreases rules.len() - start,
{
    if start < 0 || start >= rules.len() {
        None
    } else if rules[start].spec_matches(key) {
        Some(rules[start].driver)
    } else {
        class_match_from(rules, key, start + 1)
    }
}

/// Driver of the first identity rule at or after `start` that accepts `key`.
pub open spec fn identity_match_from(rules: Seq<IdentityRule>, key: Identity, start: int) -> Option<
    DriverKind,
>
    decreases rules.len() - start,
{
    if start < 0 || start >= rules.len() {
        None
    } else if rules[start].spec_matches(key) {
        Some(rules[start].driver)
    } else {
        identity_match_from(rules, key, start + 1)
    }
}

/// Whether some class rule names the class and subclass of `key`.
pub open spec fn knows_family(rules: Seq<ClassRule>, key: ClassCode) -> bool {
    exists|i: int| 0 <= i < rules.len() && #[trigger] rules[i].spec_same_family(key)
}

/// What a table with these rules decides for a device with these keys.
///
/// The first class rule that accepts the class code wins.  If none does but
/// some class rule names the class and subclass, the interface is unknown
/// and nothing is bound.  Only otherwise does the first identity rule that
/// accepts the identity decide.
pub open spec fn decide(
    class_rules: Seq<ClassRule>,
    identity_rules: Seq<IdentityRule>,
    class: ClassCode,
    identity: Identity,
) -> Outcome {
    match class_match_from(class_rules, class, 0) {
        Some(driver) => Outcome::Bind(driver),
        None => if knows_family(class_rules, class) {
            Outcome::UnknownInterface(class.interface)
        } else {
            match identity_match_from(identity_rules, identity, 0) {
                Some(driver) => Outcome::Bind(driver),
                None => Outcome::Unsupported,
            }
        },
    }
}

/// The class rules of the standard policy, in the order they are tried.
pub open spec fn standard_class_rules() -> Seq<ClassRule> {
    seq![
        ClassRule { class: MASS_STORAGE, subclass: IDE, interface: None, driver: DriverKind::Ide },
        ClassRule {
            class: MASS_STORAGE,
            subclass: SATA,
            interface: Some(AHCI),
            driver: DriverKind::Ahci,
        },
        ClassRule {
            class: SERIAL_BUS,
            subclass: USB,
            interface: Some(XHCI),
            driver: DriverKind::Xhci,
        },
        ClassRule {
            class: SERIAL_BUS,
            subclass: USB,
            interface: Some(EHCI),
            driver: DriverKind::Ehci,
        },
        ClassRule {
            class: SERIAL_BUS,
            subclass: USB,
            interface: Some(OHCI),
            driver: DriverKind::Ohci,
        },
        ClassRule {
            class: SERIAL_BUS,
            subclass: USB,
            interface: Some(UHCI),
            driver: DriverKind::Uhci,
        },
    ]
}

/// The identity rules of the standard policy, in the order they are tried.
pub open spec fn standard_identity_rules() -> Seq<IdentityRule> {
    seq![
        IdentityRule { vendor: REALTEK, device: RTL8139, driver: DriverKind::Rtl8139 },
        IdentityRule { vendor: INTEL, device: GBE_82540EM, driver: DriverKind::Intel8254x },
        IdentityRule { vendor: INTEL, device: AC97_82801AA, driver: DriverKind::Ac97 },
        IdentityRule { vendor: INTEL, device: AC97_ICH4, driver: DriverKind::Ac97 },
        IdentityRule { vendor: INTEL, device: INTELHDA_ICH6, driver: DriverKind::IntelHda },
    ]
}

/// An ordered dispatch policy.
#[derive(Debug)]
pub struct DispatchTable {
    /// Rules on class codes, first to last.
    pub class_rules: Vec<ClassRule>,
    /// Rules on vendor and device codes, first to last.
    pub identity_rules: Vec<IdentityRule>,
}

impl DispatchTable {
    /// What the table decides for a device with these keys.
    pub open spec fn outcome(&self, class: ClassCode, identity: Identity) -> Outcome {
        decide(self.class_rules@, self.identity_rules@, class, identity)
    }

    /// A table without rules: every device is unsupported.
    pub fn new() -> (result: DispatchTable)
        ensures
            result.class_rules@ == Seq::<ClassRule>::empty(),
            result.identity_rules@ == Seq::<IdentityRule>::empty(),
    {
        DispatchTable { class_rules: Vec::new(), identity_rules: Vec::new() }
    }

    /// Adds a class rule behind those already there.
    pub fn add_class_rule(&mut self, rule: ClassRule)
        ensures
            final(self).class_rules@ == old(self).class_rules@.push(rule),
            final(self).identity_rules@ == old(self).identity_rules@,
    {
        self.class_rules.push(rule);
    }

    /// Adds an identity rule behind those already there.
    pub fn add_identity_rule(&mut self, rule: IdentityRule)
        ensures
            final(self).identity_rules@ == old(self).identity_rules@.push(rule),
            final(self).class_rules@ == old(self).class_rules@,
    {
        self.identity_rules.push(rule);
    }

    /// The standard policy: IDE and AHCI disks and the four USB host
    /// controllers by class, two network chips and three audio codecs by
    /// identity.
    pub fn standard() -> (result: DispatchTable)
        ensures
            result.class_rules@ == standard_class_rules(),
            result.identity_rules@ == standard_identity_rules(),
    {
        let mut table = DispatchTable::new();
        table.add_class_rule(
            ClassRule { class: MASS_STORAGE, subclass: IDE, interface: None, driver: DriverKind::Ide },
        );
        table.add_class_rule(
            ClassRule {
                class: MASS_STORAGE,
                subclass: SATA,
                interface: Some(AHCI),
                driver: DriverKind::Ahci,
            },
        );
        table.add_class_rule(
            ClassRule {
                class: SERIAL_BUS,
                subclass: USB,
                interface: Some(XHCI),
                driver: DriverKind::Xhci,
            },
        );
        table.add_class_rule(
            ClassRule {
                class: SERIAL_BUS,
                subclass: USB,
                interface: Some(EHCI),
                driver: DriverKind::Ehci,
            },
        );
        table.add_class_rule(
            ClassRule {
                class: SERIAL_BUS,
                subclass: USB,
                interface: Some(OHCI),
                driver: DriverKind::Ohci,
            },
        );
        table.add_class_rule(
            ClassRule {
                class: SERIAL_BUS,
                subclass: USB,
                interface: Some(UHCI),
                driver: DriverKind::Uhci,
            },
        );
        table.add_identity_rule(
            IdentityRule { vendor: REALTEK, device: RTL8139, driver: DriverKind::Rtl8139 },
        );
        table.add_identity_rule(
            IdentityRule { vendor: INTEL, device: GBE_82540EM, driver: DriverKind::Intel8254x },
        );
        table.add_identity_rule(
            IdentityRule { vendor: INTEL, device: AC97_82801AA, driver: DriverKind::Ac97 },
        );
        table.add_identity_rule(
            IdentityRule { vendor: INTEL, device: AC97_ICH4, driver: DriverKind::Ac97 },
        );
        table.add_identity_rule(
            IdentityRule { vendor: INTEL, device: INTELHDA_ICH6, driver: DriverKind::IntelHda },
        );
        assert(table.class_rules@ =~= standard_class_rules());
        assert(table.identity_rules@ =~= standard_identity_rules());
        table
    }

    /// Decides which driver, if any, a device with these keys is bound to.
    ///
    /// Class rules are tried in order and the first that accepts the class
    /// code wins, whatever the identity rules say.  Without such a rule, a
    /// device whose class and subclass some class rule names has an unknown
    /// interface; any other device goes to the identity rules, in order.
    pub fn dispatch(&self, class: ClassCode, identity: Identity) -> (result: Outcome)
        ensures
            result == self.outcome(class, identity),
    {
        let mut family: bool = false;
        let mut i: usize = 0;
        while i < self.class_rules.len()
            invariant
                i <= self.class_rules.len(),
                class_match_from(self.class_rules@, class, 0) == class_match_from(
                    self.class_rules@,
                    class,
                    i as int,
                ),
                family == exists|j: int|
                    0 <= j < i && #[trigger] self.class_rules@[j].spec_same_family(class),
            decreases self.class_rules.len() - i,
        {
            let rule = self.class_rules[i];
            if rule.matches(class) {
                return Outcome::Bind(rule.driver);
            }
            if rule.same_family(class) {
                family = true;
            }
            i += 1;
        }
        if family {
            return Outcome::UnknownInterface(class.interface);
        }
        assert(!knows_family(self.class_rules@, class));
        let mut k: usize = 0;
        while k < self.identity_rules.len()
            invariant
                k <= self.identity_rules.len(),
                class_match_from(self.class_rules@, class, 0) is None,
                !knows_family(self.class_rules@, class),
                identity_match_from(self.identity_rules@, identity, 0) == identity_match_from(
                    self.identity_rules@,
                    identity,
                    k as int,
                ),
            decreases self.identity_rules.len() - k,
        {
            let rule = self.identity_rules[k];
            if rule.matches(identity) {
                return Outcome::Bind(rule.driver);
            }
            k += 1;
        }
        Outcome::Unsupported
    }
}

/// A class rule that accepts the class code decides, whatever the identity
/// rules are and whatever the identity is: the outcome is the driver of the
/// first such class rule.
pub proof fn lemma_class_rule_wins(
    class_rules: Seq<ClassRule>,
    identity_rules: Seq<IdentityRule>,
    class: ClassCode,
    identity: Identity,
    index: int,
)
    requires
        0 <= index < class_rules.len(),
        class_rules[index].spec_matches(class),
        forall|j: int| 0 <= j < index ==> !(#[trigger] class_rules[j]).spec_matches(class),
    ensures
        decide(class_rules, identity_rules, class, identity) == Outcome::Bind(
            class_rules[index].driver,
        ),
{
    lemma_first_class_match(class_rules, class, 0, index);
}

/// The search from `start` finds the rule at `index` when no rule between
/// the two accepts the key.
pub proof fn lemma_first_class_match(
    rules: Seq<ClassRule>,
    key: ClassCode,
    start: int,
    index: int,
)
    requires
        0 <= start <= index < rules.len(),
        rules[index].spec_matches(key),
        forall|j: int| start <= j < index ==> !(#[trigger] rules[j]).spec_matches(key),
    ensures
        class_match_from(rules, key, start) == Some(rules[index].driver),
    decreases index - start,
{
    if start < index {
        lemma_first_class_match(rules, key, start + 1, index);
    }
}

/// The search from `start` finds nothing exactly when no rule from there on
/// accepts the key; what it finds is the driver of an accepting rule that no
/// accepting rule precedes.
pub proof fn lemma_class_match_is_first(rules: Seq<ClassRule>, key: ClassCode, start: int)
    requires
        0 <= start,
    ensures
        class_match_from(rules, key, start) is None <==> forall|j: int|
            start <= j < rules.len() ==> !(#[trigger] rules[j]).spec_matches(key),
        class_match_from(rules, key, start) matches Some(driver) ==> exists|i: int|
            start <= i < rules.len() && (#[trigger] rules[i]).spec_matches(key) && rules[i].driver
                == driver && forall|j: int|
                start <= j < i ==> !(#[trigger] rules[j]).spec_matches(key),
    decreases rules.len() - start,
{
    if start < rules.len() {
        if rules[start].spec_matches(key) {
            assert(forall|j: int| start <= j < start ==> !(#[trigger] rules[j]).spec_matches(key));
        } else {
            lemma_class_match_is_first(rules, key, start + 1);
            if class_match_from(rules, key, start + 1) is Some {
                let driver = class_match_from(rules, key, start + 1)->0;
                let i = choose|i: int|
                    start + 1 <= i < rules.len() && (#[trigger] rules[i]).spec_matches(key)
                        && rules[i].driver == driver && forall|j: int|
                        start + 1 <= j < i ==> !(#[trigger] rules[j]).spec_matches(key);
                assert(forall|j: int| start <= j < i ==> !(#[trigger] rules[j]).spec_matches(key));
            }
        }
    }
}

/// The identity search from `start` finds nothing exactly when no rule from
/// there on accepts the key; what it finds is the driver of an accepting
/// rule that no accepting rule precedes.
pub proof fn lemma_identity_match_is_first(rules: Seq<IdentityRule>, key: Identity, start: int)
    requires
        0 <= start,
    ensures
        identity_match_from(rules, key, start) is None <==> forall|j: int|
            start <= j < rules.len() ==> !(#[trigger] rules[j]).spec_matches(key),
        identity_match_from(rules, key, start) matches Some(driver) ==> exists|i: int|
            start <= i < rules.len() && (#[trigger] rules[i]).spec_matches(key) && rules[i].driver
                == driver && forall|j: int|
                start <= j < i ==> !(#[trigger] rules[j]).spec_matches(key),
    decreases rules.len() - start,
{
    if start < rules.len() {
        if rules[start].spec_matches(key) {
            assert(forall|j: int| start <= j < start ==> !(#[trigger] rules[j]).spec_matches(key));
        } else {
            lemma_identity_match_is_first(rules, key, start + 1);
            if identity_match_from(rules, key, start + 1) is Some {
                let driver = identity_match_from(rules, key, start + 1)->0;
                let i = choose|i: int|
                    start + 1 <= i < rules.len() && (#[trigger] rules[i]).spec_matches(key)
                        && rules[i].driver == driver && forall|j: int|
                        start + 1 <= j < i ==> !(#[trigger] rules[j]).spec_matches(key);
                assert(forall|j: int| start <= j < i ==> !(#[trigger] rules[j]).spec_matches(key));
            }
        }
    }
}

/// A device that no rule of either list has anything to say about is
/// unsupported, and only such a device is.
pub proof fn lemma_unsupported_means_no_rule(
    class_rules: Seq<ClassRule>,
    identity_rules: Seq<IdentityRule>,
    class: ClassCode,
    identity: Identity,
)
    ensures
        decide(class_rules, identity_rules, class, identity) is Unsupported <==> ((forall|j: int|
            0 <= j < class_rules.len() ==> !(#[trigger] class_rules[j]).spec_same_family(class))
            && (forall|j: int|
            0 <= j < identity_rules.len() ==> !(#[trigger] identity_rules[j]).spec_matches(
                identity,
            ))),
{
    lemma_class_match_is_first(class_rules, class, 0);
    lemma_identity_match_is_first(identity_rules, identity, 0);
}

} // verus!
