use pci_scan::address::{Bar, ConfigAddress};
use pci_scan::dispatch::{ClassRule, DispatchTable, DriverKind, IdentityRule};
use pci_scan::registry::{Binding, Environment, RegisterWindow};
use pci_scan::scan::{Action, Notice, Scanner};
use pci_scan::session::{pci_init, scan};
use pci_scan::sim::{Access, SimulatedBus, SimulatedFunction, SimulatedRegister};

fn address(bus: u8, slot: u8, function: u8) -> ConfigAddress {
    ConfigAddress::new(bus, slot, function).unwrap()
}

fn accesses_to(bus: &SimulatedBus, wanted: ConfigAddress) -> Vec<Access> {
    let mut found = Vec::new();
    for access in &bus.log {
        let at = match access {
            Access::Read { address, .. } => *address,
            Access::Write { address, .. } => *address,
        };
        if at == wanted {
            found.push(*access);
        }
    }
    found
}

fn intel_network() -> SimulatedFunction {
    SimulatedFunction::new(0x100E_8086, 0x0200_0000)
}

fn xhci_controller() -> SimulatedFunction {
    SimulatedFunction::new(0x1E31_8086, 0x0C03_3000)
        .with_bar(Bar::Bar0, SimulatedRegister::new(0xFE00_0004, 0xFFFF_0000))
        .with_interrupt(0x0000_010B)
}

fn next_random(state: &mut u32) -> u32 {
    *state = state.wrapping_mul(1_664_525).wrapping_add(1_013_904_223);
    *state
}

#[test]
fn simulated_register_takes_only_its_writable_bits() {
    let mut register = SimulatedRegister::new(0xFE00_0004, 0xFFFF_0000);
    register.write(0xFFFF_FFFF);
    assert_eq!(register.value, 0xFFFF_0004);
    register.write(0xFE00_0004);
    assert_eq!(register.value, 0xFE00_0004);
    let mut fixed = SimulatedRegister::fixed(0x1234_5678);
    fixed.write(0);
    assert_eq!(fixed.value, 0x1234_5678);
    assert_eq!(fixed.writable, 0);
}

#[test]
fn simulated_function_reads_its_registers_by_offset() {
    let function = xhci_controller().with_bar(Bar::Bar3, SimulatedRegister::fixed(0xC001));
    assert_eq!(function.read(0x00), 0x1E31_8086);
    assert_eq!(function.read(0x08), 0x0C03_3000);
    assert_eq!(function.read(0x10), 0xFE00_0004);
    assert_eq!(function.read(0x14), 0);
    assert_eq!(function.read(0x1C), 0xC001);
    assert_eq!(function.read(0x3C), 0x10B);
    assert_eq!(function.read(0x04), 0);
    assert_eq!(function.read(0x40), 0);
    assert_eq!(function.bar(Bar::Bar3), SimulatedRegister::fixed(0xC001));
}

#[test]
fn simulated_function_takes_writes_to_base_address_registers_only() {
    let mut function = xhci_controller();
    function.write(0x00, 0);
    function.write(0x08, 0);
    function.write(0x3C, 0);
    function.write(0x04, 0xFFFF_FFFF);
    assert_eq!(function, xhci_controller());
    function.write(0x10, 0xFFFF_FFFF);
    assert_eq!(function.read(0x10), 0xFFFF_0004);
}

#[test]
fn absent_function_reads_all_ones_and_ignores_writes() {
    let mut bus = SimulatedBus::new();
    let a = address(9, 9, 1);
    assert_eq!(bus.function(a), None);
    assert_eq!(bus.read(a, 0x00), 0xFFFF_FFFF);
    bus.write(a, 0x10, 0);
    assert_eq!(bus.read(a, 0x10), 0xFFFF_FFFF);
    assert_eq!(
        bus.log,
        vec![
            Access::Read { address: a, offset: 0x00, value: 0xFFFF_FFFF },
            Access::Write { address: a, offset: 0x10, value: 0 },
            Access::Read { address: a, offset: 0x10, value: 0xFFFF_FFFF },
        ]
    );
}

#[test]
fn attach_replaces_and_leaves_other_addresses_alone() {
    let mut bus = SimulatedBus::new();
    bus.attach(address(0, 2, 0), xhci_controller());
    bus.attach(address(0, 1, 0), xhci_controller());
    bus.attach(address(0, 1, 0), intel_network());
    assert_eq!(bus.function(address(0, 1, 0)), Some(intel_network()));
    assert_eq!(bus.function(address(0, 2, 0)), Some(xhci_controller()));
    assert_eq!(bus.function(address(0, 0, 0)), None);
    assert_eq!(bus.function(address(0, 2, 1)), None);
    assert_eq!(bus.function(address(255, 31, 7)), None);
    assert!(bus.log.is_empty());
}

#[test]
fn probe_restores_every_value_at_every_index() {
    let values: [u32; 8] =
        [0, 1, 0xF, 0x10, 0xFE00_0004, 0x8000_0000, 0xFFFF_FFF0, 0xFFFF_FFFF];
    let masks: [u32; 5] = [0, 0xFFFF_0000, 0xFFFF_FFF0, 0xFFFF_FFFF, 0x0000_FF00];
    let a = address(0, 1, 0);
    for index in 0..6u8 {
        let bar = Bar::from_index(index).unwrap();
        for v in values {
            for w in masks {
                let function = intel_network().with_bar(bar, SimulatedRegister::new(v, w));
                let mut bus = SimulatedBus::new();
                bus.attach(a, function);
                let (original, size) = bus.probe(a, bar);
                assert_eq!(original, v);
                assert_eq!(bus.function(a), Some(function));
                assert_eq!(bus.read(a, bar.offset()), v);
                let mask = (v & !w) | w;
                let expected = if v == 0 || mask & 0xFFFF_FFF0 == 0 {
                    None
                } else {
                    Some((0xFFFF_FFFFu32 - (mask & 0xFFFF_FFF0)).wrapping_add(1))
                };
                assert_eq!(size, expected);
            }
        }
    }
}

#[test]
fn probe_of_wired_register_follows_from_its_value() {
    let a = address(0, 1, 0);
    for v in [0x10u32, 0xFE00_0004, 0xFFFF_F000, 0xFFFF_FFFF, 0x8000_0008] {
        let mut bus = SimulatedBus::new();
        bus.attach(a, intel_network().with_bar(Bar::Bar1, SimulatedRegister::fixed(v)));
        let (original, size) = bus.probe(a, Bar::Bar1);
        assert_eq!(original, v);
        assert_eq!(size, Some((0xFFFF_FFFF - (v & !0xF)) + 1));
    }
    let mut bus = SimulatedBus::new();
    bus.attach(a, intel_network().with_bar(Bar::Bar1, SimulatedRegister::fixed(0xFE00_0004)));
    assert_eq!(bus.probe(a, Bar::Bar1), (0xFE00_0004, Some(0x0200_0000)));
}

#[test]
fn probe_of_zero_register_makes_no_write() {
    let a = address(0, 1, 0);
    let mut bus = SimulatedBus::new();
    bus.attach(a, intel_network());
    assert_eq!(bus.probe(a, Bar::Bar4), (0, None));
    assert_eq!(bus.log, vec![Access::Read { address: a, offset: 0x20, value: 0 }]);
}

#[test]
fn probe_logs_read_write_read_write() {
    let a = address(0, 2, 0);
    let mut bus = SimulatedBus::new();
    bus.attach(a, xhci_controller());
    assert_eq!(bus.probe(a, Bar::Bar0), (0xFE00_0004, Some(0x1_0000)));
    assert_eq!(
        bus.log,
        vec![
            Access::Read { address: a, offset: 0x10, value: 0xFE00_0004 },
            Access::Write { address: a, offset: 0x10, value: 0xFFFF_FFFF },
            Access::Read { address: a, offset: 0x10, value: 0xFFFF_0004 },
            Access::Write { address: a, offset: 0x10, value: 0xFE00_0004 },
        ]
    );
}

#[test]
fn probe_of_absent_function_changes_nothing() {
    let a = address(3, 0, 0);
    let mut bus = SimulatedBus::new();
    assert_eq!(bus.probe(a, Bar::Bar0), (0xFFFF_FFFF, Some(16)));
    assert_eq!(bus.function(a), None);
    assert_eq!(bus.log.len(), 4);
}

#[test]
fn scanner_starts_at_the_first_identity_register() {
    let scanner = Scanner::new(DispatchTable::standard());
    assert!(!scanner.is_finished());
    assert_eq!(
        scanner.action(),
        Action::Read { address: address(0, 0, 0), offset: 0x00 }
    );
}

#[test]
fn scanner_skips_an_absent_function_after_one_read() {
    let mut scanner = Scanner::new(DispatchTable::standard());
    scanner.advance(0xFFFF_FFFF);
    assert_eq!(scanner.action(), Action::Read { address: address(0, 0, 1), offset: 0x00 });
    scanner.advance(0x1234_FFFF);
    assert_eq!(scanner.action(), Action::Read { address: address(0, 0, 2), offset: 0x00 });
}

#[test]
fn scanner_walks_a_present_function_step_by_step() {
    let a = address(0, 0, 0);
    let mut scanner = Scanner::new(DispatchTable::standard());
    scanner.advance(0x1E31_8086);
    assert_eq!(scanner.action(), Action::Read { address: a, offset: 0x08 });
    scanner.advance(0x0C03_3000);
    assert_eq!(
        scanner.action(),
        Action::Note(Notice::Found { address: a, identity: 0x1E31_8086, class: 0x0C03_3000 })
    );
    scanner.advance(0);
    assert_eq!(scanner.action(), Action::Read { address: a, offset: 0x10 });
    scanner.advance(0xFE00_0004);
    assert_eq!(scanner.action(), Action::Write { address: a, offset: 0x10, value: 0xFFFF_FFFF });
    scanner.advance(0);
    assert_eq!(scanner.action(), Action::Read { address: a, offset: 0x10 });
    scanner.advance(0xFFFF_0004);
    assert_eq!(scanner.action(), Action::Write { address: a, offset: 0x10, value: 0xFE00_0004 });
    scanner.advance(0);
    assert_eq!(
        scanner.action(),
        Action::Note(Notice::Window {
            address: a,
            bar: Bar::Bar0,
            original: 0xFE00_0004,
            size: Some(0x1_0000),
        })
    );
    scanner.advance(0);
    for offset in [0x14u8, 0x18, 0x1C, 0x20, 0x24] {
        assert_eq!(scanner.action(), Action::Read { address: a, offset });
        scanner.advance(0);
    }
    assert_eq!(scanner.action(), Action::Read { address: a, offset: 0x10 });
    scanner.advance(0xFE00_0004);
    assert_eq!(scanner.action(), Action::Read { address: a, offset: 0x3C });
    scanner.advance(0x0000_010B);
    assert_eq!(
        scanner.action(),
        Action::Bind {
            binding: Binding {
                address: a,
                driver: DriverKind::Xhci,
                window: Some(RegisterWindow { base: 0xFE00_0000, memory_mapped: true, irq: 0xB }),
            },
        }
    );
    scanner.advance(0);
    assert_eq!(scanner.action(), Action::Read { address: address(0, 0, 1), offset: 0x00 });
}

#[test]
fn scanner_reports_an_unknown_usb_interface_and_goes_on() {
    let a = address(0, 0, 0);
    let mut scanner = Scanner::new(DispatchTable::standard());
    scanner.advance(0x7020_8086);
    scanner.advance(0x0C03_4000);
    scanner.advance(0);
    for _ in 0..6 {
        scanner.advance(0);
    }
    assert_eq!(
        scanner.action(),
        Action::Note(Notice::UnknownInterface { address: a, interface: 0x40 })
    );
    scanner.advance(0);
    assert_eq!(scanner.action(), Action::Read { address: address(0, 0, 1), offset: 0x00 });
}

#[test]
fn scanner_leaves_an_unsupported_device_without_a_word() {
    let mut scanner = Scanner::new(DispatchTable::standard());
    scanner.advance(0x1111_1234);
    scanner.advance(0x0300_0000);
    scanner.advance(0);
    for _ in 0..5 {
        scanner.advance(0);
    }
    assert_eq!(scanner.action(), Action::Read { address: address(0, 0, 0), offset: 0x24 });
    scanner.advance(0);
    assert_eq!(scanner.action(), Action::Read { address: address(0, 0, 1), offset: 0x00 });
}

#[test]
fn scanner_binds_without_window_reads_where_none_is_taken() {
    let a = address(0, 0, 0);
    let mut scanner = Scanner::new(DispatchTable::standard());
    scanner.advance(0x100E_8086);
    scanner.advance(0x0200_0000);
    scanner.advance(0);
    for _ in 0..6 {
        scanner.advance(0);
    }
    assert_eq!(
        scanner.action(),
        Action::Bind { binding: Binding { address: a, driver: DriverKind::Intel8254x, window: None } }
    );
}

#[test]
fn scanner_finishes_after_65536_identity_reads_on_an_empty_bus() {
    let mut scanner = Scanner::new(DispatchTable::standard());
    let mut reads: u32 = 0;
    while !scanner.is_finished() {
        match scanner.action() {
            Action::Read { address, offset } => {
                assert_eq!(offset, 0);
                assert_eq!(address.ordinal(), reads);
                reads += 1;
                scanner.advance(0xFFFF_FFFF);
            }
            other => panic!("unexpected action {:?}", other),
        }
    }
    assert_eq!(reads, 65536);
    assert_eq!(scanner.action(), Action::Finished);
    scanner.advance(0);
    assert!(scanner.is_finished());
    assert_eq!(scanner.action(), Action::Finished);
}

#[test]
fn scan_of_an_empty_bus_reads_each_identity_register_once() {
    let mut env = Environment::new();
    let mut bus = SimulatedBus::new();
    pci_init(&mut env, &mut bus);
    assert_eq!(env.len(), 0);
    assert_eq!(bus.log.len(), 65536);
    for (position, access) in bus.log.iter().enumerate() {
        let expected = ConfigAddress::from_ordinal(position as u32).unwrap();
        assert_eq!(*access, Access::Read { address: expected, offset: 0, value: 0xFFFF_FFFF });
    }
}

#[test]
fn absent_function_gets_one_read_and_nothing_else() {
    let mut env = Environment::new();
    let mut bus = SimulatedBus::new();
    bus.attach(address(0, 1, 0), intel_network());
    bus.attach(address(0, 3, 0), SimulatedFunction::new(0x5555_FFFF, 0x0C03_3000));
    pci_init(&mut env, &mut bus);
    for absent in [address(0, 0, 0), address(0, 1, 1), address(0, 3, 0), address(200, 7, 3)] {
        let seen = accesses_to(&bus, absent);
        assert_eq!(seen.len(), 1);
        assert!(matches!(seen[0], Access::Read { offset: 0, .. }));
    }
    assert_eq!(env.len(), 1);
}

#[test]
fn present_function_is_read_probed_and_left_as_it_was() {
    let a = address(0, 2, 0);
    let mut env = Environment::new();
    let mut bus = SimulatedBus::new();
    bus.attach(a, xhci_controller());
    pci_init(&mut env, &mut bus);
    assert_eq!(bus.function(a), Some(xhci_controller()));
    assert_eq!(
        accesses_to(&bus, a),
        vec![
            Access::Read { address: a, offset: 0x00, value: 0x1E31_8086 },
            Access::Read { address: a, offset: 0x08, value: 0x0C03_3000 },
            Access::Read { address: a, offset: 0x10, value: 0xFE00_0004 },
            Access::Write { address: a, offset: 0x10, value: 0xFFFF_FFFF },
            Access::Read { address: a, offset: 0x10, value: 0xFFFF_0004 },
            Access::Write { address: a, offset: 0x10, value: 0xFE00_0004 },
            Access::Read { address: a, offset: 0x14, value: 0 },
            Access::Read { address: a, offset: 0x18, value: 0 },
            Access::Read { address: a, offset: 0x1C, value: 0 },
            Access::Read { address: a, offset: 0x20, value: 0 },
            Access::Read { address: a, offset: 0x24, value: 0 },
            Access::Read { address: a, offset: 0x10, value: 0xFE00_0004 },
            Access::Read { address: a, offset: 0x3C, value: 0x0000_010B },
        ]
    );
    assert_eq!(bus.log.len(), 65535 + 13);
}

#[test]
fn end_to_end_network_and_xhci() {
    let mut env = Environment::new();
    let mut bus = SimulatedBus::new();
    bus.attach(address(0, 1, 0), intel_network());
    bus.attach(address(0, 2, 0), xhci_controller());
    pci_init(&mut env, &mut bus);
    assert_eq!(env.len(), 2);
    assert_eq!(
        env.get(0),
        Some(Binding { address: address(0, 1, 0), driver: DriverKind::Intel8254x, window: None })
    );
    let usb = env.get(1).unwrap();
    assert_eq!(usb.address, address(0, 2, 0));
    assert_eq!(usb.driver, DriverKind::Xhci);
    let window = usb.window.unwrap();
    assert_eq!(window.base, 0xFE00_0000);
    assert!(window.memory_mapped);
    assert_eq!(window.irq, 0xB);
}

#[test]
fn registry_is_in_ascending_order_whatever_the_order_of_attachment() {
    let mut bus = SimulatedBus::new();
    let places = [
        address(200, 31, 7),
        address(0, 0, 0),
        address(3, 4, 5),
        address(0, 31, 0),
        address(3, 4, 4),
        address(255, 31, 7),
        address(1, 0, 0),
    ];
    for place in places {
        bus.attach(place, intel_network());
    }
    let mut env = Environment::new();
    pci_init(&mut env, &mut bus);
    assert_eq!(env.len(), places.len());
    let mut sorted = places.to_vec();
    sorted.sort_by_key(|a| (a.bus(), a.slot(), a.function()));
    for (position, place) in sorted.iter().enumerate() {
        assert_eq!(env.get(position).unwrap().address, *place);
    }
    for pair in env.schemes.windows(2) {
        assert!(pair[0].address.ordinal() < pair[1].address.ordinal());
    }
}

#[test]
fn scanning_twice_finds_the_same() {
    let mut bus = SimulatedBus::new();
    bus.attach(address(0, 1, 0), intel_network());
    bus.attach(address(0, 2, 0), xhci_controller());
    bus.attach(address(7, 0, 3), SimulatedFunction::new(0x8139_10EC, 0x0200_0000));
    let slots = bus.slots.clone();
    let mut first = Environment::new();
    pci_init(&mut first, &mut bus);
    let log = bus.log.clone();
    assert_eq!(bus.slots, slots);
    let mut second = Environment::new();
    pci_init(&mut second, &mut bus);
    assert_eq!(first.schemes, second.schemes);
    assert_eq!(first.len(), 3);
    assert_eq!(bus.slots, slots);
    assert_eq!(bus.log.len(), 2 * log.len());
    assert_eq!(bus.log[log.len()..], log[..]);
}

#[test]
fn one_known_device_among_nine_unknown_gives_one_entry() {
    let mut state: u32 = 0x2545_F491;
    let mut bus = SimulatedBus::new();
    let known = address(4, 10, 2);
    bus.attach(known, SimulatedFunction::new(0x8139_10EC, 0x0200_0000));
    let mut placed = 0;
    while placed < 9 {
        let place = ConfigAddress::from_ordinal(next_random(&mut state) % 65536).unwrap();
        let class = ((next_random(&mut state) % 0xF0 + 0x10) << 24)
            | (next_random(&mut state) & 0x00FF_FFFF);
        let vendor = next_random(&mut state) % 0x1000 + 0x2000;
        let device = next_random(&mut state) & 0xFFFF;
        if place == known || bus.function(place).is_some() {
            continue;
        }
        let function = SimulatedFunction::new((device << 16) | vendor, class)
            .with_bar(Bar::Bar0, SimulatedRegister::new(next_random(&mut state), 0xFFFF_F000))
            .with_bar(Bar::Bar2, SimulatedRegister::new(next_random(&mut state) | 1, 0xFFFF_FF00));
        bus.attach(place, function);
        placed += 1;
    }
    let slots = bus.slots.clone();
    let mut env = Environment::new();
    pci_init(&mut env, &mut bus);
    assert_eq!(env.len(), 1);
    assert_eq!(
        env.get(0),
        Some(Binding { address: known, driver: DriverKind::Rtl8139, window: None })
    );
    assert_eq!(bus.slots, slots);
}

#[test]
fn scan_appends_behind_what_the_registry_held() {
    let mut env = Environment::new();
    let earlier = Binding { address: address(9, 9, 1), driver: DriverKind::Ide, window: None };
    env.register(earlier);
    let mut bus = SimulatedBus::new();
    bus.attach(address(0, 1, 0), intel_network());
    pci_init(&mut env, &mut bus);
    assert_eq!(env.len(), 2);
    assert_eq!(env.get(0), Some(earlier));
    assert_eq!(env.get(1).unwrap().driver, DriverKind::Intel8254x);
}

#[test]
fn scan_under_fixture_rules_lets_the_class_rule_win() {
    let mut table = DispatchTable::new();
    table.add_class_rule(ClassRule {
        class: 0x02,
        subclass: 0x00,
        interface: None,
        driver: DriverKind::Ohci,
    });
    table.add_identity_rule(IdentityRule {
        vendor: 0x8086,
        device: 0x100E,
        driver: DriverKind::Intel8254x,
    });
    let a = address(0, 1, 0);
    let mut bus = SimulatedBus::new();
    bus.attach(a, intel_network().with_interrupt(0x27));
    let mut env = Environment::new();
    scan(&mut env, &mut bus, table);
    assert_eq!(
        env.schemes,
        vec![Binding {
            address: a,
            driver: DriverKind::Ohci,
            window: Some(RegisterWindow { base: 0, memory_mapped: true, irq: 7 }),
        }]
    );
}

#[test]
fn scan_of_an_empty_bus_has_nothing_to_report() {
    let mut env = Environment::new();
    let mut bus = SimulatedBus::new();
    assert_eq!(pci_init(&mut env, &mut bus), Vec::<Notice>::new());
}

#[test]
fn scan_announces_devices_and_reports_windows_in_use() {
    let network = address(0, 1, 0);
    let usb = address(0, 2, 0);
    let odd = address(0, 2, 1);
    let mut bus = SimulatedBus::new();
    bus.attach(usb, xhci_controller().with_bar(Bar::Bar4, SimulatedRegister::fixed(0x0000_C001)));
    bus.attach(network, intel_network());
    bus.attach(
        odd,
        SimulatedFunction::new(0x7020_8086, 0x0C03_4000)
            .with_bar(Bar::Bar5, SimulatedRegister::new(3, 0)),
    );
    let mut env = Environment::new();
    let notes = pci_init(&mut env, &mut bus);
    assert_eq!(
        notes,
        vec![
            Notice::Found { address: network, identity: 0x100E_8086, class: 0x0200_0000 },
            Notice::Found { address: usb, identity: 0x1E31_8086, class: 0x0C03_3000 },
            Notice::Window {
                address: usb,
                bar: Bar::Bar0,
                original: 0xFE00_0004,
                size: Some(0x1_0000),
            },
            Notice::Window {
                address: usb,
                bar: Bar::Bar4,
                original: 0x0000_C001,
                size: Some(0xFFFF_4000),
            },
            Notice::Found { address: odd, identity: 0x7020_8086, class: 0x0C03_4000 },
            Notice::Window { address: odd, bar: Bar::Bar5, original: 3, size: None },
            Notice::UnknownInterface { address: odd, interface: 0x40 },
        ]
    );
    assert_eq!(notes[3].address(), usb);
    assert_eq!(env.len(), 2);
}

#[test]
fn access_names_its_function() {
    let a = address(1, 2, 3);
    assert_eq!(Access::Read { address: a, offset: 0, value: 9 }.address(), a);
    assert_eq!(Access::Write { address: a, offset: 0x10, value: 9 }.address(), a);
}
