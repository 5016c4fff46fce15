use pci_scan::address::{Bar, ConfigAddress, ADDRESS_COUNT};
use pci_scan::classify::{is_present, ClassCode, Identity};
use pci_scan::dispatch::{
    ClassRule, DispatchTable, DriverKind, IdentityRule, Outcome, AHCI, EHCI, IDE, INTEL,
    MASS_STORAGE, OHCI, REALTEK, SATA, SERIAL_BUS, UHCI, USB, XHCI,
};
use pci_scan::probe::{window_size, BarProbe, ProbeAction};
use pci_scan::registry::{pci_device, Binding, Environment, RegisterWindow};

fn address(bus: u8, slot: u8, function: u8) -> ConfigAddress {
    ConfigAddress::new(bus, slot, function).unwrap()
}

fn class(class: u8, subclass: u8, interface: u8) -> ClassCode {
    ClassCode { class, subclass, interface }
}

fn identity(vendor: u16, device: u16) -> Identity {
    Identity { vendor, device }
}

#[test]
fn address_holds_bus_slot_and_function() {
    let a = address(3, 17, 5);
    assert_eq!(a.bus(), 3);
    assert_eq!(a.slot(), 17);
    assert_eq!(a.function(), 5);
    assert_eq!(a.ordinal(), 3 * 256 + 17 * 8 + 5);
}

#[test]
fn address_rejects_slot_and_function_out_of_range() {
    assert_eq!(ConfigAddress::new(0, 32, 0), None);
    assert_eq!(ConfigAddress::new(0, 0, 8), None);
    assert_eq!(ConfigAddress::new(255, 255, 255), None);
    assert!(ConfigAddress::new(255, 31, 7).is_some());
}

#[test]
fn first_address_is_bus_zero_slot_zero_function_zero() {
    assert_eq!(ConfigAddress::first(), address(0, 0, 0));
    assert_eq!(ConfigAddress::first().ordinal(), 0);
}

#[test]
fn successor_follows_function_then_slot_then_bus() {
    assert_eq!(address(0, 0, 0).successor(), Some(address(0, 0, 1)));
    assert_eq!(address(0, 0, 7).successor(), Some(address(0, 1, 0)));
    assert_eq!(address(0, 31, 7).successor(), Some(address(1, 0, 0)));
    assert_eq!(address(255, 31, 6).successor(), Some(address(255, 31, 7)));
    assert_eq!(address(255, 31, 7).successor(), None);
}

#[test]
fn successor_visits_every_address_once_in_order() {
    let mut current = Some(ConfigAddress::first());
    let mut count: u32 = 0;
    while let Some(a) = current {
        assert_eq!(a.ordinal(), count);
        assert_eq!(ConfigAddress::from_ordinal(count), Some(a));
        count += 1;
        current = a.successor();
    }
    assert_eq!(count, ADDRESS_COUNT);
    assert_eq!(count, 256 * 32 * 8);
}

#[test]
fn from_ordinal_ends_at_the_last_address() {
    assert_eq!(ConfigAddress::from_ordinal(0), Some(address(0, 0, 0)));
    assert_eq!(ConfigAddress::from_ordinal(8), Some(address(0, 1, 0)));
    assert_eq!(ConfigAddress::from_ordinal(256), Some(address(1, 0, 0)));
    assert_eq!(ConfigAddress::from_ordinal(65535), Some(address(255, 31, 7)));
    assert_eq!(ConfigAddress::from_ordinal(65536), None);
    assert_eq!(ConfigAddress::from_ordinal(u32::MAX), None);
}

#[test]
fn bar_offsets_run_from_0x10_in_steps_of_four() {
    let expected: [(Bar, u8, u8); 6] = [
        (Bar::Bar0, 0, 0x10),
        (Bar::Bar1, 1, 0x14),
        (Bar::Bar2, 2, 0x18),
        (Bar::Bar3, 3, 0x1C),
        (Bar::Bar4, 4, 0x20),
        (Bar::Bar5, 5, 0x24),
    ];
    for (bar, index, offset) in expected {
        assert_eq!(bar.index(), index);
        assert_eq!(bar.offset(), offset);
        assert_eq!(Bar::from_index(index), Some(bar));
        assert_eq!(Bar::at_offset(offset), Some(bar));
    }
    assert_eq!(Bar::from_index(6), None);
    assert_eq!(Bar::from_index(255), None);
    assert_eq!(Bar::at_offset(0x28), None);
    assert_eq!(Bar::at_offset(0x0C), None);
    assert_eq!(Bar::at_offset(0x11), None);
    assert_eq!(Bar::at_offset(0x3C), None);
}

#[test]
fn bar_next_stops_after_the_sixth() {
    assert_eq!(Bar::Bar0.next(), Some(Bar::Bar1));
    assert_eq!(Bar::Bar4.next(), Some(Bar::Bar5));
    assert_eq!(Bar::Bar5.next(), None);
}

#[test]
fn identity_is_low_and_high_half() {
    let id = Identity::from_register(0x100E_8086);
    assert_eq!(id.vendor, 0x8086);
    assert_eq!(id.device, 0x100E);
    let id = Identity::from_register(0x8139_10EC);
    assert_eq!(id, identity(REALTEK, 0x8139));
}

#[test]
fn class_code_is_the_upper_three_bytes() {
    let code = ClassCode::from_register(0x0C03_30A7);
    assert_eq!(code.class, 0x0C);
    assert_eq!(code.subclass, 0x03);
    assert_eq!(code.interface, 0x30);
    assert_eq!(ClassCode::from_register(0x0200_0000), class(2, 0, 0));
    assert_eq!(ClassCode::from_register(0xFFFF_FFFF), class(0xFF, 0xFF, 0xFF));
    assert_eq!(ClassCode::from_register(0x0000_00FF), class(0, 0, 0));
}

#[test]
fn presence_goes_by_the_vendor_code() {
    assert!(!is_present(0xFFFF_FFFF));
    assert!(!is_present(0x0000_FFFF));
    assert!(!is_present(0x1234_FFFF));
    assert!(is_present(0xFFFF_0000));
    assert!(is_present(0x100E_8086));
    assert!(is_present(0));
    assert!(!Identity::from_register(0xFFFF).is_present());
}

#[test]
fn window_size_is_all_ones_less_mask_plus_one() {
    assert_eq!(window_size(0xFFFF_0004), Some(0x1_0000));
    assert_eq!(window_size(0xFFFF_FFFF), Some(16));
    assert_eq!(window_size(0xFE00_0004), Some(0x0200_0000));
    assert_eq!(window_size(0xFFFF_F001), Some(0x1000));
    assert_eq!(window_size(0x0000_0010), Some(0xFFFF_FFF0));
    assert_eq!(window_size(0x8000_0000), Some(0x8000_0000));
}

#[test]
fn window_size_without_address_bits_is_none() {
    assert_eq!(window_size(0), None);
    assert_eq!(window_size(1), None);
    assert_eq!(window_size(0xF), None);
}

#[test]
fn probe_of_unused_register_reads_once() {
    let mut probe = BarProbe::new(Bar::Bar2);
    assert_eq!(probe.action(), ProbeAction::Read { offset: 0x18 });
    assert!(!probe.is_done());
    probe.advance(0);
    assert!(probe.is_done());
    assert_eq!(probe.action(), ProbeAction::Done { original: 0, size: None });
    probe.advance(77);
    assert_eq!(probe.action(), ProbeAction::Done { original: 0, size: None });
}

#[test]
fn probe_reads_writes_ones_reads_and_restores() {
    let mut probe = BarProbe::new(Bar::Bar0);
    assert_eq!(probe.action(), ProbeAction::Read { offset: 0x10 });
    probe.advance(0xFE00_0004);
    assert_eq!(probe.action(), ProbeAction::Write { offset: 0x10, value: 0xFFFF_FFFF });
    probe.advance(0);
    assert_eq!(probe.action(), ProbeAction::Read { offset: 0x10 });
    probe.advance(0xFFFF_0004);
    assert_eq!(probe.action(), ProbeAction::Write { offset: 0x10, value: 0xFE00_0004 });
    assert!(!probe.is_done());
    probe.advance(0);
    assert!(probe.is_done());
    assert_eq!(
        probe.action(),
        ProbeAction::Done { original: 0xFE00_0004, size: Some(0x1_0000) }
    );
}

#[test]
fn probe_restores_even_when_the_size_is_nothing() {
    let mut probe = BarProbe::new(Bar::Bar5);
    probe.advance(0x0000_0003);
    assert_eq!(probe.action(), ProbeAction::Write { offset: 0x24, value: 0xFFFF_FFFF });
    probe.advance(0);
    probe.advance(0x0000_000F);
    assert_eq!(probe.action(), ProbeAction::Write { offset: 0x24, value: 3 });
    probe.advance(0);
    assert_eq!(probe.action(), ProbeAction::Done { original: 3, size: None });
}

#[test]
fn standard_table_binds_disks_by_class() {
    let table = DispatchTable::standard();
    let nobody = identity(0x1234, 0x5678);
    assert_eq!(table.dispatch(class(MASS_STORAGE, IDE, 0x80), nobody), Outcome::Bind(DriverKind::Ide));
    assert_eq!(table.dispatch(class(MASS_STORAGE, IDE, 0x00), nobody), Outcome::Bind(DriverKind::Ide));
    assert_eq!(table.dispatch(class(MASS_STORAGE, SATA, AHCI), nobody), Outcome::Bind(DriverKind::Ahci));
}

#[test]
fn standard_table_binds_usb_controllers_by_interface() {
    let table = DispatchTable::standard();
    let nobody = identity(0x1234, 0x5678);
    assert_eq!(table.dispatch(class(SERIAL_BUS, USB, XHCI), nobody), Outcome::Bind(DriverKind::Xhci));
    assert_eq!(table.dispatch(class(SERIAL_BUS, USB, EHCI), nobody), Outcome::Bind(DriverKind::Ehci));
    assert_eq!(table.dispatch(class(SERIAL_BUS, USB, OHCI), nobody), Outcome::Bind(DriverKind::Ohci));
    assert_eq!(table.dispatch(class(SERIAL_BUS, USB, UHCI), nobody), Outcome::Bind(DriverKind::Uhci));
}

#[test]
fn standard_table_reports_unknown_interfaces() {
    let table = DispatchTable::standard();
    let intel_network = identity(INTEL, 0x100E);
    assert_eq!(
        table.dispatch(class(SERIAL_BUS, USB, 0x40), intel_network),
        Outcome::UnknownInterface(0x40)
    );
    assert_eq!(
        table.dispatch(class(SERIAL_BUS, USB, 0xFE), identity(1, 2)),
        Outcome::UnknownInterface(0xFE)
    );
    assert_eq!(
        table.dispatch(class(MASS_STORAGE, SATA, 0x00), intel_network),
        Outcome::UnknownInterface(0x00)
    );
}

#[test]
fn standard_table_binds_network_and_audio_by_identity() {
    let table = DispatchTable::standard();
    let network = class(0x02, 0x00, 0x00);
    let audio = class(0x04, 0x01, 0x00);
    assert_eq!(table.dispatch(network, identity(REALTEK, 0x8139)), Outcome::Bind(DriverKind::Rtl8139));
    assert_eq!(table.dispatch(network, identity(INTEL, 0x100E)), Outcome::Bind(DriverKind::Intel8254x));
    assert_eq!(table.dispatch(audio, identity(INTEL, 0x2415)), Outcome::Bind(DriverKind::Ac97));
    assert_eq!(table.dispatch(audio, identity(INTEL, 0x24C5)), Outcome::Bind(DriverKind::Ac97));
    assert_eq!(table.dispatch(audio, identity(INTEL, 0x2668)), Outcome::Bind(DriverKind::IntelHda));
}

#[test]
fn standard_table_leaves_unknown_hardware_unsupported() {
    let table = DispatchTable::standard();
    assert_eq!(table.dispatch(class(0x02, 0, 0), identity(REALTEK, 0x8168)), Outcome::Unsupported);
    assert_eq!(table.dispatch(class(0x03, 0, 0), identity(0x1234, 0x1111)), Outcome::Unsupported);
    assert_eq!(table.dispatch(class(0x06, 0, 0), identity(INTEL, 0x1237)), Outcome::Unsupported);
    assert_eq!(table.dispatch(class(SERIAL_BUS, 0x05, 0), identity(INTEL, 0x7113)), Outcome::Unsupported);
    assert_eq!(table.dispatch(class(0xFF, 0xFF, 0xFF), identity(0xFFFE, 0xFFFF)), Outcome::Unsupported);
}

#[test]
fn mass_storage_of_another_subclass_falls_through_to_identity() {
    let table = DispatchTable::standard();
    assert_eq!(
        table.dispatch(class(MASS_STORAGE, 0x00, 0), identity(INTEL, 0x100E)),
        Outcome::Bind(DriverKind::Intel8254x)
    );
    assert_eq!(table.dispatch(class(MASS_STORAGE, 0x00, 0), identity(1, 1)), Outcome::Unsupported);
}

#[test]
fn class_rule_wins_over_identity_rule() {
    let mut table = DispatchTable::new();
    table.add_class_rule(ClassRule {
        class: 0x02,
        subclass: 0x00,
        interface: None,
        driver: DriverKind::Ahci,
    });
    table.add_identity_rule(IdentityRule { vendor: INTEL, device: 0x100E, driver: DriverKind::Intel8254x });
    assert_eq!(
        table.dispatch(class(0x02, 0x00, 0x00), identity(INTEL, 0x100E)),
        Outcome::Bind(DriverKind::Ahci)
    );
    assert_eq!(
        table.dispatch(class(0x02, 0x80, 0x00), identity(INTEL, 0x100E)),
        Outcome::Bind(DriverKind::Intel8254x)
    );
}

#[test]
fn first_matching_rule_of_a_list_wins() {
    let mut table = DispatchTable::new();
    table.add_class_rule(ClassRule { class: 1, subclass: 1, interface: Some(5), driver: DriverKind::Ide });
    table.add_class_rule(ClassRule { class: 1, subclass: 1, interface: None, driver: DriverKind::Ahci });
    table.add_class_rule(ClassRule { class: 1, subclass: 1, interface: Some(5), driver: DriverKind::Xhci });
    table.add_identity_rule(IdentityRule { vendor: 7, device: 8, driver: DriverKind::Ac97 });
    table.add_identity_rule(IdentityRule { vendor: 7, device: 8, driver: DriverKind::IntelHda });
    assert_eq!(table.dispatch(class(1, 1, 5), identity(7, 8)), Outcome::Bind(DriverKind::Ide));
    assert_eq!(table.dispatch(class(1, 1, 6), identity(7, 8)), Outcome::Bind(DriverKind::Ahci));
    assert_eq!(table.dispatch(class(9, 9, 9), identity(7, 8)), Outcome::Bind(DriverKind::Ac97));
}

#[test]
fn empty_table_supports_nothing() {
    let table = DispatchTable::new();
    assert_eq!(table.dispatch(class(MASS_STORAGE, IDE, 0), identity(INTEL, 0x100E)), Outcome::Unsupported);
}

#[test]
fn only_some_drivers_take_a_register_window() {
    assert!(DriverKind::Xhci.takes_window());
    assert!(DriverKind::Ehci.takes_window());
    assert!(DriverKind::Ohci.takes_window());
    assert!(DriverKind::Uhci.takes_window());
    assert!(DriverKind::IntelHda.takes_window());
    assert!(!DriverKind::Ide.takes_window());
    assert!(!DriverKind::Ahci.takes_window());
    assert!(!DriverKind::Rtl8139.takes_window());
    assert!(!DriverKind::Intel8254x.takes_window());
    assert!(!DriverKind::Ac97.takes_window());
}

#[test]
fn register_window_clears_flags_and_keeps_the_low_nibble() {
    let window = RegisterWindow::from_registers(0xFE00_0004, 0x0000_010B);
    assert_eq!(window.base, 0xFE00_0000);
    assert!(window.memory_mapped);
    assert_eq!(window.irq, 0xB);
    let window = RegisterWindow::from_registers(0x0000_C001, 0xFFFF_FFFF);
    assert_eq!(window.base, 0xC000);
    assert!(!window.memory_mapped);
    assert_eq!(window.irq, 0xF);
}

#[test]
fn binding_has_a_window_only_for_drivers_that_take_one() {
    let a = address(0, 2, 0);
    let binding = Binding::new(a, DriverKind::Ehci, 0xFEBF_0000, 0x0A);
    assert_eq!(binding.address, a);
    assert_eq!(binding.driver, DriverKind::Ehci);
    assert_eq!(
        binding.window,
        Some(RegisterWindow { base: 0xFEBF_0000, memory_mapped: true, irq: 0xA })
    );
    let binding = Binding::new(a, DriverKind::Rtl8139, 0xFEBF_0000, 0x0A);
    assert_eq!(binding.window, None);
}

#[test]
fn pci_device_appends_one_binding_for_a_known_device() {
    let mut env = Environment::new();
    let a = address(0, 3, 0);
    let outcome = pci_device(&mut env, a, 0x02, 0x00, 0x00, 0x10EC, 0x8139, 0xC001, 0x0B);
    assert_eq!(outcome, Outcome::Bind(DriverKind::Rtl8139));
    assert_eq!(env.len(), 1);
    assert_eq!(env.get(0), Some(Binding { address: a, driver: DriverKind::Rtl8139, window: None }));
    assert_eq!(env.get(1), None);
}

#[test]
fn pci_device_hands_the_window_to_intel_hda() {
    let mut env = Environment::new();
    let a = address(0, 4, 0);
    let outcome = pci_device(&mut env, a, 0x04, 0x03, 0x00, 0x8086, 0x2668, 0xFEBF_0004, 0x105);
    assert_eq!(outcome, Outcome::Bind(DriverKind::IntelHda));
    assert_eq!(
        env.get(0),
        Some(Binding {
            address: a,
            driver: DriverKind::IntelHda,
            window: Some(RegisterWindow { base: 0xFEBF_0000, memory_mapped: true, irq: 5 }),
        })
    );
}

#[test]
fn pci_device_leaves_the_registry_alone_for_unknown_devices() {
    let mut env = Environment::new();
    let a = address(0, 5, 0);
    env.register(Binding { address: a, driver: DriverKind::Ide, window: None });
    assert_eq!(pci_device(&mut env, a, 0x0C, 0x03, 0x99, 0x8086, 0x100E, 0, 0), Outcome::UnknownInterface(0x99));
    assert_eq!(pci_device(&mut env, a, 0x03, 0x00, 0x00, 0x1234, 0x1111, 0, 0), Outcome::Unsupported);
    assert_eq!(env.len(), 1);
    assert_eq!(env.get(0), Some(Binding { address: a, driver: DriverKind::Ide, window: None }));
}

#[test]
fn registry_keeps_the_order_of_registration() {
    let mut env = Environment::new();
    assert_eq!(env.len(), 0);
    assert_eq!(env.get(0), None);
    let first = Binding { address: address(0, 1, 0), driver: DriverKind::Ahci, window: None };
    let second = Binding { address: address(0, 0, 0), driver: DriverKind::Ide, window: None };
    env.register(first);
    env.register(second);
    assert_eq!(env.len(), 2);
    assert_eq!(env.get(0), Some(first));
    assert_eq!(env.get(1), Some(second));
    assert_eq!(env.schemes, vec![first, second]);
}
