use potatos::fixed_vec::FixedVec;
use potatos::interrupts::InterruptVector;
use potatos::pci::{
    read_config_data, scan_all_bus, write_config_addr, write_config_data, Config, Device,
    IOPort, MSIDeliveryMode, MSITriggerMode, PciConfigSpace, PciError, CONFIG_ADDRESS,
    CONFIG_DATA, MAX_DEVICES_NUM,
};

fn regs_with(values: &[(usize, u32)]) -> Vec<u32> {
    let mut regs = vec![0u32; 64];
    for &(idx, val) in values {
        regs[idx] = val;
    }
    regs
}

/// Register 0 carries the vendor id in its low half; any id but 0xffff
/// makes the function present.
fn present_regs() -> Vec<u32> {
    regs_with(&[(0, 0x1234_8086)])
}

#[test]
fn make_address_encodes_documented_layout() {
    let config = Config::new(1, 2, 3);
    assert_eq!(config.make_address(0x41), 0x8001_1340);
    let zero = Config::new(0, 0, 0);
    assert_eq!(zero.make_address(0), 0x8000_0000);
    let max = Config::new(255, 31, 7);
    assert_eq!(max.make_address(0xfc), 0x80ff_fffc);
}

#[test]
fn make_address_clears_low_register_bits() {
    let config = Config::new(0, 0, 0);
    assert_eq!(config.make_address(0x43), config.make_address(0x40));
}

#[test]
fn data_port_reads_latched_register() {
    let mut m = PciConfigSpace::new();
    m.add_function(0, 1, 0, regs_with(&[(0, 0x5678_1af4), (2, 0x0c03_3001)]));
    let config = Config::new(0, 1, 0);
    write_config_addr(&mut m, config.make_address(0x08));
    assert_eq!(read_config_data(&m), 0x0c03_3001);
    write_config_addr(&mut m, config.make_address(0x00));
    assert_eq!(read_config_data(&m), 0x5678_1af4);
}

#[test]
fn absent_function_reads_all_ones() {
    let mut m = PciConfigSpace::new();
    let config = Config::new(0, 5, 0);
    write_config_addr(&mut m, config.make_address(0));
    assert_eq!(read_config_data(&m), 0xffff_ffff);
    assert_eq!(config.read_vendor_id(&mut m), 0xffff);
}

#[test]
fn disabled_address_reads_all_ones_and_absorbs_writes() {
    let mut m = PciConfigSpace::new();
    m.add_function(0, 0, 0, present_regs());
    // an address without the enable bit selects nothing
    write_config_addr(&mut m, 0x0000_0000);
    assert_eq!(read_config_data(&m), 0xffff_ffff);
    write_config_data(&mut m, 0xdead_beef);
    let config = Config::new(0, 0, 0);
    assert_eq!(config.read_vendor_id(&mut m), 0x8086);
}

#[test]
fn accessors_extract_documented_fields() {
    let mut m = PciConfigSpace::new();
    m.add_function(
        2,
        3,
        1,
        regs_with(&[(0, 0xabcd_8086), (2, 0x0c03_3001), (3, 0x0080_0000), (6, 0x0000_0500)]),
    );
    let config = Config::new(2, 3, 1);
    assert_eq!(config.read_vendor_id(&mut m), 0x8086);
    assert_eq!(config.read_device_id(&mut m), 0xabcd);
    assert_eq!(config.read_class_code(&mut m), (0x0c, 0x03, 0x30, 0x01));
    assert_eq!(config.read_header_type(&mut m), 0x80);
    assert_eq!(config.read_bus_number(&mut m), 0x0000_0500);
}

#[test]
fn device_register_write_read_roundtrip() {
    let mut m = PciConfigSpace::new();
    m.add_function(0, 4, 0, present_regs());
    let device = Device { bus: 0, device: 4, function: 0, header_type: 0 };
    device.write_register(&mut m, 0xdc, 0xcafe_f00d);
    assert_eq!(device.read_register(&mut m, 0xdc), 0xcafe_f00d);
    // a write to an absent device changes nothing
    let ghostly = Device { bus: 9, device: 1, function: 0, header_type: 0 };
    ghostly.write_register(&mut m, 0x10, 0x1111_1111);
    assert_eq!(ghostly.read_register(&mut m, 0x10), 0xffff_ffff);
}

#[test]
fn read_bar_handles_32_and_64_bit_bars() {
    let mut m = PciConfigSpace::new();
    // BAR0 at register 4: 32-bit memory BAR
    m.add_function(0, 0, 0, regs_with(&[(0, 0x0001_8086), (4, 0x8000_0000)]));
    // BAR0 64-bit (bit 2 set): upper half in BAR1
    m.add_function(0, 1, 0, regs_with(&[(0, 0x0001_8086), (4, 0x8000_0004), (5, 0x0000_00ab)]));
    let dev32 = Device { bus: 0, device: 0, function: 0, header_type: 0 };
    assert_eq!(dev32.read_bar(&mut m, 0), Some(0x8000_0000));
    let dev64 = Device { bus: 0, device: 1, function: 0, header_type: 0 };
    assert_eq!(dev64.read_bar(&mut m, 0), Some(0x0000_00ab_8000_0004));
    assert_eq!(dev32.read_bar(&mut m, 6), None);
}

#[test]
fn scan_single_function_host_bridge_scans_bus_zero_only() {
    let mut m = PciConfigSpace::new();
    // host bridge at (0,0,0), single-function header
    m.add_function(0, 0, 0, present_regs());
    m.add_function(0, 7, 0, present_regs());
    // a device on bus 1 is unreachable without a bridge or a root function
    m.add_function(1, 0, 0, present_regs());
    let mut devices: FixedVec<Device, MAX_DEVICES_NUM> = FixedVec::new();
    assert!(scan_all_bus(&mut m, &mut devices).is_ok());
    let found = devices.as_slice();
    assert_eq!(found.len(), 2);
    assert_eq!((found[0].bus, found[0].device, found[0].function), (0, 0, 0));
    assert_eq!((found[1].bus, found[1].device, found[1].function), (0, 7, 0));
}

#[test]
fn scan_multi_function_host_bridge_scans_one_root_bus_per_function() {
    let mut m = PciConfigSpace::new();
    // host bridge multi-function: function 1 present means root bus 1 exists
    m.add_function(0, 0, 0, regs_with(&[(0, 0x0001_8086), (3, 0x0080_0000)]));
    m.add_function(0, 0, 1, present_regs());
    m.add_function(1, 2, 0, present_regs());
    let mut devices: FixedVec<Device, MAX_DEVICES_NUM> = FixedVec::new();
    assert!(scan_all_bus(&mut m, &mut devices).is_ok());
    let found = devices.as_slice();
    assert_eq!(found.len(), 1);
    assert_eq!((found[0].bus, found[0].device, found[0].function), (1, 2, 0));
}

#[test]
fn scan_registers_all_functions_of_multi_function_device() {
    let mut m = PciConfigSpace::new();
    m.add_function(0, 0, 0, present_regs());
    // multi-function device at (0,1): functions 0 and 4 present
    m.add_function(0, 1, 0, regs_with(&[(0, 0x0001_8086), (3, 0x0080_0000)]));
    m.add_function(0, 1, 4, present_regs());
    // single-function device at (0,2): its function 5 is never probed
    m.add_function(0, 2, 0, present_regs());
    m.add_function(0, 2, 5, present_regs());
    let mut devices: FixedVec<Device, MAX_DEVICES_NUM> = FixedVec::new();
    assert!(scan_all_bus(&mut m, &mut devices).is_ok());
    let coords: Vec<(u8, u8, u8)> =
        devices.as_slice().iter().map(|d| (d.bus, d.device, d.function)).collect();
    assert_eq!(coords, vec![(0, 0, 0), (0, 1, 0), (0, 1, 4), (0, 2, 0)]);
}

/// A topology with one bridge and three plain functions yields exactly
/// four registry entries, the bridge's subtree discovered before the scan
/// that found it moves on.
#[test]
fn scan_descends_bridges_depth_first() {
    let mut m = PciConfigSpace::new();
    m.add_function(0, 0, 0, present_regs());
    // bridge at (0,3,0) to secondary bus 5
    m.add_function(
        0,
        3,
        0,
        regs_with(&[(0, 0x0001_8086), (2, 0x0604_0000), (6, 0x0000_0500)]),
    );
    m.add_function(5, 2, 0, regs_with(&[(0, 0x5678_1af4), (2, 0x0c03_3001)]));
    m.add_function(0, 9, 0, present_regs());
    let mut devices: FixedVec<Device, MAX_DEVICES_NUM> = FixedVec::new();
    assert!(scan_all_bus(&mut m, &mut devices).is_ok());
    let coords: Vec<(u8, u8, u8)> =
        devices.as_slice().iter().map(|d| (d.bus, d.device, d.function)).collect();
    // depth first: the bus behind the bridge comes before (0,9,0)
    assert_eq!(coords, vec![(0, 0, 0), (0, 3, 0), (5, 2, 0), (0, 9, 0)]);
    // the xHCI function on bus 5 is in the registry
    let xhci = devices.as_slice().iter().find(|d| (d.bus, d.device, d.function) == (5, 2, 0));
    assert!(xhci.is_some());
}

#[test]
fn registry_overflow_reports_full_and_keeps_prefix() {
    let mut m = PciConfigSpace::new();
    // 32 single-function devices on bus 0; device 3 is a bridge to bus 5
    for d in 0..32u8 {
        if d == 3 {
            m.add_function(
                0,
                d,
                0,
                regs_with(&[(0, 0x0001_8086), (2, 0x0604_0000), (6, 0x0000_0500)]),
            );
        } else {
            m.add_function(0, d, 0, present_regs());
        }
    }
    // the device behind the bridge is the 33rd discovered function
    m.add_function(5, 0, 0, present_regs());
    let mut devices: FixedVec<Device, MAX_DEVICES_NUM> = FixedVec::new();
    let r = scan_all_bus(&mut m, &mut devices);
    assert_eq!(r, Err(PciError::RegistryFull));
    assert_eq!(devices.len(), 32);
    // everything discovered before the overflow is intact, in scan order
    let found = devices.as_slice();
    assert_eq!((found[0].bus, found[0].device, found[0].function), (0, 0, 0));
    assert_eq!((found[3].bus, found[3].device, found[3].function), (0, 3, 0));
    assert_eq!((found[4].bus, found[4].device, found[4].function), (5, 0, 0));
    assert_eq!((found[31].bus, found[31].device, found[31].function), (0, 30, 0));
}

fn msi_machine(multi_message_capable: u32, flags: u32) -> PciConfigSpace {
    let mut m = PciConfigSpace::new();
    // capability pointer (register 0x34) points at 0x50; the MSI entry
    // carries id 0x05, no next entry, and the control word in its top half
    let header = 0x05 | (multi_message_capable << 17) | flags;
    m.add_function(
        0,
        1,
        0,
        regs_with(&[(0, 0x1234_8086), (0x34 / 4, 0x50), (0x50 / 4, header)]),
    );
    m
}

fn msi_device() -> Device {
    Device { bus: 0, device: 1, function: 0, header_type: 0 }
}

#[test]
fn msi_configuration_takes_min_of_requested_and_capable() {
    // capable exponent 3, requested 5: enable field becomes 3
    let mut m = msi_machine(3, 0);
    let device = msi_device();
    let r = device.configure_msi_fixed_destination(
        &mut m,
        0,
        MSITriggerMode::Edge,
        MSIDeliveryMode::Fixed,
        InterruptVector::XHCI,
        5,
    );
    assert!(r.is_ok());
    assert_eq!(device.read_register(&mut m, 0x50), 0x05 | (3 << 17) | (3 << 20) | (1 << 16));

    // capable exponent 3, requested 1: enable field becomes 1
    let mut m = msi_machine(3, 0);
    let r = device.configure_msi_fixed_destination(
        &mut m,
        0,
        MSITriggerMode::Edge,
        MSIDeliveryMode::Fixed,
        InterruptVector::XHCI,
        1,
    );
    assert!(r.is_ok());
    assert_eq!(device.read_register(&mut m, 0x50), 0x05 | (3 << 17) | (1 << 20) | (1 << 16));
}

#[test]
fn msi_message_address_and_data_are_bit_exact() {
    let mut m = msi_machine(0, 0);
    let device = msi_device();
    let r = device.configure_msi_fixed_destination(
        &mut m,
        0xab,
        MSITriggerMode::Level,
        MSIDeliveryMode::Fixed,
        InterruptVector::XHCI,
        0,
    );
    assert!(r.is_ok());
    // fixed destination: base 0xfee00000 with the APIC id in bits 12..20
    assert_eq!(device.read_register(&mut m, 0x54), 0xfeea_b000);
    // vector 0x40 in bits 0..8; level trigger sets bits 14 and 15
    assert_eq!(device.read_register(&mut m, 0x58), 0xc040);
}

#[test]
fn msi_64_bit_capable_device_shifts_data_word() {
    // bit 23: 64-bit address capable
    let mut m = msi_machine(0, 1 << 23);
    let device = msi_device();
    let r = device.configure_msi_fixed_destination(
        &mut m,
        1,
        MSITriggerMode::Edge,
        MSIDeliveryMode::Fixed,
        InterruptVector::XHCI,
        0,
    );
    assert!(r.is_ok());
    assert_eq!(device.read_register(&mut m, 0x54), 0xfee0_1000);
    // the data word lands one register later, after the upper address
    assert_eq!(device.read_register(&mut m, 0x58), 0);
    assert_eq!(device.read_register(&mut m, 0x5c), 0x40);
}

#[test]
fn msi_absent_capability_reports_not_found() {
    let mut m = PciConfigSpace::new();
    // a capability list with only an MSI-X entry (id 0x11)
    m.add_function(
        0,
        1,
        0,
        regs_with(&[(0, 0x1234_8086), (0x34 / 4, 0x50), (0x50 / 4, 0x11)]),
    );
    let device = msi_device();
    let before = device.read_register(&mut m, 0x50);
    let r = device.configure_msi_fixed_destination(
        &mut m,
        0,
        MSITriggerMode::Edge,
        MSIDeliveryMode::Fixed,
        InterruptVector::XHCI,
        0,
    );
    assert_eq!(r, Err(PciError::CapabilityNotFound));
    assert_eq!(device.read_register(&mut m, 0x50), before);
}

#[test]
fn msi_walk_keeps_last_entry_of_the_list() {
    let mut m = PciConfigSpace::new();
    // list: 0x40 (MSI-X, next 0x50) -> 0x50 (MSI, end)
    m.add_function(
        0,
        1,
        0,
        regs_with(&[
            (0, 0x1234_8086),
            (0x34 / 4, 0x40),
            (0x40 / 4, 0x11 | (0x50 << 8)),
            (0x50 / 4, 0x05),
        ]),
    );
    let device = msi_device();
    let r = device.configure_msi_fixed_destination(
        &mut m,
        0,
        MSITriggerMode::Edge,
        MSIDeliveryMode::Fixed,
        InterruptVector::XHCI,
        0,
    );
    assert!(r.is_ok());
    // the MSI entry at 0x50 was configured
    assert_eq!(device.read_register(&mut m, 0x50) & (1 << 16), 1 << 16);
}

#[test]
fn io_port_cycles_reach_only_the_config_ports() {
    let mut m = PciConfigSpace::new();
    m.add_function(0, 0, 0, regs_with(&[(0, 0x1234_8086)]));
    let config = Config::new(0, 0, 0);
    let mut addr_port = IOPort::new(CONFIG_ADDRESS);
    let mut data_port = IOPort::new(CONFIG_DATA);
    addr_port.write32(&mut m, config.make_address(0));
    assert_eq!(data_port.read32(&m), 0x1234_8086);
    assert_eq!(data_port.read16(&m), 0x8086);
    // any other port reads all ones and absorbs writes
    let mut other = IOPort::new(0x60);
    assert_eq!(other.read32(&m), 0xffff_ffff);
    other.write32(&mut m, 0xdead_beef);
    assert_eq!(data_port.read32(&m), 0x1234_8086);
    data_port.write32(&mut m, 0xabcd_0123);
    assert_eq!(data_port.read32(&m), 0xabcd_0123);
}

#[test]
fn scan_of_an_empty_machine_finds_nothing() {
    // with no host bridge every probe reads all ones
    let mut m = PciConfigSpace::new();
    let mut devices: FixedVec<Device, MAX_DEVICES_NUM> = FixedVec::new();
    assert!(scan_all_bus(&mut m, &mut devices).is_ok());
    assert_eq!(devices.len(), 0);
}

#[test]
fn registry_holds_exactly_its_capacity_without_error() {
    let mut m = PciConfigSpace::new();
    for d in 0..32u8 {
        m.add_function(0, d, 0, present_regs());
    }
    let mut devices: FixedVec<Device, MAX_DEVICES_NUM> = FixedVec::new();
    assert!(scan_all_bus(&mut m, &mut devices).is_ok());
    assert_eq!(devices.len(), 32);
}

#[test]
fn msi_entry_high_in_config_space_still_configures() {
    // an MSI entry at 0xf0 without the 64-bit or masking flags takes only
    // the registers at 0xf0, 0xf4 and 0xf8 - all inside configuration
    // space, so it is configured like any other
    let mut m = PciConfigSpace::new();
    m.add_function(
        0,
        1,
        0,
        regs_with(&[(0, 0x1234_8086), (0x34 / 4, 0xf0), (0xf0 / 4, 0x05)]),
    );
    let device = Device { bus: 0, device: 1, function: 0, header_type: 0 };
    let r = device.configure_msi_fixed_destination(
        &mut m,
        0,
        MSITriggerMode::Edge,
        MSIDeliveryMode::Fixed,
        InterruptVector::XHCI,
        0,
    );
    assert!(r.is_ok());
    assert_eq!(device.read_register(&mut m, 0xf0), 0x05 | (1 << 16));
    assert_eq!(device.read_register(&mut m, 0xf4), 0xfee0_0000);
    assert_eq!(device.read_register(&mut m, 0xf8), 0x40);
}

#[test]
fn msi_entry_whose_fields_wrap_counts_as_absent() {
    // the same offset with both flags set would need mask and pending
    // words past the end of configuration space: unprogrammable, so the
    // walk treats the entry as absent and nothing is written
    let mut m = PciConfigSpace::new();
    m.add_function(
        0,
        1,
        0,
        regs_with(&[(0, 0x1234_8086), (0x34 / 4, 0xf0), (0xf0 / 4, 0x05 | (1 << 23) | (1 << 24))]),
    );
    let device = Device { bus: 0, device: 1, function: 0, header_type: 0 };
    let before = device.read_register(&mut m, 0xf0);
    let r = device.configure_msi_fixed_destination(
        &mut m,
        0,
        MSITriggerMode::Edge,
        MSIDeliveryMode::Fixed,
        InterruptVector::XHCI,
        0,
    );
    assert_eq!(r, Err(PciError::CapabilityNotFound));
    assert_eq!(device.read_register(&mut m, 0xf0), before);
}
