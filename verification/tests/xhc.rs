use potatos::fixed_vec::FixedVec;
use potatos::pci::{Device, PciConfigSpace, MAX_DEVICES_NUM};
use potatos::sync::SpinMutex;
use potatos::xhc::{drain_xhc_events, find_xhc_device, init_xhc, switch_echi_to_xhci, HostController, XhcError};

/// A scripted stand-in for the external USB driver.
struct SimController {
    mmio_base: u64,
    initialized: bool,
    running: bool,
    observer_registered: bool,
    ports_configured: bool,
    pending_events: u32,
    processed: u32,
    fail_run: bool,
}

impl HostController for SimController {
    fn new(mmio_base: u64) -> Self {
        SimController {
            mmio_base,
            initialized: false,
            running: false,
            observer_registered: false,
            ports_configured: false,
            pending_events: 0,
            processed: 0,
            fail_run: false,
        }
    }

    fn init(&mut self) {
        self.initialized = true;
    }

    fn run(&mut self) -> Result<(), XhcError> {
        if self.fail_run {
            Err(XhcError::DriverFailed)
        } else {
            self.running = true;
            Ok(())
        }
    }

    fn set_default_mouse_observer<F: Fn(i8, i8)>(&mut self, _observer: F) {
        self.observer_registered = true;
    }

    fn has_event(&self) -> bool {
        self.pending_events > 0
    }

    fn process_event(&mut self) -> Result<(), XhcError> {
        if self.pending_events > 0 {
            self.pending_events -= 1;
            self.processed += 1;
        }
        Ok(())
    }

    fn configure_connected_ports(&mut self) {
        self.ports_configured = true;
    }
}

fn regs_with(values: &[(usize, u32)]) -> Vec<u32> {
    let mut regs = vec![0u32; 64];
    for &(idx, val) in values {
        regs[idx] = val;
    }
    regs
}

fn xhci_regs(vendor: u32, bar0: u32) -> Vec<u32> {
    regs_with(&[(0, 0x0001_0000 | vendor), (2, 0x0c03_3001), (4, bar0)])
}

fn ehci_regs(vendor: u32) -> Vec<u32> {
    regs_with(&[(0, 0x0001_0000 | vendor), (2, 0x0c03_2001)])
}

fn device_at(bus: u8, device: u8, function: u8) -> Device {
    Device { bus, device, function, header_type: 0 }
}

#[test]
fn find_xhc_prefers_intel() {
    let mut m = PciConfigSpace::new();
    m.add_function(0, 1, 0, xhci_regs(0x1af4, 0));
    m.add_function(0, 2, 0, xhci_regs(0x8086, 0));
    m.add_function(0, 3, 0, xhci_regs(0x1af4, 0));
    let mut devices: FixedVec<Device, MAX_DEVICES_NUM> = FixedVec::new();
    devices.push(device_at(0, 1, 0));
    devices.push(device_at(0, 2, 0));
    devices.push(device_at(0, 3, 0));
    let found = find_xhc_device(&mut m, &devices).unwrap();
    assert_eq!((found.bus, found.device, found.function), (0, 2, 0));
}

#[test]
fn find_xhc_none_without_xhci_class() {
    let mut m = PciConfigSpace::new();
    m.add_function(0, 1, 0, ehci_regs(0x8086));
    let mut devices: FixedVec<Device, MAX_DEVICES_NUM> = FixedVec::new();
    devices.push(device_at(0, 1, 0));
    assert!(find_xhc_device(&mut m, &devices).is_none());
}

#[test]
fn init_xhc_without_device_is_a_no_op() {
    let mut m = PciConfigSpace::new();
    m.add_function(0, 1, 0, ehci_regs(0x8086));
    let before = {
        let d = device_at(0, 1, 0);
        d.read_register(&mut m, 0xf8)
    };
    let mut devices: FixedVec<Device, MAX_DEVICES_NUM> = FixedVec::new();
    devices.push(device_at(0, 1, 0));
    let mut shared: SpinMutex<Option<SimController>> = SpinMutex::new(None);
    let r = init_xhc(&mut m, &devices, &mut shared, |_dx: i8, _dy: i8| {});
    assert!(r.is_ok());
    // the handle stays None and no hand-off register was written
    let guard = shared.lock();
    assert!(guard.data.is_none());
    guard.unlock(&mut shared);
    let d = device_at(0, 1, 0);
    assert_eq!(d.read_register(&mut m, 0xf8), before);
}

#[test]
fn init_xhc_runs_the_driver_lifecycle() {
    let mut m = PciConfigSpace::new();
    // BAR0 with flag bits in the low nibble; the MMIO base masks them off
    m.add_function(0, 4, 0, xhci_regs(0x1af4, 0xfe00_0008));
    let mut devices: FixedVec<Device, MAX_DEVICES_NUM> = FixedVec::new();
    devices.push(device_at(0, 4, 0));
    let mut shared: SpinMutex<Option<SimController>> = SpinMutex::new(None);
    let r = init_xhc(&mut m, &devices, &mut shared, |_dx: i8, _dy: i8| {});
    assert!(r.is_ok());
    let guard = shared.lock();
    let controller = guard.data.as_ref().unwrap();
    assert_eq!(controller.mmio_base, 0xfe00_0000);
    assert!(controller.initialized);
    assert!(controller.running);
    assert!(controller.observer_registered);
    assert!(controller.ports_configured);
    guard.unlock(&mut shared);
}

#[test]
fn init_xhc_performs_intel_ehci_handoff() {
    let mut m = PciConfigSpace::new();
    let mut xhci = xhci_regs(0x8086, 0xfe00_0000);
    xhci[0xdc / 4] = 0x0000_00ff;  // SuperSpeed-capable ports
    xhci[0xd4 / 4] = 0x0000_000f;  // ports routed to EHCI
    m.add_function(0, 4, 0, xhci);
    m.add_function(0, 5, 0, ehci_regs(0x8086));
    let mut devices: FixedVec<Device, MAX_DEVICES_NUM> = FixedVec::new();
    devices.push(device_at(0, 4, 0));
    devices.push(device_at(0, 5, 0));
    let mut shared: SpinMutex<Option<SimController>> = SpinMutex::new(None);
    assert!(init_xhc(&mut m, &devices, &mut shared, |_dx: i8, _dy: i8| {}).is_ok());
    let d = device_at(0, 4, 0);
    assert_eq!(d.read_register(&mut m, 0xf8), 0x0000_00ff);
    assert_eq!(d.read_register(&mut m, 0xd0), 0x0000_000f);
}

#[test]
fn handoff_skipped_without_intel_ehci() {
    let mut m = PciConfigSpace::new();
    let mut xhci = xhci_regs(0x8086, 0xfe00_0000);
    xhci[0xdc / 4] = 0x0000_00ff;
    m.add_function(0, 4, 0, xhci);
    // the other controller is EHCI but not Intel
    m.add_function(0, 5, 0, ehci_regs(0x1af4));
    let mut devices: FixedVec<Device, MAX_DEVICES_NUM> = FixedVec::new();
    devices.push(device_at(0, 4, 0));
    devices.push(device_at(0, 5, 0));
    let xhc_dev = device_at(0, 4, 0);
    switch_echi_to_xhci(&mut m, &devices, &xhc_dev);
    assert_eq!(xhc_dev.read_register(&mut m, 0xf8), 0);
    assert_eq!(xhc_dev.read_register(&mut m, 0xd0), 0);
}

#[test]
fn drain_processes_pending_events() {
    let mut controller = SimController::new(0);
    controller.pending_events = 3;
    let mut shared: SpinMutex<Option<SimController>> = SpinMutex::new(Some(controller));
    let drained = drain_xhc_events(&mut shared, 16);
    assert!(drained);
    let guard = shared.lock();
    let controller = guard.data.as_ref().unwrap();
    assert_eq!(controller.processed, 3);
    assert_eq!(controller.pending_events, 0);
    guard.unlock(&mut shared);
}

#[test]
fn drain_stops_at_the_event_budget() {
    let mut controller = SimController::new(0);
    controller.pending_events = 10;
    let mut shared: SpinMutex<Option<SimController>> = SpinMutex::new(Some(controller));
    let drained = drain_xhc_events(&mut shared, 4);
    assert!(!drained);
    let guard = shared.lock();
    assert_eq!(guard.data.as_ref().unwrap().pending_events, 6);
    guard.unlock(&mut shared);
}

#[test]
fn drain_without_controller_is_spurious() {
    let mut shared: SpinMutex<Option<SimController>> = SpinMutex::new(None);
    assert!(drain_xhc_events(&mut shared, 16));
}

#[test]
fn driver_failure_leaves_the_handle_empty() {
    let mut m = PciConfigSpace::new();
    m.add_function(0, 4, 0, xhci_regs(0x1af4, 0xfe00_0000));
    let mut devices: FixedVec<Device, MAX_DEVICES_NUM> = FixedVec::new();
    devices.push(device_at(0, 4, 0));
    let mut shared: SpinMutex<Option<FailingController>> = SpinMutex::new(None);
    let r = init_xhc(&mut m, &devices, &mut shared, |_dx: i8, _dy: i8| {});
    assert_eq!(r, Err(XhcError::DriverFailed));
    let guard = shared.lock();
    assert!(guard.data.is_none());
    guard.unlock(&mut shared);
}

/// A driver whose `run` always declines.
struct FailingController;

impl HostController for FailingController {
    fn new(_mmio_base: u64) -> Self {
        FailingController
    }

    fn init(&mut self) {
    }

    fn run(&mut self) -> Result<(), XhcError> {
        Err(XhcError::DriverFailed)
    }

    fn set_default_mouse_observer<F: Fn(i8, i8)>(&mut self, _observer: F) {
    }

    fn has_event(&self) -> bool {
        false
    }

    fn process_event(&mut self) -> Result<(), XhcError> {
        Ok(())
    }

    fn configure_connected_ports(&mut self) {
    }
}

#[test]
fn find_xhc_returns_the_first_match_without_intel() {
    let mut m = PciConfigSpace::new();
    m.add_function(0, 1, 0, xhci_regs(0x1af4, 0));
    m.add_function(0, 3, 0, xhci_regs(0x10de, 0));
    let mut devices: FixedVec<Device, MAX_DEVICES_NUM> = FixedVec::new();
    devices.push(device_at(0, 1, 0));
    devices.push(device_at(0, 3, 0));
    let found = find_xhc_device(&mut m, &devices).unwrap();
    assert_eq!((found.bus, found.device, found.function), (0, 1, 0));
}

#[test]
fn find_xhc_prefers_the_first_intel_over_an_earlier_match() {
    let mut m = PciConfigSpace::new();
    m.add_function(0, 1, 0, xhci_regs(0x1af4, 0));
    m.add_function(0, 2, 0, xhci_regs(0x8086, 0));
    m.add_function(0, 3, 0, xhci_regs(0x8086, 0));
    let mut devices: FixedVec<Device, MAX_DEVICES_NUM> = FixedVec::new();
    devices.push(device_at(0, 1, 0));
    devices.push(device_at(0, 2, 0));
    devices.push(device_at(0, 3, 0));
    let found = find_xhc_device(&mut m, &devices).unwrap();
    assert_eq!((found.bus, found.device, found.function), (0, 2, 0));
}
