//! xHCI bring-up: locate the USB host controller among the discovered PCI
//! functions, hand Intel ports over from the EHCI controller when one is
//! present, and drive the external USB driver's lifecycle. The controller
//! handle lives behind the spinlock, `None` until bring-up succeeds; the
//! steady state is the interrupt path draining the driver's event queue.

use vstd::prelude::*;
use vstd::pervasive::unreached;

use crate::fixed_vec::FixedVec;
use crate::pci::{
    Config, Device, PciConfigSpace, MAX_DEVICES_NUM, spec_class_code, spec_device_reg,
    spec_device_write, spec_read_bar, spec_vendor_id,
};
use crate::sync::SpinMutex;

verus! {

/// Reported when the external driver's lifecycle declines.
#[derive(Clone, Copy, PartialEq, Eq, Structural, Debug)]
pub enum XhcError {
    /// The driver's `run` or `process_event` reported failure.
    DriverFailed,
}

/// The external USB host-controller driver, reached through a foreign
/// interface: construct over the MMIO base from BAR 0, initialize, run,
/// then drain events as the device vector fires. Nothing is promised of the
/// driver's behaviour; the bring-up logic is verified for every
/// implementation of this boundary.
pub trait HostController: Sized {
    /// Builds the driver's controller object over the MMIO base.
    fn new(mmio_base: u64) -> Self;

    /// One-time controller initialization.
    fn init(&mut self);

    /// Starts the controller.
    fn run(&mut self) -> Result<(), XhcError>;

    /// Registers the observer the driver reports mouse deltas to.
    fn set_default_mouse_observer<F: Fn(i8, i8)>(&mut self, observer: F);

    /// Whether an event is pending on the controller's event ring.
    fn has_event(&self) -> bool;

    /// Processes one pending event.
    fn process_event(&mut self) -> Result<(), XhcError>;

    /// Asks the driver to configure every connected port.
    fn configure_connected_ports(&mut self);
}

/// Whether the function at `c` is a USB xHCI controller: class code
/// (0x0c, 0x03, interface 0x30).
pub open spec fn spec_is_xhci(m: Map<(int, int, int), Seq<u32>>, c: Config) -> bool {
    let cc = spec_class_code(m, c);
    cc.0 == 0x0c && cc.1 == 0x03 && cc.2 == 0x30
}

/// Whether the function at `c` reports Intel as its vendor.
pub open spec fn spec_is_intel(m: Map<(int, int, int), Seq<u32>>, c: Config) -> bool {
    spec_vendor_id(m, c) == 0x8086
}

/// Whether the function at `c` is an Intel EHCI (USB 2) controller: class
/// code (0x0c, 0x03, interface 0x20), vendor Intel.
pub open spec fn spec_is_intel_ehci(m: Map<(int, int, int), Seq<u32>>, c: Config) -> bool {
    let cc = spec_class_code(m, c);
    cc.0 == 0x0c && cc.1 == 0x03 && cc.2 == 0x20 && spec_is_intel(m, c)
}

/// Whether the registry holds an Intel EHCI controller.
pub open spec fn spec_has_intel_ehci(m: Map<(int, int, int), Seq<u32>>, s: Seq<Device>) -> bool {
    exists|i: int| 0 <= i < s.len() && spec_is_intel_ehci(m, (#[trigger] s[i]).config())
}

/// The machine after the EHCI hand-off on `dev`: the SuperSpeed-capable
/// port register (0xdc) copied into the SuperSpeed routing register
/// (0xf8), then the EHCI-routed port register (0xd4) into the xHCI routing
/// register (0xd0).
pub open spec fn spec_ehci_handoff(
    m: Map<(int, int, int), Seq<u32>>,
    dev: Device,
) -> Map<(int, int, int), Seq<u32>> {
    let superspeed = spec_device_reg(m, dev.bus, dev.device, dev.function, 0xdc);
    let m1 = spec_device_write(m, dev.bus, dev.device, dev.function, 0xf8, superspeed);
    let ehci2xhci = spec_device_reg(m1, dev.bus, dev.device, dev.function, 0xd4);
    spec_device_write(m1, dev.bus, dev.device, dev.function, 0xd0, ehci2xhci)
}

/// The first registry entry with the xHCI class code, in registry order.
pub open spec fn spec_first_xhci(m: Map<(int, int, int), Seq<u32>>, s: Seq<Device>) -> Option<
    Device,
>
    decreases s.len(),
{
    if s.len() == 0 {
        None
    } else if spec_is_xhci(m, s[0].config()) {
        Some(s[0])
    } else {
        spec_first_xhci(m, s.drop_first())
    }
}

/// The first registry entry that is an Intel xHCI controller.
pub open spec fn spec_first_intel_xhci(
    m: Map<(int, int, int), Seq<u32>>,
    s: Seq<Device>,
) -> Option<Device>
    decreases s.len(),
{
    if s.len() == 0 {
        None
    } else if spec_is_xhci(m, s[0].config()) && spec_is_intel(m, s[0].config()) {
        Some(s[0])
    } else {
        spec_first_intel_xhci(m, s.drop_first())
    }
}

/// The controller bring-up uses: the first Intel xHCI entry when one
/// exists, else the first xHCI entry of any vendor, else none.
pub open spec fn spec_find_xhc(m: Map<(int, int, int), Seq<u32>>, s: Seq<Device>) -> Option<
    Device,
> {
    if spec_first_intel_xhci(m, s) is Some {
        spec_first_intel_xhci(m, s)
    } else {
        spec_first_xhci(m, s)
    }
}

proof fn lemma_first_xhci_at(m: Map<(int, int, int), Seq<u32>>, s: Seq<Device>, i: int)
    requires
        0 <= i < s.len(),
        forall|j: int| 0 <= j < i ==> !spec_is_xhci(m, (#[trigger] s[j]).config()),
        spec_is_xhci(m, s[i].config()),
    ensures
        spec_first_xhci(m, s) == Some(s[i]),
    decreases i,
{
    if i > 0 {
        lemma_first_xhci_at(m, s.drop_first(), i - 1);
    }
}

proof fn lemma_first_xhci_none(m: Map<(int, int, int), Seq<u32>>, s: Seq<Device>)
    requires
        forall|j: int| 0 <= j < s.len() ==> !spec_is_xhci(m, (#[trigger] s[j]).config()),
    ensures
        spec_first_xhci(m, s) is None,
    decreases s.len(),
{
    if s.len() > 0 {
        lemma_first_xhci_none(m, s.drop_first());
    }
}

proof fn lemma_first_intel_xhci_at(m: Map<(int, int, int), Seq<u32>>, s: Seq<Device>, i: int)
    requires
        0 <= i < s.len(),
        forall|j: int|
            0 <= j < i ==> !(spec_is_xhci(m, (#[trigger] s[j]).config()) && spec_is_intel(
                m,
                s[j].config(),
            )),
        spec_is_xhci(m, s[i].config()),
        spec_is_intel(m, s[i].config()),
    ensures
        spec_first_intel_xhci(m, s) == Some(s[i]),
    decreases i,
{
    if i > 0 {
        lemma_first_intel_xhci_at(m, s.drop_first(), i - 1);
    }
}

proof fn lemma_first_intel_xhci_none(m: Map<(int, int, int), Seq<u32>>, s: Seq<Device>)
    requires
        forall|j: int|
            0 <= j < s.len() ==> !(spec_is_xhci(m, (#[trigger] s[j]).config()) && spec_is_intel(
                m,
                s[j].config(),
            )),
    ensures
        spec_first_intel_xhci(m, s) is None,
    decreases s.len(),
{
    if s.len() > 0 {
        lemma_first_intel_xhci_none(m, s.drop_first());
    }
}

/// Picks the xHCI controller bring-up will use: the first registry entry
/// with the xHCI class code, preferring the first Intel part when one is
/// present; `None` when the registry holds no xHCI function.
pub fn find_xhc_device(m: &mut PciConfigSpace, devices: &FixedVec<Device, MAX_DEVICES_NUM>) -> (r:
    Option<Device>)
    requires
        old(m).wf(),
        forall|i: int| 0 <= i < devices@.len() ==> (#[trigger] devices@[i]).wf(),
    ensures
        final(m).wf(),
        final(m)@ == old(m)@,
        r == spec_find_xhc(old(m)@, devices@),
        r is Some <==> exists|i: int|
            0 <= i < devices@.len() && spec_is_xhci(old(m)@, (#[trigger] devices@[i]).config()),
        r matches Some(d) ==> spec_is_xhci(old(m)@, d.config()) && exists|i: int|
            0 <= i < devices@.len() && #[trigger] devices@[i] == d,
        (exists|i: int|
            0 <= i < devices@.len() && spec_is_xhci(old(m)@, (#[trigger] devices@[i]).config())
                && spec_is_intel(old(m)@, devices@[i].config())) ==> (r matches Some(d)
            && spec_is_intel(old(m)@, d.config())),
{
    let mut xhc_dev: Option<Device> = None;
    let ghost mut first_idx: int = 0;
    let n = devices.len();
    let mut i: usize = 0;
    while i < n
        invariant
            i <= n,
            n == devices@.len(),
            m.wf(),
            m@ == old(m)@,
            forall|j: int| 0 <= j < devices@.len() ==> (#[trigger] devices@[j]).wf(),
            xhc_dev is Some <==> exists|j: int|
                0 <= j < i && spec_is_xhci(m@, (#[trigger] devices@[j]).config()),
            xhc_dev matches Some(d) ==> 0 <= first_idx < i && devices@[first_idx] == d
                && spec_is_xhci(m@, d.config()) && (forall|j: int|
                0 <= j < first_idx ==> !spec_is_xhci(m@, (#[trigger] devices@[j]).config())),
            forall|j: int|
                0 <= j < i ==> !(spec_is_xhci(m@, (#[trigger] devices@[j]).config())
                    && spec_is_intel(m@, devices@[j].config())),
        decreases n - i,
    {
        let device = *devices.get(i);
        let config = device.as_config();
        let class_code = config.read_class_code(m);
        if class_code.0 == 0x0c && class_code.1 == 0x03 && class_code.2 == 0x30 {
            proof {
                assert(devices@[i as int] == device);
            }
            if xhc_dev.is_none() {
                xhc_dev = Some(device);
                proof {
                    first_idx = i as int;
                }
            }
            if config.read_vendor_id(m) == 0x8086 {
                proof {
                    lemma_first_intel_xhci_at(m@, devices@, i as int);
                }
                return Some(device);
            }
        }
        i = i + 1;
    }
    proof {
        lemma_first_intel_xhci_none(m@, devices@);
        match xhc_dev {
            Some(d) => {
                lemma_first_xhci_at(m@, devices@, first_idx);
            },
            None => {
                lemma_first_xhci_none(m@, devices@);
            },
        }
    }
    xhc_dev
}

/// When an Intel EHCI controller shares the machine with the chosen Intel
/// xHCI controller, routes the shared ports over to xHCI: copy the
/// SuperSpeed-capable port register (0xdc) into the SuperSpeed routing
/// register (0xf8), then the EHCI-routed port register (0xd4) into the
/// xHCI routing register (0xd0). Without an Intel EHCI part nothing is
/// written.
pub fn switch_echi_to_xhci(
    m: &mut PciConfigSpace,
    devices: &FixedVec<Device, MAX_DEVICES_NUM>,
    xhc_dev: &Device,
)
    requires
        old(m).wf(),
        xhc_dev.wf(),
        forall|i: int| 0 <= i < devices@.len() ==> (#[trigger] devices@[i]).wf(),
    ensures
        final(m).wf(),
        spec_has_intel_ehci(old(m)@, devices@) ==> final(m)@ == spec_ehci_handoff(
            old(m)@,
            *xhc_dev,
        ),
        !spec_has_intel_ehci(old(m)@, devices@) ==> final(m)@ == old(m)@,
{
    let mut has_intel_ehc = false;
    let n = devices.len();
    let mut i: usize = 0;
    while i < n
        invariant
            i <= n,
            n == devices@.len(),
            m.wf(),
            m@ == old(m)@,
            forall|j: int| 0 <= j < devices@.len() ==> (#[trigger] devices@[j]).wf(),
            has_intel_ehc <==> exists|j: int|
                0 <= j < i && spec_is_intel_ehci(m@, (#[trigger] devices@[j]).config()),
        decreases n - i,
    {
        if !has_intel_ehc {
            let conf = devices.get(i).as_config();
            let code = conf.read_class_code(m);
            if code.0 == 0x0c && code.1 == 0x03 && code.2 == 0x20 && conf.read_vendor_id(m)
                == 0x8086 {
                has_intel_ehc = true;
                proof {
                    assert(spec_is_intel_ehci(m@, devices@[i as int].config()));
                }
            }
        }
        i = i + 1;
    }
    if !has_intel_ehc {
        return ;
    }
    let superspeed_ports = xhc_dev.read_register(m, 0xdc);
    xhc_dev.write_register(m, 0xf8, superspeed_ports);
    let ehci2xhci_ports = xhc_dev.read_register(m, 0xd4);
    xhc_dev.write_register(m, 0xd0, ehci2xhci_ports);
}

/// The MMIO base the driver is constructed over: BAR 0 of the chosen
/// controller with its low four flag bits masked off.
pub fn xhc_mmio_base(m: &mut PciConfigSpace, dev: &Device) -> (r: u64)
    requires
        old(m).wf(),
        dev.wf(),
    ensures
        final(m).wf(),
        final(m)@ == old(m)@,
        ({
            let bar = spec_read_bar(old(m)@, dev.bus, dev.device, dev.function, 0);
            bar matches Some(b) && r == b & !0x0fu64
        }),
{
    let xhc_bar = match dev.read_bar(m, 0) {
        Some(bar) => bar,
        // BAR 0 is always readable: only an out-of-range index or a 64-bit
        // BAR in the last slot has no value
        None => unreached(),
    };
    xhc_bar & !0x0f
}

/// Locates the xHCI controller, performs the Intel EHCI hand-off when it
/// applies, takes the driver through construction over `xhc_mmio_base`,
/// `init` and `run`, registers the mouse-delta observer, asks the driver
/// to configure connected ports, and publishes the finished controller in
/// the shared handle. Without a qualifying device the whole bring-up is a
/// no-op: the handle stays as it was and nothing is written to any device.
/// A driver failure leaves the handle unchanged; the hand-off writes, made
/// before the driver runs, stand either way.
pub fn init_xhc<C: HostController, F: Fn(i8, i8)>(
    m: &mut PciConfigSpace,
    devices: &FixedVec<Device, MAX_DEVICES_NUM>,
    xhc: &mut SpinMutex<Option<C>>,
    mouse_observer: F,
) -> (r: Result<(), XhcError>)
    requires
        old(m).wf(),
        old(xhc).wf(),
        !old(xhc).is_locked(),
        forall|i: int| 0 <= i < devices@.len() ==> (#[trigger] devices@[i]).wf(),
    ensures
        final(m).wf(),
        final(xhc).wf(),
        !final(xhc).is_locked(),
        ({
            match spec_find_xhc(old(m)@, devices@) {
                None => final(m)@ == old(m)@ && final(xhc).value() == old(xhc).value() && r
                    == Ok::<(), XhcError>(()),
                Some(dev) => {
                    &&& (if spec_is_intel(old(m)@, dev.config()) && spec_has_intel_ehci(
                        old(m)@,
                        devices@,
                    ) {
                        final(m)@ == spec_ehci_handoff(old(m)@, dev)
                    } else {
                        final(m)@ == old(m)@
                    })
                    &&& (r is Ok ==> final(xhc).value() is Some)
                    &&& (r is Err ==> final(xhc).value() == old(xhc).value())
                },
            }
        }),
{
    let xhc_dev = find_xhc_device(m, devices);
    match xhc_dev {
        None => Ok(()),
        Some(device) => {
            proof {
                assert(device.wf());
            }
            let mmio_base = xhc_mmio_base(m, &device);
            let mut controller = C::new(mmio_base);
            if device.as_config().read_vendor_id(m) == 0x8086 {
                switch_echi_to_xhci(m, devices, &device);
            }
            controller.init();
            match controller.run() {
                Ok(_) => {},
                Err(_) => {
                    return Err(XhcError::DriverFailed);
                },
            }
            controller.set_default_mouse_observer(mouse_observer);
            controller.configure_connected_ports();
            let mut guard = xhc.lock();
            guard.data = Some(controller);
            guard.unlock(xhc);
            Ok(())
        },
    }
}

/// The device vector's steady-state work: drain the controller's pending
/// events, at most `max_events` of them so that a driver that never runs
/// dry cannot wedge the interrupt path. An event the driver fails to
/// process is skipped, as the interrupt handler has nobody to report to.
/// Returns whether the queue was drained. With no controller published the
/// interrupt is spurious and nothing happens. The caller signals end of
/// interrupt to the local APIC afterwards.
pub fn drain_xhc_events<C: HostController>(xhc: &mut SpinMutex<Option<C>>, max_events: usize) -> (r:
    bool)
    requires
        old(xhc).wf(),
        !old(xhc).is_locked(),
    ensures
        final(xhc).wf(),
        !final(xhc).is_locked(),
        final(xhc).value() is Some <==> old(xhc).value() is Some,
        old(xhc).value() is None ==> final(xhc).value() == old(xhc).value() && r == true,
{
    let mut guard = xhc.lock();
    let mut drained = true;
    let data = guard.data.take();
    match data {
        None => {},
        Some(mut controller) => {
            let mut budget = max_events;
            while budget > 0
                decreases budget,
            {
                if !controller.has_event() {
                    break ;
                }
                let _ = controller.process_event();
                budget = budget - 1;
            }
            drained = !controller.has_event();
            guard.data = Some(controller);
        },
    }
    guard.unlock(xhc);
    drained
}

} // verus!
