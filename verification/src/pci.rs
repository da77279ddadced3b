//! PCI configuration-space access, device registry, bus enumeration and MSI
//! capability configuration.
//!
//! Hardware exposes configuration space through the standard two-cycle
//! address/data port mechanism: software writes a (bus, device, function,
//! register) address to one port, then reads or writes the data port. The
//! ports and the register files behind them are modelled here by
//! [`PciConfigSpace`], an explicit value threaded through every accessor, so
//! that each read and write is checked against the documented bit layout.
//! A read of a function that does not exist returns all ones, which is why
//! vendor id `0xffff` is the existence probe throughout enumeration.

use vstd::prelude::*;

use crate::bit_field::{BitField, BitRange, mask_u32};
use crate::fixed_vec::FixedVec;

verus! {

/// The address port of the two-cycle configuration mechanism.
pub const CONFIG_ADDRESS: u16 = 0x0cf8;

/// The data port of the two-cycle configuration mechanism.
pub const CONFIG_DATA: u16 = 0x0cfc;

/// Errors surfaced by enumeration and MSI configuration. Absence of hardware
/// at a probed coordinate is not an error: the probe simply reads all ones.
#[derive(Clone, Copy, PartialEq, Eq, Structural, Debug)]
pub enum PciError {
    /// Enumeration discovered more functions than the registry can hold.
    RegistryFull,
    /// The target device's capability list has no MSI entry.
    CapabilityNotFound,
}

/// A (bus, device, function) coordinate in configuration space. A pure value:
/// it never owns hardware state, it only computes addresses and probes.
#[derive(Clone, Copy, PartialEq, Eq, Structural, Debug)]
pub struct Config {
    pub bus: u8,
    pub device: u8,
    pub function: u8,
}

/// The documented layout of a configuration-space address: bit 31 enable,
/// bits 16..24 bus, 11..16 device, 8..11 function, 0..8 register offset with
/// the low two bits forced to zero.
pub open spec fn spec_make_address(bus: u8, device: u8, function: u8, reg_addr: u8) -> u32 {
    0x8000_0000u32 | ((bus as u32) << 16u32) | ((device as u32) << 11u32) | (
    (function as u32) << 8u32) | ((reg_addr as u32) & 0xfcu32)
}

/// The enable bit of a configuration-space address.
pub open spec fn address_enabled(addr: u32) -> bool {
    addr.spec_get_bit(31)
}

/// The bus number encoded in a configuration-space address.
pub open spec fn address_bus(addr: u32) -> u32 {
    addr.spec_get_bits(16, 24)
}

/// The device number encoded in a configuration-space address.
pub open spec fn address_device(addr: u32) -> u32 {
    addr.spec_get_bits(11, 16)
}

/// The function number encoded in a configuration-space address.
pub open spec fn address_function(addr: u32) -> u32 {
    addr.spec_get_bits(8, 11)
}

/// The register byte offset encoded in a configuration-space address.
pub open spec fn address_register(addr: u32) -> u32 {
    addr.spec_get_bits(0, 8)
}

/// Law: the address encoding is lossless. Decoding the fields of
/// `spec_make_address` recovers the coordinate and the register offset with
/// its low two bits cleared, and the enable bit is set.
pub proof fn lemma_make_address_roundtrip(bus: u8, device: u8, function: u8, reg_addr: u8)
    by (bit_vector)
    requires
        device < 32,
        function < 8,
    ensures
        address_enabled(spec_make_address(bus, device, function, reg_addr)),
        address_bus(spec_make_address(bus, device, function, reg_addr)) == bus as u32,
        address_device(spec_make_address(bus, device, function, reg_addr)) == device as u32,
        address_function(spec_make_address(bus, device, function, reg_addr)) == function as u32,
        address_register(spec_make_address(bus, device, function, reg_addr)) == (reg_addr as u32)
            & 0xfc,
{
}

/// The decoded fields of any address are bounded by their field widths.
pub proof fn lemma_address_field_bounds(addr: u32)
    by (bit_vector)
    ensures
        address_bus(addr) < 256,
        address_device(addr) < 32,
        address_function(addr) < 8,
        address_register(addr) < 256,
{
}

impl Config {
    /// Coordinates a config-space address can carry: 32 devices per bus,
    /// 8 functions per device.
    pub open spec fn wf(self) -> bool {
        self.device < 32 && self.function < 8
    }

    pub fn new(bus: u8, device: u8, function: u8) -> (r: Config)
        requires
            device < 32,
            function < 8,
        ensures
            r == (Config { bus, device, function }),
    {
        Config { bus, device, function }
    }

    /// Encodes this coordinate and a register offset in the documented
    /// address layout, with only 4-byte-aligned registers addressable.
    pub fn make_address(&self, reg_addr: u8) -> (r: u32)
        requires
            self.wf(),
        ensures
            r == spec_make_address(self.bus, self.device, self.function, reg_addr),
    {
        let mut value: u32 = 0;
        value.set_bit(31, true);
        value.set_bits(BitRange::Span(24, 31), 0);
        value.set_bits(BitRange::Span(16, 24), self.bus as u32);
        value.set_bits(BitRange::Span(11, 16), self.device as u32);
        value.set_bits(BitRange::Span(8, 11), self.function as u32);
        value.set_bits(BitRange::Span(0, 8), (reg_addr & 0xfc) as u32);
        proof {
            let b = self.bus;
            let d = self.device;
            let f = self.function;
            assert(0u32.spec_set_bit(31, true).spec_set_bits(24, 31, 0).spec_set_bits(
                16,
                24,
                b as u32,
            ).spec_set_bits(11, 16, d as u32).spec_set_bits(8, 11, f as u32).spec_set_bits(
                0,
                8,
                (reg_addr & 0xfcu8) as u32,
            ) == spec_make_address(b, d, f, reg_addr)) by (bit_vector)
                requires
                    d < 32,
                    f < 8,
            ;
        }
        value
    }
}

/// The simulated register file of one PCI function: 64 32-bit configuration
/// registers at a fixed coordinate.
pub struct FunctionConfig {
    pub bus: u8,
    pub device: u8,
    pub function: u8,
    pub regs: Vec<u32>,
}

impl FunctionConfig {
    pub open spec fn wf(self) -> bool {
        self.device < 32 && self.function < 8 && self.regs@.len() == 64
    }

    /// The coordinate this register file answers to.
    pub open spec fn key(self) -> (int, int, int) {
        (self.bus as int, self.device as int, self.function as int)
    }
}

/// The hardware state visible through the configuration ports: the address
/// latch written via port 0x0cf8, and the register files of every function
/// present on the machine, read and written via port 0x0cfc.
///
/// Its view is the map from present coordinates to their 64 registers; the
/// latch is exposed separately as `selected`.
pub struct PciConfigSpace {
    /// The value last written to the address port.
    pub address: u32,
    /// The register files of the functions that exist on this machine.
    pub functions: Vec<FunctionConfig>,
}

impl View for PciConfigSpace {
    type V = Map<(int, int, int), Seq<u32>>;

    open spec fn view(&self) -> Map<(int, int, int), Seq<u32>> {
        Map::new(
            |k: (int, int, int)|
                exists|i: int|
                    0 <= i < self.functions@.len() && (#[trigger] self.functions@[i]).key() == k,
            |k: (int, int, int)|
                {
                    let i = choose|i: int|
                        0 <= i < self.functions@.len() && (#[trigger] self.functions@[i]).key()
                            == k;
                    self.functions@[i].regs@
                },
        )
    }
}

impl PciConfigSpace {
    /// Every register file is well formed and no coordinate appears twice.
    pub open spec fn wf(self) -> bool {
        (forall|i: int|
            0 <= i < self.functions@.len() ==> (#[trigger] self.functions@[i]).wf()) && (forall|
            i: int,
            j: int,
        |
            0 <= i < j < self.functions@.len() ==> self.functions@[i].key()
                != self.functions@[j].key())
    }

    /// The value in the address latch.
    pub open spec fn selected(self) -> u32 {
        self.address
    }

    /// A machine with no functions; every probe of it reads all ones.
    pub fn new() -> (r: PciConfigSpace)
        ensures
            r.wf(),
            r@ == Map::<(int, int, int), Seq<u32>>::empty(),
            r.selected() == 0,
    {
        let r = PciConfigSpace { address: 0, functions: Vec::new() };
        proof {
            assert(r@ =~= Map::<(int, int, int), Seq<u32>>::empty());
        }
        r
    }

    /// Entry `i` of the function table is what the view holds at its key.
    proof fn lemma_view_at(self, i: int)
        requires
            self.wf(),
            0 <= i < self.functions@.len(),
        ensures
            self@.contains_key(self.functions@[i].key()),
            self@[self.functions@[i].key()] == self.functions@[i].regs@,
    {
        let k = self.functions@[i].key();
        assert(self@.contains_key(k));
        let j = choose|j: int|
            0 <= j < self.functions@.len() && (#[trigger] self.functions@[j]).key() == k;
        if i != j {
            if i < j {
                assert(self.functions@[i].key() != self.functions@[j].key());
            } else {
                assert(self.functions@[j].key() != self.functions@[i].key());
            }
        }
    }

    /// Installs the register file of one function. The simulated machine is
    /// built with this before bring-up runs against it.
    pub fn add_function(&mut self, bus: u8, device: u8, function: u8, regs: Vec<u32>)
        requires
            old(self).wf(),
            device < 32,
            function < 8,
            regs@.len() == 64,
            !old(self)@.contains_key((bus as int, device as int, function as int)),
        ensures
            final(self).wf(),
            final(self)@ == old(self)@.insert((bus as int, device as int, function as int), regs@),
            final(self).selected() == old(self).selected(),
    {
        let ghost k = (bus as int, device as int, function as int);
        let fc = FunctionConfig { bus, device, function, regs };
        proof {
            // were k already among the entries, the view would contain it
            assert forall|i: int|
                0 <= i < self.functions@.len() implies (#[trigger] self.functions@[i]).key()
                != k by {
                if self.functions@[i].key() == k {
                    self.lemma_view_at(i);
                }
            }
        }
        self.functions.push(fc);
        proof {
            let pre = old(self);
            assert forall|k2: (int, int, int)| #[trigger]
                final(self)@.contains_key(k2) == pre@.insert(k, regs@).contains_key(k2) by {
                if k2 == k {
                    assert(final(self).functions@[final(self).functions@.len() - 1].key() == k);
                } else {
                    if pre@.contains_key(k2) {
                        let i = choose|i: int|
                            0 <= i < pre.functions@.len() && (#[trigger] pre.functions@[i]).key()
                                == k2;
                        assert(final(self).functions@[i].key() == k2);
                    } else {
                        if final(self)@.contains_key(k2) {
                            let i = choose|i: int|
                                0 <= i < final(self).functions@.len() && (#[trigger] final(self).functions@[i]).key() == k2;
                            assert(i < pre.functions@.len());
                            assert(pre.functions@[i].key() == k2);
                        }
                    }
                }
            }
            assert forall|k2: (int, int, int)| #[trigger]
                final(self)@.contains_key(k2) && pre@.insert(k, regs@).contains_key(k2) implies
                final(self)@[k2] == pre@.insert(k, regs@)[k2] by {
                let i = choose|i: int|
                    0 <= i < final(self).functions@.len() && (#[trigger] final(self).functions@[i]).key() == k2;
                final(self).lemma_view_at(i);
                if k2 == k {
                    assert(final(self).functions@[final(self).functions@.len() - 1].key() == k);
                    if i != final(self).functions@.len() - 1 {
                        assert(final(self).functions@[i].key() != final(self).functions@[final(self).functions@.len() - 1].key());
                    }
                } else {
                    assert(i < pre.functions@.len());
                    pre.lemma_view_at(i);
                }
            }
            assert(final(self)@ =~= pre@.insert(k, regs@));
        }
    }

    /// The index of the register file at a coordinate, if one exists.
    fn find_function(&self, bus: u8, device: u8, function: u8) -> (r: Option<usize>)
        requires
            self.wf(),
        ensures
            match r {
                Some(i) => {
                    &&& i < self.functions@.len()
                    &&& self.functions@[i as int].key() == (
                        bus as int,
                        device as int,
                        function as int,
                    )
                    &&& self@.contains_key((bus as int, device as int, function as int))
                    &&& self@[(bus as int, device as int, function as int)]
                        == self.functions@[i as int].regs@
                },
                None => !self@.contains_key((bus as int, device as int, function as int)),
            },
    {
        let ghost k = (bus as int, device as int, function as int);
        let mut i: usize = 0;
        while i < self.functions.len()
            invariant
                self.wf(),
                i <= self.functions@.len(),
                k == (bus as int, device as int, function as int),
                forall|j: int| 0 <= j < i ==> (#[trigger] self.functions@[j]).key() != k,
            decreases self.functions@.len() - i,
        {
            let fc = &self.functions[i];
            if fc.bus == bus && fc.device == device && fc.function == function {
                proof {
                    self.lemma_view_at(i as int);
                }
                return Some(i);
            }
            proof {
                let fk = self.functions@[i as int].key();
                assert(self.functions@[i as int] == *fc);
                assert(fk.0 == fc.bus as int && fk.1 == fc.device as int && fk.2
                    == fc.function as int);
                assert(k.0 == bus as int && k.1 == device as int && k.2 == function as int);
                if fk == k {
                    assert(fk.0 == k.0 && fk.1 == k.1 && fk.2 == k.2);
                    assert(false);
                }
            }
            i = i + 1;
        }
        proof {
            if self@.contains_key(k) {
                let j = choose|j: int|
                    0 <= j < self.functions@.len() && (#[trigger] self.functions@[j]).key() == k;
                assert(self.functions@[j].key() != k);
            }
        }
        None
    }
}

/// What a data-port read returns when the latch holds `addr`: the addressed
/// register of the addressed function, or all ones when the enable bit is
/// clear or no function exists at the coordinate.
pub open spec fn spec_config_read(m: Map<(int, int, int), Seq<u32>>, addr: u32) -> u32 {
    let k = (address_bus(addr) as int, address_device(addr) as int, address_function(addr) as int);
    if address_enabled(addr) && m.contains_key(k) {
        m[k][address_register(addr) as int / 4]
    } else {
        0xffff_ffffu32
    }
}

/// What a data-port write leaves behind when the latch holds `addr`: the
/// addressed register updated, or nothing when the enable bit is clear or no
/// function exists at the coordinate.
pub open spec fn spec_config_write(
    m: Map<(int, int, int), Seq<u32>>,
    addr: u32,
    data: u32,
) -> Map<(int, int, int), Seq<u32>> {
    let k = (address_bus(addr) as int, address_device(addr) as int, address_function(addr) as int);
    if address_enabled(addr) && m.contains_key(k) {
        m.insert(k, m[k].update(address_register(addr) as int / 4, data))
    } else {
        m
    }
}

/// Writes the address port (0x0cf8): latches the given address for the data
/// cycles that follow.
pub fn write_config_addr(m: &mut PciConfigSpace, addr: u32)
    requires
        old(m).wf(),
    ensures
        final(m).wf(),
        final(m)@ == old(m)@,
        final(m).selected() == addr,
{
    let mut port = IOPort::new(CONFIG_ADDRESS);
    port.write32(m, addr);
}

/// Reads the data port (0x0cfc): returns the register selected by the
/// latched address.
pub fn read_config_data(m: &PciConfigSpace) -> (r: u32)
    requires
        m.wf(),
    ensures
        r == spec_config_read(m@, m.selected()),
{
    let mut port = IOPort::new(CONFIG_DATA);
    port.read32(m)
}

/// The data-cycle read: returns the register selected by the latch.
fn config_data_read(m: &PciConfigSpace) -> (r: u32)
    requires
        m.wf(),
    ensures
        r == spec_config_read(m@, m.selected()),
{
    let addr = m.address;
    proof {
        lemma_address_field_bounds(addr);
    }
    if !addr.get_bit(31) {
        return 0xffff_ffff;
    }
    let bus = addr.get_bits(BitRange::Span(16, 24)) as u8;
    let device = addr.get_bits(BitRange::Span(11, 16)) as u8;
    let function = addr.get_bits(BitRange::Span(8, 11)) as u8;
    let reg_byte = addr.get_bits(BitRange::Span(0, 8));
    match m.find_function(bus, device, function) {
        Some(i) => {
            let fc = &m.functions[i];
            fc.regs[(reg_byte / 4) as usize]
        },
        None => 0xffff_ffff,
    }
}

/// Writes the data port (0x0cfc): stores into the register selected by the
/// latched address. A write to an absent coordinate, or with the enable bit
/// clear, changes nothing.
pub fn write_config_data(m: &mut PciConfigSpace, data: u32)
    requires
        old(m).wf(),
    ensures
        final(m).wf(),
        final(m)@ == spec_config_write(old(m)@, old(m).selected(), data),
        final(m).selected() == old(m).selected(),
{
    let mut port = IOPort::new(CONFIG_DATA);
    port.write32(m, data);
}

/// The data-cycle write: stores into the register selected by the latch.
fn config_data_write(m: &mut PciConfigSpace, data: u32)
    requires
        old(m).wf(),
    ensures
        final(m).wf(),
        final(m)@ == spec_config_write(old(m)@, old(m).selected(), data),
        final(m).selected() == old(m).selected(),
{
    let addr = m.address;
    proof {
        lemma_address_field_bounds(addr);
    }
    if !addr.get_bit(31) {
        return ;
    }
    let bus = addr.get_bits(BitRange::Span(16, 24)) as u8;
    let device = addr.get_bits(BitRange::Span(11, 16)) as u8;
    let function = addr.get_bits(BitRange::Span(8, 11)) as u8;
    let reg_byte = addr.get_bits(BitRange::Span(0, 8));
    let found = m.find_function(bus, device, function);
    match found {
        Some(i) => {
            let ghost pre = *m;
            let ghost k = (bus as int, device as int, function as int);
            let entry = &mut m.functions[i];
            entry.regs.set((reg_byte / 4) as usize, data);
            proof {
                assert(final(m).wf()) by {
                    assert(forall|j: int|
                        0 <= j < final(m).functions@.len() && j != i ==> final(m).functions@[j]
                            == pre.functions@[j]);
                    assert(final(m).functions@[i as int].key() == pre.functions@[i as int].key());
                    assert(final(m).functions@[i as int].wf());
                }
                let post_map = spec_config_write(pre@, pre.selected(), data);
                assert forall|k2: (int, int, int)| #[trigger]
                    final(m)@.contains_key(k2) == post_map.contains_key(k2) by {
                    if pre@.contains_key(k2) {
                        let j = choose|j: int|
                            0 <= j < pre.functions@.len() && (#[trigger] pre.functions@[j]).key()
                                == k2;
                        assert(final(m).functions@[j].key() == k2);
                    }
                    if final(m)@.contains_key(k2) {
                        let j = choose|j: int|
                            0 <= j < final(m).functions@.len() && (#[trigger] final(m).functions@[j]).key() == k2;
                        assert(pre.functions@[j].key() == k2);
                        pre.lemma_view_at(j);
                    }
                }
                assert forall|k2: (int, int, int)| #[trigger]
                    final(m)@.contains_key(k2) && post_map.contains_key(k2) implies final(m)@[k2] == post_map[k2] by {
                    let j = choose|j: int|
                        0 <= j < final(m).functions@.len() && (#[trigger] final(m).functions@[j]).key() == k2;
                    final(m).lemma_view_at(j);
                    pre.lemma_view_at(j);
                    if j == i {
                        assert(k2 == k);
                        assert(final(m).functions@[j].regs@ == pre.functions@[j].regs@.update(
                            address_register(pre.selected()) as int / 4,
                            data,
                        ));
                    } else {
                        assert(final(m).functions@[j] == pre.functions@[j]);
                        if k2 == k {
                            assert(pre.functions@[i as int].key() == k);
                            assert(pre.functions@[j].key() != pre.functions@[i as int].key());
                        }
                    }
                }
                assert(final(m)@ =~= post_map);
            }
        },
        None => {
            proof {
                assert(final(m)@ =~= spec_config_write(old(m)@, old(m).selected(), data));
            }
        },
    }
}

/// The register at byte offset `reg_addr` of the function at the coordinate,
/// or all ones when no function exists there. The low two offset bits are
/// ignored: only 4-byte-aligned registers are addressable.
pub open spec fn spec_device_reg(
    m: Map<(int, int, int), Seq<u32>>,
    bus: u8,
    device: u8,
    function: u8,
    reg_addr: u8,
) -> u32 {
    let k = (bus as int, device as int, function as int);
    if m.contains_key(k) {
        m[k][reg_addr as int / 4]
    } else {
        0xffff_ffffu32
    }
}

/// The machine after writing `data` to that register; a write to an absent
/// coordinate changes nothing.
pub open spec fn spec_device_write(
    m: Map<(int, int, int), Seq<u32>>,
    bus: u8,
    device: u8,
    function: u8,
    reg_addr: u8,
    data: u32,
) -> Map<(int, int, int), Seq<u32>> {
    let k = (bus as int, device as int, function as int);
    if m.contains_key(k) {
        m.insert(k, m[k].update(reg_addr as int / 4, data))
    } else {
        m
    }
}

/// An address/data cycle through the ports reaches exactly the register that
/// `spec_device_reg`/`spec_device_write` describe.
proof fn lemma_config_cycle(
    m: Map<(int, int, int), Seq<u32>>,
    bus: u8,
    device: u8,
    function: u8,
    reg_addr: u8,
    data: u32,
)
    requires
        device < 32,
        function < 8,
    ensures
        spec_config_read(m, spec_make_address(bus, device, function, reg_addr)) == spec_device_reg(
            m,
            bus,
            device,
            function,
            reg_addr,
        ),
        spec_config_write(m, spec_make_address(bus, device, function, reg_addr), data)
            == spec_device_write(m, bus, device, function, reg_addr, data),
{
    let addr = spec_make_address(bus, device, function, reg_addr);
    lemma_make_address_roundtrip(bus, device, function, reg_addr);
    assert(((reg_addr as u32) & 0xfc) / 4 == (reg_addr as u32) / 4) by (bit_vector);
    assert((address_bus(addr) as int, address_device(addr) as int, address_function(
        addr,
    ) as int) == (bus as int, device as int, function as int));
    assert(address_register(addr) as int / 4 == reg_addr as int / 4);
}

impl Config {
    /// One full two-cycle register read: latch the address, read the data
    /// port. Leaves the register files untouched.
    fn read_config(&self, m: &mut PciConfigSpace, reg_addr: u8) -> (r: u32)
        requires
            self.wf(),
            old(m).wf(),
        ensures
            final(m).wf(),
            final(m)@ == old(m)@,
            r == spec_device_reg(old(m)@, self.bus, self.device, self.function, reg_addr),
    {
        let addr = self.make_address(reg_addr);
        write_config_addr(m, addr);
        let r = read_config_data(m);
        proof {
            lemma_config_cycle(old(m)@, self.bus, self.device, self.function, reg_addr, 0);
        }
        r
    }

    /// The function's vendor id: low 16 bits of register 0. Reads `0xffff`
    /// exactly when no function answers at this coordinate.
    pub fn read_vendor_id(&self, m: &mut PciConfigSpace) -> (r: u16)
        requires
            self.wf(),
            old(m).wf(),
        ensures
            final(m).wf(),
            final(m)@ == old(m)@,
            r == spec_vendor_id(old(m)@, *self),
    {
        self.read_config(m, 0x0).get_bits(BitRange::Span(0, 16)) as u16
    }

    /// The function's device id: high 16 bits of register 0.
    pub fn read_device_id(&self, m: &mut PciConfigSpace) -> (r: u16)
        requires
            self.wf(),
            old(m).wf(),
        ensures
            final(m).wf(),
            final(m)@ == old(m)@,
            r == spec_device_reg(old(m)@, self.bus, self.device, self.function, 0x0).spec_get_bits(
                16,
                32,
            ) as u16,
    {
        self.read_config(m, 0x0).get_bits(BitRange::Span(16, 32)) as u16
    }

    /// The class code register, split as (base class, sub class, interface,
    /// revision id).
    pub fn read_class_code(&self, m: &mut PciConfigSpace) -> (r: (u8, u8, u8, u8))
        requires
            self.wf(),
            old(m).wf(),
        ensures
            final(m).wf(),
            final(m)@ == old(m)@,
            r == spec_class_code(old(m)@, *self),
    {
        let class_code = self.read_config(m, 0x08);
        (
            class_code.get_bits(BitRange::Span(24, 32)) as u8,
            class_code.get_bits(BitRange::Span(16, 24)) as u8,
            class_code.get_bits(BitRange::Span(8, 16)) as u8,
            class_code.get_bits(BitRange::Span(0, 8)) as u8,
        )
    }

    /// The function's header type: bits 16..24 of register 0x0c. Bit 7 of it
    /// marks a multi-function device.
    pub fn read_header_type(&self, m: &mut PciConfigSpace) -> (r: u8)
        requires
            self.wf(),
            old(m).wf(),
        ensures
            final(m).wf(),
            final(m)@ == old(m)@,
            r == spec_header_type(old(m)@, *self),
    {
        self.read_config(m, 0x0c).get_bits(BitRange::Span(16, 24)) as u8
    }

    /// The bus-number register (0x18) of a bridge; bits 8..16 hold the
    /// secondary bus.
    pub fn read_bus_number(&self, m: &mut PciConfigSpace) -> (r: u32)
        requires
            self.wf(),
            old(m).wf(),
        ensures
            final(m).wf(),
            final(m)@ == old(m)@,
            r == spec_device_reg(old(m)@, self.bus, self.device, self.function, 0x18),
    {
        self.read_config(m, 0x18)
    }
}

/// The vendor id the probe at `c` reads: low 16 bits of register 0, `0xffff`
/// when nothing answers.
pub open spec fn spec_vendor_id(m: Map<(int, int, int), Seq<u32>>, c: Config) -> u16 {
    spec_device_reg(m, c.bus, c.device, c.function, 0).spec_get_bits(0, 16) as u16
}

/// The existence probe: a function answers at `c` exactly when its vendor id
/// is not `0xffff`.
pub open spec fn probe_present(m: Map<(int, int, int), Seq<u32>>, c: Config) -> bool {
    spec_vendor_id(m, c) != 0xffff
}

/// The class code of the function at `c`, split as (base, sub, interface,
/// revision).
pub open spec fn spec_class_code(m: Map<(int, int, int), Seq<u32>>, c: Config) -> (u8, u8, u8, u8) {
    let reg = spec_device_reg(m, c.bus, c.device, c.function, 0x08);
    (
        reg.spec_get_bits(24, 32) as u8,
        reg.spec_get_bits(16, 24) as u8,
        reg.spec_get_bits(8, 16) as u8,
        reg.spec_get_bits(0, 8) as u8,
    )
}

/// The header type of the function at `c`.
pub open spec fn spec_header_type(m: Map<(int, int, int), Seq<u32>>, c: Config) -> u8 {
    spec_device_reg(m, c.bus, c.device, c.function, 0x0c).spec_get_bits(16, 24) as u8
}

/// A discovered PCI function: its coordinate and the header type its probe
/// reported. Immutable once registered.
#[derive(Clone, Copy, PartialEq, Eq, Structural, Debug)]
pub struct Device {
    pub bus: u8,
    pub device: u8,
    pub function: u8,
    pub header_type: u8,
}

impl Device {
    pub open spec fn wf(self) -> bool {
        self.device < 32 && self.function < 8
    }

    /// The coordinate this device was found at.
    pub open spec fn config(self) -> Config {
        Config { bus: self.bus, device: self.device, function: self.function }
    }

    pub fn as_config(&self) -> (r: Config)
        ensures
            r == self.config(),
    {
        Config { bus: self.bus, device: self.device, function: self.function }
    }

    /// Reads one 32-bit configuration register of this device.
    pub fn read_register(&self, m: &mut PciConfigSpace, reg_idx: u8) -> (r: u32)
        requires
            self.wf(),
            old(m).wf(),
        ensures
            final(m).wf(),
            final(m)@ == old(m)@,
            r == spec_device_reg(old(m)@, self.bus, self.device, self.function, reg_idx),
    {
        let addr = self.as_config().make_address(reg_idx);
        write_config_addr(m, addr);
        let r = read_config_data(m);
        proof {
            lemma_config_cycle(old(m)@, self.bus, self.device, self.function, reg_idx, 0);
        }
        r
    }

    /// Writes one 32-bit configuration register of this device.
    pub fn write_register(&self, m: &mut PciConfigSpace, reg_idx: u8, val: u32)
        requires
            self.wf(),
            old(m).wf(),
        ensures
            final(m).wf(),
            final(m)@ == spec_device_write(old(m)@, self.bus, self.device, self.function, reg_idx, val),
    {
        let addr = self.as_config().make_address(reg_idx);
        write_config_addr(m, addr);
        write_config_data(m, val);
        proof {
            lemma_config_cycle(old(m)@, self.bus, self.device, self.function, reg_idx, val);
        }
    }
}

/// The registry's capacity: enumeration reports `RegistryFull` past this.
pub const MAX_DEVICES_NUM: usize = 32;

/// Bit 7 of the header type marks a multi-function device; clear means the
/// device has function 0 only.
pub fn is_single_function_device(header_type: u8) -> (r: bool)
    ensures
        r == !header_type.spec_get_bit(7),
{
    !header_type.get_bit(7)
}

/// Whether the function at `c` is a PCI-to-PCI bridge: class 0x06,
/// subclass 0x04.
pub open spec fn spec_is_bridge(m: Map<(int, int, int), Seq<u32>>, c: Config) -> bool {
    let cc = spec_class_code(m, c);
    cc.0 == 0x06 && cc.1 == 0x04
}

/// The secondary bus a bridge serves: bits 8..16 of its bus-number
/// register (0x18).
pub open spec fn spec_secondary_bus(m: Map<(int, int, int), Seq<u32>>, c: Config) -> u8 {
    spec_device_reg(m, c.bus, c.device, c.function, 0x18).spec_get_bits(8, 16) as u8
}

/// The registry entry enumeration records for the function at `c`.
pub open spec fn spec_registry_entry(m: Map<(int, int, int), Seq<u32>>, c: Config) -> Device {
    Device {
        bus: c.bus,
        device: c.device,
        function: c.function,
        header_type: spec_header_type(m, c),
    }
}

/// A device slot and function number as one ordinal: enumeration without
/// bridge descent registers coordinates of one bus in strictly increasing
/// key order, so no coordinate registers twice.
pub open spec fn coordinate_key(d: Device) -> int {
    d.device * 8 + d.function
}

/// The entries appended between `pre` and `post` all sit on `bus`, with
/// keys in `[lo, hi)` and strictly increasing.
pub open spec fn appended_in_key_order(
    pre: Seq<Device>,
    post: Seq<Device>,
    bus: u8,
    lo: int,
    hi: int,
) -> bool {
    &&& forall|i: int|
        pre.len() <= i < post.len() ==> (#[trigger] post[i]).bus == bus && lo <= coordinate_key(
            post[i],
        ) < hi
    &&& forall|i: int, j: int|
        pre.len() <= i < j < post.len() ==> coordinate_key(#[trigger] post[i]) < coordinate_key(
            #[trigger] post[j],
        )
}

/// Whether enumeration of one bus reaches the function at (bus, d, f):
/// function 0 of a device answers the probe directly; a higher function is
/// reached only when function 0 answers, reports a multi-function header,
/// and the function itself answers.
pub open spec fn spec_scannable(m: Map<(int, int, int), Seq<u32>>, bus: u8, d: u8, f: u8) -> bool {
    if f == 0 {
        probe_present(m, Config { bus, device: d, function: 0 })
    } else {
        &&& probe_present(m, Config { bus, device: d, function: 0 })
        &&& spec_header_type(m, Config { bus, device: d, function: 0 }).spec_get_bit(7)
        &&& probe_present(m, Config { bus, device: d, function: f })
    }
}

/// Whether the registry holds an entry for coordinate `c`.
pub open spec fn spec_registered(post: Seq<Device>, c: Config) -> bool {
    exists|i: int| 0 <= i < post.len() && (#[trigger] post[i]).config() == c
}

/// How enumeration may change the registry: entries are only appended, and
/// every appended entry is a present function of machine `m`, recorded with
/// the header type its probe reported.
pub open spec fn registry_extended(
    m: Map<(int, int, int), Seq<u32>>,
    pre: Seq<Device>,
    post: Seq<Device>,
) -> bool {
    &&& post.len() >= pre.len()
    &&& post.subrange(0, pre.len() as int) == pre
    &&& forall|i: int|
        pre.len() <= i < post.len() ==> {
            let d = #[trigger] post[i];
            &&& d.wf()
            &&& probe_present(m, d.config())
            &&& d.header_type == spec_header_type(m, d.config())
        }
}

/// Law: the registry discipline composes across successive scan steps.
pub proof fn lemma_registry_extended_trans(
    m: Map<(int, int, int), Seq<u32>>,
    a: Seq<Device>,
    b: Seq<Device>,
    c: Seq<Device>,
)
    requires
        registry_extended(m, a, b),
        registry_extended(m, b, c),
    ensures
        registry_extended(m, a, c),
{
    assert forall|i: int| 0 <= i < a.len() implies c.subrange(0, a.len() as int)[i] == a[i] by {
        assert(c.subrange(0, b.len() as int)[i] == c[i]);
        assert(b.subrange(0, a.len() as int)[i] == b[i]);
    }
    assert(c.subrange(0, a.len() as int) =~= a);
    assert forall|i: int| a.len() <= i < c.len() implies {
        let d = #[trigger] c[i];
        d.wf() && probe_present(m, d.config()) && d.header_type == spec_header_type(m, d.config())
    } by {
        if i < b.len() {
            assert(c.subrange(0, b.len() as int)[i] == c[i]);
            assert(b[i] == c[i]);
        }
    }
}

/// Appending entries never unregisters a coordinate.
proof fn lemma_registered_preserved(
    m: Map<(int, int, int), Seq<u32>>,
    pre: Seq<Device>,
    post: Seq<Device>,
    c: Config,
)
    requires
        registry_extended(m, pre, post),
        spec_registered(pre, c),
    ensures
        spec_registered(post, c),
{
    let i = choose|i: int| 0 <= i < pre.len() && (#[trigger] pre[i]).config() == c;
    assert(post.subrange(0, pre.len() as int)[i] == post[i]);
}

/// Every function that a scan of the bridge's secondary bus reaches is
/// registered in `s`.
pub open spec fn spec_subtree_registered(
    m: Map<(int, int, int), Seq<u32>>,
    c: Config,
    s: Seq<Device>,
) -> bool {
    forall|d: u8, f: u8|
        d < 32 && f < 8 && spec_scannable(m, spec_secondary_bus(m, c), d, f)
            ==> spec_registered(
            s,
            Config { bus: spec_secondary_bus(m, c), device: d, function: f },
        )
}

/// Appending entries never unregisters a bridge's subtree.
proof fn lemma_subtree_registered_preserved(
    m: Map<(int, int, int), Seq<u32>>,
    c: Config,
    pre: Seq<Device>,
    post: Seq<Device>,
)
    requires
        registry_extended(m, pre, post),
        spec_subtree_registered(m, c, pre),
    ensures
        spec_subtree_registered(m, c, post),
{
    assert forall|d: u8, f: u8|
        d < 32 && f < 8 && spec_scannable(m, spec_secondary_bus(m, c), d, f) implies
        spec_registered(
        post,
        Config { bus: spec_secondary_bus(m, c), device: d, function: f },
    ) by {
        lemma_registered_preserved(
            m,
            pre,
            post,
            Config { bus: spec_secondary_bus(m, c), device: d, function: f },
        );
    }
}

/// A scan step that changes nothing respects the registry discipline.
pub proof fn lemma_registry_extended_refl(m: Map<(int, int, int), Seq<u32>>, a: Seq<Device>)
    ensures
        registry_extended(m, a, a),
{
    assert(a.subrange(0, a.len() as int) =~= a);
}

/// Two ordered append phases compose: a phase with keys below `cut`
/// followed by one with keys at or above it.
proof fn lemma_appended_in_key_order_concat(
    pre: Seq<Device>,
    mid: Seq<Device>,
    post: Seq<Device>,
    bus: u8,
    lo: int,
    cut: int,
    hi: int,
)
    requires
        lo <= cut <= hi,
        pre.len() <= mid.len() <= post.len(),
        appended_in_key_order(pre, mid, bus, lo, cut),
        appended_in_key_order(mid, post, bus, cut, hi),
        post.subrange(0, mid.len() as int) == mid,
    ensures
        appended_in_key_order(pre, post, bus, lo, hi),
{
    assert forall|i: int|
        pre.len() <= i < post.len() implies (#[trigger] post[i]).bus == bus && lo
        <= coordinate_key(post[i]) < hi by {
        if i < mid.len() {
            assert(post.subrange(0, mid.len() as int)[i] == post[i]);
            assert(mid[i].bus == bus && lo <= coordinate_key(mid[i]) < cut);
        }
    }
    assert forall|i: int, j: int|
        pre.len() <= i < j < post.len() implies coordinate_key(#[trigger] post[i])
        < coordinate_key(#[trigger] post[j]) by {
        if j < mid.len() {
            assert(post.subrange(0, mid.len() as int)[i] == post[i]);
            assert(post.subrange(0, mid.len() as int)[j] == post[j]);
        } else if i < mid.len() {
            assert(post.subrange(0, mid.len() as int)[i] == post[i]);
            assert(coordinate_key(mid[i]) < cut);
            assert(coordinate_key(post[j]) >= cut);
        }
    }
}

/// Registers the function at `config`: probes its header type and appends it.
/// A full registry is a reported failure; the probe still happened but the
/// registry is unchanged.
pub fn add_device(
    m: &mut PciConfigSpace,
    devices: &mut FixedVec<Device, MAX_DEVICES_NUM>,
    config: Config,
) -> (r: Result<(), PciError>)
    requires
        config.wf(),
        old(m).wf(),
        probe_present(old(m)@, config),
    ensures
        final(m).wf(),
        final(m)@ == old(m)@,
        registry_extended(old(m)@, old(devices)@, final(devices)@),
        old(devices)@.len() < MAX_DEVICES_NUM ==> r == Ok::<(), PciError>(()) && final(devices)@
            == old(devices)@.push(
            Device {
                bus: config.bus,
                device: config.device,
                function: config.function,
                header_type: spec_header_type(old(m)@, config),
            },
        ),
        old(devices)@.len() >= MAX_DEVICES_NUM ==> r == Err::<(), PciError>(PciError::RegistryFull)
            && final(devices)@ == old(devices)@,
{
    let header_type = config.read_header_type(m);
    let device = Device {
        bus: config.bus,
        device: config.device,
        function: config.function,
        header_type,
    };
    let r = match devices.try_push(device) {
        Ok(_) => Ok(()),
        Err(_) => Err(PciError::RegistryFull),
    };
    proof {
        if old(devices)@.len() < MAX_DEVICES_NUM {
            assert(final(devices)@.subrange(0, old(devices)@.len() as int) =~= old(devices)@);
            assert(final(devices)@[old(devices)@.len() as int].config() == config);
        } else {
            assert(final(devices)@.subrange(0, old(devices)@.len() as int) =~= old(devices)@);
        }
    }
    r
}

/// Scans one function: registers it, and when it is a PCI-to-PCI bridge
/// (class 0x06, subclass 0x04) descends into the bus behind it. `fuel`
/// bounds how many more bridge levels may be descended.
pub fn scan_function(
    m: &mut PciConfigSpace,
    devices: &mut FixedVec<Device, MAX_DEVICES_NUM>,
    config: Config,
    fuel: usize,
) -> (r: Result<(), PciError>)
    requires
        config.wf(),
        old(m).wf(),
        old(devices)@.len() <= MAX_DEVICES_NUM,
        probe_present(old(m)@, config),
    ensures
        final(m).wf(),
        final(m)@ == old(m)@,
        final(devices)@.len() <= MAX_DEVICES_NUM,
        registry_extended(old(m)@, old(devices)@, final(devices)@),
        r is Ok ==> spec_registered(final(devices)@, config),
        r is Ok ==> old(devices)@.len() < final(devices)@.len()
            && final(devices)@[old(devices)@.len() as int] == spec_registry_entry(
            old(m)@,
            config,
        ),
        r is Ok && !spec_is_bridge(old(m)@, config) ==> final(devices)@ == old(devices)@.push(
            spec_registry_entry(old(m)@, config),
        ),
        r is Ok && spec_is_bridge(old(m)@, config) && fuel > 0 ==> spec_subtree_registered(
            old(m)@,
            config,
            final(devices)@,
        ),
        r is Err && !spec_is_bridge(old(m)@, config) ==> final(devices)@ == old(devices)@,
        r is Err ==> r == Err::<(), PciError>(PciError::RegistryFull) && final(devices)@.len()
            == MAX_DEVICES_NUM,
    decreases fuel, 0int,
{
    match add_device(m, devices, config) {
        Ok(_) => {},
        Err(e) => {
            return Err(e);
        },
    }
    let ghost dev_after_add = devices@;
    let ghost entry_idx = old(devices)@.len() as int;
    let class_code = config.read_class_code(m);
    let base = class_code.0;
    let sub = class_code.1;
    if base == 0x06 && sub == 0x04 {
        // a PCI-to-PCI bridge: scan the bus behind it, unless the bus
        // budget is spent (a cyclic topology would otherwise never end)
        if fuel == 0 {
            proof {
                assert(devices@[entry_idx].config() == config);
            }
            return Ok(());
        }
        let bus_number = config.read_bus_number(m);
        let secondary_bus = #[verifier::truncate] (bus_number.get_bits(BitRange::Span(8, 16)) as u8);
        let r = scan_bus(
            m,
            devices,
            Config { bus: secondary_bus, device: 0, function: 0 },
            fuel - 1,
        );
        proof {
            lemma_registry_extended_trans(old(m)@, old(devices)@, dev_after_add, devices@);
            if r is Ok {
                assert(devices@.subrange(0, dev_after_add.len() as int)[entry_idx]
                    == devices@[entry_idx]);
                assert(devices@[entry_idx] == spec_registry_entry(old(m)@, config));
                assert(devices@[entry_idx].config() == config);
                assert(secondary_bus == spec_secondary_bus(old(m)@, config));
            }
        }
        r
    } else {
        proof {
            assert(devices@[entry_idx].config() == config);
        }
        Ok(())
    }
}

/// Scans one device: always its function 0, and when the header type marks
/// it multi-function, every present function 1..8 as well. On success every
/// reachable function of the device is registered, and so is everything a
/// scan of the bus behind any of its bridge functions reaches.
pub fn scan_device(
    m: &mut PciConfigSpace,
    devices: &mut FixedVec<Device, MAX_DEVICES_NUM>,
    config: Config,
    fuel: usize,
) -> (r: Result<(), PciError>)
    requires
        config.wf(),
        old(m).wf(),
        old(devices)@.len() <= MAX_DEVICES_NUM,
        probe_present(
            old(m)@,
            Config { bus: config.bus, device: config.device, function: 0 },
        ),
    ensures
        final(m).wf(),
        final(m)@ == old(m)@,
        final(devices)@.len() <= MAX_DEVICES_NUM,
        registry_extended(old(m)@, old(devices)@, final(devices)@),
        (forall|f: u8|
            f < 8 ==> !spec_is_bridge(
                old(m)@,
                Config { bus: config.bus, device: config.device, function: f },
            )) ==> appended_in_key_order(
            old(devices)@,
            final(devices)@,
            config.bus,
            config.device * 8,
            config.device * 8 + 8,
        ),
        r is Ok ==> forall|f: u8|
            f < 8 && spec_scannable(old(m)@, config.bus, config.device, f) ==> spec_registered(
                final(devices)@,
                Config { bus: config.bus, device: config.device, function: f },
            ),
        r is Ok && fuel > 0 ==> forall|f: u8|
            f < 8 && spec_scannable(old(m)@, config.bus, config.device, f) && spec_is_bridge(
                old(m)@,
                Config { bus: config.bus, device: config.device, function: f },
            ) ==> spec_subtree_registered(
                old(m)@,
                Config { bus: config.bus, device: config.device, function: f },
                final(devices)@,
            ),
        r is Err ==> r == Err::<(), PciError>(PciError::RegistryFull) && final(devices)@.len()
            == MAX_DEVICES_NUM,
    decreases fuel, 1int,
{
    let ghost flat = forall|f: u8|
        f < 8 ==> !spec_is_bridge(
            old(m)@,
            Config { bus: config.bus, device: config.device, function: f },
        );
    let c0 = Config { bus: config.bus, device: config.device, function: 0 };
    match scan_function(m, devices, c0, fuel) {
        Ok(_) => {},
        Err(e) => {
            proof {
                if flat {
                    assert(!spec_is_bridge(old(m)@, c0));
                }
            }
            return Err(e);
        },
    }
    proof {
        if flat {
            assert(!spec_is_bridge(old(m)@, c0));
            assert(coordinate_key(devices@[old(devices)@.len() as int]) == config.device * 8);
        }
    }
    let header_type = c0.read_header_type(m);
    if is_single_function_device(header_type) {
        proof {
            assert forall|f: u8|
                f < 8 && spec_scannable(old(m)@, config.bus, config.device, f) implies
                spec_registered(
                devices@,
                Config { bus: config.bus, device: config.device, function: f },
            ) by {
                // a single-function header rules every function but 0 out
                assert(f == 0);
            }
            if fuel > 0 {
                assert forall|f: u8|
                    f < 8 && spec_scannable(old(m)@, config.bus, config.device, f)
                        && spec_is_bridge(
                        old(m)@,
                        Config { bus: config.bus, device: config.device, function: f },
                    ) implies spec_subtree_registered(
                    old(m)@,
                    Config { bus: config.bus, device: config.device, function: f },
                    devices@,
                ) by {
                    assert(f == 0);
                }
            }
        }
        return Ok(());
    }
    let mut function: u8 = 1;
    while function < 8
        invariant
            1 <= function <= 8,
            m.wf(),
            m@ == old(m)@,
            config.wf(),
            devices@.len() <= MAX_DEVICES_NUM,
            registry_extended(old(m)@, old(devices)@, devices@),
            spec_registered(
                devices@,
                Config { bus: config.bus, device: config.device, function: 0 },
            ),
            fuel > 0 && spec_is_bridge(
                old(m)@,
                Config { bus: config.bus, device: config.device, function: 0 },
            ) ==> spec_subtree_registered(
                old(m)@,
                Config { bus: config.bus, device: config.device, function: 0 },
                devices@,
            ),
            forall|g: u8|
                1 <= g < function && spec_scannable(old(m)@, config.bus, config.device, g)
                    ==> spec_registered(
                    devices@,
                    Config { bus: config.bus, device: config.device, function: g },
                ),
            fuel > 0 ==> forall|g: u8|
                1 <= g < function && spec_scannable(old(m)@, config.bus, config.device, g)
                    && spec_is_bridge(
                    old(m)@,
                    Config { bus: config.bus, device: config.device, function: g },
                ) ==> spec_subtree_registered(
                    old(m)@,
                    Config { bus: config.bus, device: config.device, function: g },
                    devices@,
                ),
            flat == (forall|f: u8|
                f < 8 ==> !spec_is_bridge(
                    old(m)@,
                    Config { bus: config.bus, device: config.device, function: f },
                )),
            flat ==> appended_in_key_order(
                old(devices)@,
                devices@,
                config.bus,
                config.device * 8,
                config.device * 8 + function,
            ),
        decreases 8 - function,
    {
        let cf = Config { bus: config.bus, device: config.device, function };
        let ghost dev_before = devices@;
        if cf.read_vendor_id(m) != 0xffff {
            match scan_function(m, devices, cf, fuel) {
                Ok(_) => {
                    proof {
                        lemma_registry_extended_trans(old(m)@, old(devices)@, dev_before, devices@);
                        lemma_registered_preserved(
                            old(m)@,
                            dev_before,
                            devices@,
                            Config { bus: config.bus, device: config.device, function: 0 },
                        );
                        assert forall|g: u8|
                            1 <= g < function + 1 && spec_scannable(
                                old(m)@,
                                config.bus,
                                config.device,
                                g,
                            ) implies spec_registered(
                            devices@,
                            Config { bus: config.bus, device: config.device, function: g },
                        ) by {
                            if g == function {
                                assert(spec_registered(devices@, cf));
                            } else {
                                lemma_registered_preserved(
                                    old(m)@,
                                    dev_before,
                                    devices@,
                                    Config { bus: config.bus, device: config.device, function: g },
                                );
                            }
                        }
                        if fuel > 0 {
                            if spec_is_bridge(
                                old(m)@,
                                Config { bus: config.bus, device: config.device, function: 0 },
                            ) {
                                lemma_subtree_registered_preserved(
                                    old(m)@,
                                    Config { bus: config.bus, device: config.device, function: 0 },
                                    dev_before,
                                    devices@,
                                );
                            }
                            assert forall|g: u8|
                                1 <= g < function + 1 && spec_scannable(
                                    old(m)@,
                                    config.bus,
                                    config.device,
                                    g,
                                ) && spec_is_bridge(
                                    old(m)@,
                                    Config { bus: config.bus, device: config.device, function: g },
                                ) implies spec_subtree_registered(
                                old(m)@,
                                Config { bus: config.bus, device: config.device, function: g },
                                devices@,
                            ) by {
                                if g == function {
                                    assert(spec_subtree_registered(old(m)@, cf, devices@));
                                } else {
                                    lemma_subtree_registered_preserved(
                                        old(m)@,
                                        Config {
                                            bus: config.bus,
                                            device: config.device,
                                            function: g,
                                        },
                                        dev_before,
                                        devices@,
                                    );
                                }
                            }
                        }
                        if flat {
                            assert(!spec_is_bridge(old(m)@, cf));
                            let last = dev_before.len() as int;
                            assert(coordinate_key(devices@[last]) == config.device * 8 + function);
                            assert(appended_in_key_order(
                                dev_before,
                                devices@,
                                config.bus,
                                config.device * 8 + function,
                                config.device * 8 + function + 1,
                            ));
                            lemma_appended_in_key_order_concat(
                                old(devices)@,
                                dev_before,
                                devices@,
                                config.bus,
                                config.device * 8,
                                config.device * 8 + function,
                                config.device * 8 + function + 1,
                            );
                        }
                    }
                },
                Err(e) => {
                    proof {
                        lemma_registry_extended_trans(old(m)@, old(devices)@, dev_before, devices@);
                        if flat {
                            assert(!spec_is_bridge(old(m)@, cf));
                        }
                    }
                    return Err(e);
                },
            }
        }
        function = function + 1;
    }
    proof {
        assert forall|f: u8|
            f < 8 && spec_scannable(old(m)@, config.bus, config.device, f) implies spec_registered(
            devices@,
            Config { bus: config.bus, device: config.device, function: f },
        ) by {
            if f != 0 {
                assert(1 <= f < 8);
            }
        }
        if fuel > 0 {
            assert forall|f: u8|
                f < 8 && spec_scannable(old(m)@, config.bus, config.device, f) && spec_is_bridge(
                    old(m)@,
                    Config { bus: config.bus, device: config.device, function: f },
                ) implies spec_subtree_registered(
                old(m)@,
                Config { bus: config.bus, device: config.device, function: f },
                devices@,
            ) by {
                if f != 0 {
                    assert(1 <= f < 8);
                }
            }
        }
    }
    Ok(())
}

/// Scans every device slot of one bus: function 0 of devices 0..32, probing
/// each for presence first. On success every reachable function of the bus
/// is registered, along with everything behind the bus's bridges, one
/// bridge level stated here and deeper levels by the same clause on the
/// recursive scans; on a bus without bridges the new entries carry
/// strictly increasing coordinates, so none is registered twice.
pub fn scan_bus(
    m: &mut PciConfigSpace,
    devices: &mut FixedVec<Device, MAX_DEVICES_NUM>,
    config: Config,
    fuel: usize,
) -> (r: Result<(), PciError>)
    requires
        old(m).wf(),
        old(devices)@.len() <= MAX_DEVICES_NUM,
    ensures
        final(m).wf(),
        final(m)@ == old(m)@,
        final(devices)@.len() <= MAX_DEVICES_NUM,
        registry_extended(old(m)@, old(devices)@, final(devices)@),
        (forall|d: u8, f: u8|
            d < 32 && f < 8 ==> !spec_is_bridge(
                old(m)@,
                Config { bus: config.bus, device: d, function: f },
            )) ==> appended_in_key_order(old(devices)@, final(devices)@, config.bus, 0, 256),
        r is Ok ==> forall|d: u8, f: u8|
            d < 32 && f < 8 && spec_scannable(old(m)@, config.bus, d, f) ==> spec_registered(
                final(devices)@,
                Config { bus: config.bus, device: d, function: f },
            ),
        r is Ok && fuel > 0 ==> forall|d: u8, f: u8|
            d < 32 && f < 8 && spec_scannable(old(m)@, config.bus, d, f) && spec_is_bridge(
                old(m)@,
                Config { bus: config.bus, device: d, function: f },
            ) ==> spec_subtree_registered(
                old(m)@,
                Config { bus: config.bus, device: d, function: f },
                final(devices)@,
            ),
        r is Err ==> r == Err::<(), PciError>(PciError::RegistryFull) && final(devices)@.len()
            == MAX_DEVICES_NUM,
    decreases fuel, 2int,
{
    proof {
        lemma_registry_extended_refl(old(m)@, old(devices)@);
    }
    let ghost flat = forall|d: u8, f: u8|
        d < 32 && f < 8 ==> !spec_is_bridge(
            old(m)@,
            Config { bus: config.bus, device: d, function: f },
        );
    let mut device: u8 = 0;
    while device < 32
        invariant
            device <= 32,
            m.wf(),
            m@ == old(m)@,
            devices@.len() <= MAX_DEVICES_NUM,
            registry_extended(old(m)@, old(devices)@, devices@),
            forall|d2: u8, g: u8|
                d2 < device && g < 8 && spec_scannable(old(m)@, config.bus, d2, g)
                    ==> spec_registered(
                    devices@,
                    Config { bus: config.bus, device: d2, function: g },
                ),
            fuel > 0 ==> forall|d2: u8, g: u8|
                d2 < device && g < 8 && spec_scannable(old(m)@, config.bus, d2, g)
                    && spec_is_bridge(
                    old(m)@,
                    Config { bus: config.bus, device: d2, function: g },
                ) ==> spec_subtree_registered(
                    old(m)@,
                    Config { bus: config.bus, device: d2, function: g },
                    devices@,
                ),
            flat == (forall|d: u8, f: u8|
                d < 32 && f < 8 ==> !spec_is_bridge(
                    old(m)@,
                    Config { bus: config.bus, device: d, function: f },
                )),
            flat ==> appended_in_key_order(
                old(devices)@,
                devices@,
                config.bus,
                0,
                device * 8,
            ),
        decreases 32 - device,
    {
        let dev = Config { bus: config.bus, device, function: 0 };
        let ghost dev_before = devices@;
        if dev.read_vendor_id(m) != 0xffff {
            match scan_device(m, devices, dev, fuel) {
                Ok(_) => {
                    proof {
                        lemma_registry_extended_trans(old(m)@, old(devices)@, dev_before, devices@);
                        assert forall|d2: u8, g: u8|
                            d2 < device + 1 && g < 8 && spec_scannable(
                                old(m)@,
                                config.bus,
                                d2,
                                g,
                            ) implies spec_registered(
                            devices@,
                            Config { bus: config.bus, device: d2, function: g },
                        ) by {
                            if d2 == device {
                                assert(spec_registered(
                                    devices@,
                                    Config { bus: config.bus, device, function: g },
                                ));
                            } else {
                                lemma_registered_preserved(
                                    old(m)@,
                                    dev_before,
                                    devices@,
                                    Config { bus: config.bus, device: d2, function: g },
                                );
                            }
                        }
                        if fuel > 0 {
                            assert forall|d2: u8, g: u8|
                                d2 < device + 1 && g < 8 && spec_scannable(
                                    old(m)@,
                                    config.bus,
                                    d2,
                                    g,
                                ) && spec_is_bridge(
                                    old(m)@,
                                    Config { bus: config.bus, device: d2, function: g },
                                ) implies spec_subtree_registered(
                                old(m)@,
                                Config { bus: config.bus, device: d2, function: g },
                                devices@,
                            ) by {
                                if d2 == device {
                                    assert(spec_subtree_registered(
                                        old(m)@,
                                        Config { bus: config.bus, device, function: g },
                                        devices@,
                                    ));
                                } else {
                                    lemma_subtree_registered_preserved(
                                        old(m)@,
                                        Config { bus: config.bus, device: d2, function: g },
                                        dev_before,
                                        devices@,
                                    );
                                }
                            }
                        }
                        if flat {
                            assert forall|f: u8|
                                f < 8 implies !spec_is_bridge(
                                old(m)@,
                                Config { bus: dev.bus, device: dev.device, function: f },
                            ) by {
                                assert(!spec_is_bridge(
                                    old(m)@,
                                    Config { bus: config.bus, device, function: f },
                                ));
                            }
                            lemma_appended_in_key_order_concat(
                                old(devices)@,
                                dev_before,
                                devices@,
                                config.bus,
                                0,
                                device * 8,
                                device * 8 + 8,
                            );
                        }
                    }
                },
                Err(e) => {
                    proof {
                        lemma_registry_extended_trans(old(m)@, old(devices)@, dev_before, devices@);
                        if flat {
                            assert forall|f: u8|
                                f < 8 implies !spec_is_bridge(
                                old(m)@,
                                Config { bus: dev.bus, device: dev.device, function: f },
                            ) by {
                                assert(!spec_is_bridge(
                                    old(m)@,
                                    Config { bus: config.bus, device, function: f },
                                ));
                            }
                            lemma_appended_in_key_order_concat(
                                old(devices)@,
                                dev_before,
                                devices@,
                                config.bus,
                                0,
                                device * 8,
                                device * 8 + 8,
                            );
                            assert(appended_in_key_order(
                                old(devices)@,
                                devices@,
                                config.bus,
                                0,
                                256,
                            ));
                        }
                    }
                    return Err(e);
                },
            }
        }
        device = device + 1;
    }
    Ok(())
}

/// Scans every reachable bus, starting at the host bridge (0,0,0). A
/// single-function host bridge serves bus 0 only; a multi-function one
/// serves one root bus per present function, numbered by the function index.
/// On success the registry holds every discovered function; `RegistryFull`
/// reports the first function that no longer fit, with everything discovered
/// before it intact. On success every reachable function of each root bus
/// is registered, and so is everything behind those buses' bridges. With a
/// single-function host bridge and no bridge on bus 0, only bus 0 is
/// visited: every new entry sits there, in strictly increasing coordinate
/// order, so no coordinate registers twice.
pub fn scan_all_bus(m: &mut PciConfigSpace, devices: &mut FixedVec<Device, MAX_DEVICES_NUM>) -> (r:
    Result<(), PciError>)
    requires
        old(m).wf(),
        old(devices)@.len() <= MAX_DEVICES_NUM,
    ensures
        final(m).wf(),
        final(m)@ == old(m)@,
        final(devices)@.len() <= MAX_DEVICES_NUM,
        registry_extended(old(m)@, old(devices)@, final(devices)@),
        (!spec_header_type(old(m)@, Config { bus: 0, device: 0, function: 0 }).spec_get_bit(7)
            && (forall|d: u8, f: u8|
            d < 32 && f < 8 ==> !spec_is_bridge(
                old(m)@,
                Config { bus: 0, device: d, function: f },
            ))) ==> appended_in_key_order(old(devices)@, final(devices)@, 0, 0, 256),
        (r is Ok && !spec_header_type(old(m)@, Config { bus: 0, device: 0, function: 0 }).spec_get_bit(
            7,
        )) ==> forall|d: u8, f: u8|
            d < 32 && f < 8 && spec_scannable(old(m)@, 0, d, f) ==> spec_registered(
                final(devices)@,
                Config { bus: 0, device: d, function: f },
            ),
        (r is Ok && spec_header_type(old(m)@, Config { bus: 0, device: 0, function: 0 }).spec_get_bit(
            7,
        )) ==> forall|f: u8, d: u8, g: u8|
            1 <= f < 8 && d < 32 && g < 8 && probe_present(
                old(m)@,
                Config { bus: 0, device: 0, function: f },
            ) && spec_scannable(old(m)@, f, d, g) ==> spec_registered(
                final(devices)@,
                Config { bus: f, device: d, function: g },
            ),
        (r is Ok && !spec_header_type(old(m)@, Config { bus: 0, device: 0, function: 0 }).spec_get_bit(
            7,
        )) ==> forall|d: u8, f: u8|
            d < 32 && f < 8 && spec_scannable(old(m)@, 0, d, f) && spec_is_bridge(
                old(m)@,
                Config { bus: 0, device: d, function: f },
            ) ==> spec_subtree_registered(
                old(m)@,
                Config { bus: 0, device: d, function: f },
                final(devices)@,
            ),
        (r is Ok && spec_header_type(old(m)@, Config { bus: 0, device: 0, function: 0 }).spec_get_bit(
            7,
        )) ==> forall|f: u8, d: u8, g: u8|
            1 <= f < 8 && d < 32 && g < 8 && probe_present(
                old(m)@,
                Config { bus: 0, device: 0, function: f },
            ) && spec_scannable(old(m)@, f, d, g) && spec_is_bridge(
                old(m)@,
                Config { bus: f, device: d, function: g },
            ) ==> spec_subtree_registered(
                old(m)@,
                Config { bus: f, device: d, function: g },
                final(devices)@,
            ),
        r is Err ==> r == Err::<(), PciError>(PciError::RegistryFull) && final(devices)@.len()
            == MAX_DEVICES_NUM,
{
    let host_bridge = Config { bus: 0, device: 0, function: 0 };
    if is_single_function_device(host_bridge.read_header_type(m)) {
        return scan_bus(m, devices, host_bridge, 255);
    }
    proof {
        lemma_registry_extended_refl(old(m)@, old(devices)@);
    }
    let mut function: u8 = 1;
    while function < 8
        invariant
            1 <= function <= 8,
            m.wf(),
            m@ == old(m)@,
            devices@.len() <= MAX_DEVICES_NUM,
            registry_extended(old(m)@, old(devices)@, devices@),
            // the host bridge was multi-function, or this loop never ran
            spec_header_type(old(m)@, Config { bus: 0, device: 0, function: 0 }).spec_get_bit(7),
            forall|f2: u8, d: u8, g: u8|
                1 <= f2 < function && d < 32 && g < 8 && probe_present(
                    old(m)@,
                    Config { bus: 0, device: 0, function: f2 },
                ) && spec_scannable(old(m)@, f2, d, g) ==> spec_registered(
                    devices@,
                    Config { bus: f2, device: d, function: g },
                ),
            forall|f2: u8, d: u8, g: u8|
                1 <= f2 < function && d < 32 && g < 8 && probe_present(
                    old(m)@,
                    Config { bus: 0, device: 0, function: f2 },
                ) && spec_scannable(old(m)@, f2, d, g) && spec_is_bridge(
                    old(m)@,
                    Config { bus: f2, device: d, function: g },
                ) ==> spec_subtree_registered(
                    old(m)@,
                    Config { bus: f2, device: d, function: g },
                    devices@,
                ),
        decreases 8 - function,
    {
        let another_host_bridge = Config { bus: 0, device: 0, function };
        let ghost dev_before = devices@;
        // vendor id 0xffff: this root bus does not exist
        if another_host_bridge.read_vendor_id(m) != 0xffff {
            let root = Config { bus: function, device: 0, function: 0 };
            match scan_bus(m, devices, root, 255) {
                Ok(_) => {
                    proof {
                        lemma_registry_extended_trans(old(m)@, old(devices)@, dev_before, devices@);
                        assert forall|f2: u8, d: u8, g: u8|
                            1 <= f2 < function + 1 && d < 32 && g < 8 && probe_present(
                                old(m)@,
                                Config { bus: 0, device: 0, function: f2 },
                            ) && spec_scannable(old(m)@, f2, d, g) implies spec_registered(
                            devices@,
                            Config { bus: f2, device: d, function: g },
                        ) by {
                            if f2 == function {
                                assert(spec_registered(
                                    devices@,
                                    Config { bus: function, device: d, function: g },
                                ));
                            } else {
                                lemma_registered_preserved(
                                    old(m)@,
                                    dev_before,
                                    devices@,
                                    Config { bus: f2, device: d, function: g },
                                );
                            }
                        }
                        assert forall|f2: u8, d: u8, g: u8|
                            1 <= f2 < function + 1 && d < 32 && g < 8 && probe_present(
                                old(m)@,
                                Config { bus: 0, device: 0, function: f2 },
                            ) && spec_scannable(old(m)@, f2, d, g) && spec_is_bridge(
                                old(m)@,
                                Config { bus: f2, device: d, function: g },
                            ) implies spec_subtree_registered(
                            old(m)@,
                            Config { bus: f2, device: d, function: g },
                            devices@,
                        ) by {
                            if f2 == function {
                                assert(spec_subtree_registered(
                                    old(m)@,
                                    Config { bus: function, device: d, function: g },
                                    devices@,
                                ));
                            } else {
                                lemma_subtree_registered_preserved(
                                    old(m)@,
                                    Config { bus: f2, device: d, function: g },
                                    dev_before,
                                    devices@,
                                );
                            }
                        }
                    }
                },
                Err(e) => {
                    proof {
                        lemma_registry_extended_trans(old(m)@, old(devices)@, dev_before, devices@);
                    }
                    return Err(e);
                },
            }
        }
        function = function + 1;
    }
    Ok(())
}

/// The id of an MSI entry in the capability list.
pub const CAPABILITY_ID_MSI: u8 = 0x05;

/// The id of an MSI-X entry; recognized during the walk but not configured.
pub const CAPABILITY_ID_MSIX: u8 = 0x11;

/// One header of the capability list, materialized from a register read:
/// id in bits 0..8, offset of the next entry in 8..16, and for MSI the
/// control word in the upper half.
#[derive(Clone, Copy, PartialEq, Eq, Structural, Debug)]
pub struct CapabilityHeader {
    pub data: u32,
}

impl CapabilityHeader {
    /// The capability id of this entry.
    pub fn cap_id(&self) -> (r: u8)
        ensures
            r == self.data.spec_get_bits(0, 8) as u8,
    {
        self.data.get_bits(BitRange::Span(0, 8)) as u8
    }

    /// The config-space offset of the next entry; 0 terminates the list.
    pub fn next_ptr(&self) -> (r: u8)
        ensures
            r == self.data.spec_get_bits(8, 16) as u8,
    {
        self.data.get_bits(BitRange::Span(8, 16)) as u8
    }

    /// Whether the device supports masking individual vectors, which adds
    /// mask and pending words to the capability structure.
    pub fn get_per_vector_masking_capable(&self) -> (r: bool)
        ensures
            r == self.data.spec_get_bit(24),
    {
        self.data.get_bit(24)
    }

    /// Whether the device takes a 64-bit message address, which adds an
    /// upper-address word to the capability structure.
    pub fn get_64_bit_address_capable(&self) -> (r: bool)
        ensures
            r == self.data.spec_get_bit(23),
    {
        self.data.get_bit(23)
    }

    /// Sets the multi-message-enable exponent (bits 20..23).
    pub fn set_multi_message_enable(&mut self, val: u8)
        ensures
            final(self).data == old(self).data.spec_set_bits(20, 23, val as u32),
    {
        self.data.set_bits(BitRange::Span(20, 23), val as u32);
    }

    /// The multi-message-capable exponent the device reports (bits 17..20).
    pub fn get_multi_message_capable(&self) -> (r: u8)
        ensures
            r == self.data.spec_get_bits(17, 20) as u8,
            r < 8,
    {
        let r = self.data.get_bits(BitRange::Span(17, 20));
        proof {
            let x = self.data;
            assert(x.spec_get_bits(17, 20) < 8) by (bit_vector);
        }
        r as u8
    }

    /// Sets the MSI-enable bit (bit 16).
    pub fn set_msi_enable(&mut self, val: bool)
        ensures
            final(self).data == old(self).data.spec_set_bit(16, val),
    {
        self.data.set_bit(16, val);
    }

    /// The raw register value to write back.
    pub fn as_u32(&self) -> (r: u32)
        ensures
            r == self.data,
    {
        self.data
    }
}

/// The MSI capability structure as materialized from configuration space,
/// never persisted: header word, message address (and upper half when the
/// device is 64-bit capable), message data, and the mask and pending words
/// when per-vector masking is supported.
#[derive(Clone, Copy, PartialEq, Eq, Structural, Debug)]
pub struct MSICapability {
    pub header: CapabilityHeader,
    pub msg_addr: u32,
    pub msg_upper_addr: u32,
    pub msg_data: u32,
    pub mask_bits: u32,
    pub pending_bits: u32,
}

/// What `read_bar` returns: the BAR's low word, extended by its upper word
/// when bit 2 marks it 64-bit; `None` for an index out of range or a 64-bit
/// BAR in the last slot.
pub open spec fn spec_read_bar(
    m: Map<(int, int, int), Seq<u32>>,
    bus: u8,
    device: u8,
    function: u8,
    bar_idx: u8,
) -> Option<u64> {
    if bar_idx >= 6 {
        None
    } else {
        let addr = (bar_idx * 4 + 0x10) as u8;
        let bar_lower = spec_device_reg(m, bus, device, function, addr) as u64;
        if bar_lower & 0b100 == 0 {
            Some(bar_lower)
        } else if bar_idx >= 5 {
            None
        } else {
            let bar_upper = spec_device_reg(m, bus, device, function, (addr + 4) as u8) as u64;
            Some(bar_upper << 32u64 | bar_lower)
        }
    }
}

/// The capability pointer of a function: low 8 bits of register 0x34.
pub open spec fn spec_capability_pointer(
    m: Map<(int, int, int), Seq<u32>>,
    bus: u8,
    device: u8,
    function: u8,
) -> u8 {
    spec_device_reg(m, bus, device, function, 0x34).spec_get_bits(0, 8) as u8
}

/// Whether the MSI entry whose header word is `header`, sitting at offset
/// `ptr`, can be programmed at all: the fields its own flag combination
/// takes — header and address always, an upper address word only when
/// 64-bit capable (bit 23), mask and pending words only when per-vector
/// masking is reported (bit 24) — must all lie inside the 256-byte
/// configuration space. An entry whose fields would wrap past the end
/// cannot be configured and counts as absent.
pub open spec fn spec_msi_entry_usable(header: u32, ptr: u8) -> bool {
    let data_off: int = if header.spec_get_bit(23) {
        ptr + 12
    } else {
        ptr + 8
    };
    let last: int = if header.spec_get_bit(24) {
        data_off + 8
    } else {
        data_off
    };
    last < 256
}

/// The offset of the last usable MSI entry reachable from `ptr` within
/// `fuel` list steps; 0 when there is none. The walk keeps the last match,
/// as the configuration pass does.
pub open spec fn spec_find_msi(
    m: Map<(int, int, int), Seq<u32>>,
    bus: u8,
    device: u8,
    function: u8,
    ptr: u8,
    fuel: nat,
) -> u8
    decreases fuel,
{
    if ptr == 0 || fuel == 0 {
        0
    } else {
        let header = spec_device_reg(m, bus, device, function, ptr);
        let next = header.spec_get_bits(8, 16) as u8;
        let rest = spec_find_msi(m, bus, device, function, next, (fuel - 1) as nat);
        if rest != 0 {
            rest
        } else if header.spec_get_bits(0, 8) as u8 == CAPABILITY_ID_MSI && spec_msi_entry_usable(
            header,
            ptr,
        ) {
            ptr
        } else {
            0
        }
    }
}

/// The MSI capability at `cap_addr` as `read_msi_capability` materializes
/// it: optional words read as 0 when the device lacks them.
pub open spec fn spec_read_msi_capability(
    m: Map<(int, int, int), Seq<u32>>,
    bus: u8,
    device: u8,
    function: u8,
    cap_addr: u8,
) -> MSICapability {
    let header = CapabilityHeader { data: spec_device_reg(m, bus, device, function, cap_addr) };
    let msg_addr = spec_device_reg(m, bus, device, function, (cap_addr + 4) as u8);
    let c64 = header.data.spec_get_bit(23);
    let msg_upper_addr = if c64 {
        spec_device_reg(m, bus, device, function, (cap_addr + 8) as u8)
    } else {
        0u32
    };
    let data_off: u8 = if c64 {
        (cap_addr + 12) as u8
    } else {
        (cap_addr + 8) as u8
    };
    let msg_data = spec_device_reg(m, bus, device, function, data_off);
    let pvm = header.data.spec_get_bit(24);
    let mask_bits = if pvm {
        spec_device_reg(m, bus, device, function, (data_off + 4) as u8)
    } else {
        0u32
    };
    let pending_bits = if pvm {
        spec_device_reg(m, bus, device, function, (data_off + 8) as u8)
    } else {
        0u32
    };
    MSICapability { header, msg_addr, msg_upper_addr, msg_data, mask_bits, pending_bits }
}

/// The machine after `write_msi_capability` writes `cap` back at
/// `cap_addr`: header, address, optional upper address, data, and the
/// optional mask and pending words, at their computed offsets.
pub open spec fn spec_write_msi_capability(
    m: Map<(int, int, int), Seq<u32>>,
    bus: u8,
    device: u8,
    function: u8,
    cap_addr: u8,
    cap: MSICapability,
) -> Map<(int, int, int), Seq<u32>> {
    let m1 = spec_device_write(m, bus, device, function, cap_addr, cap.header.data);
    let m2 = spec_device_write(m1, bus, device, function, (cap_addr + 4) as u8, cap.msg_addr);
    let c64 = cap.header.data.spec_get_bit(23);
    let m3 = if c64 {
        spec_device_write(m2, bus, device, function, (cap_addr + 8) as u8, cap.msg_upper_addr)
    } else {
        m2
    };
    let data_off: u8 = if c64 {
        (cap_addr + 12) as u8
    } else {
        (cap_addr + 8) as u8
    };
    let m4 = spec_device_write(m3, bus, device, function, data_off, cap.msg_data);
    let pvm = cap.header.data.spec_get_bit(24);
    if pvm {
        spec_device_write(
            spec_device_write(m4, bus, device, function, (data_off + 4) as u8, cap.mask_bits),
            bus,
            device,
            function,
            (data_off + 8) as u8,
            cap.pending_bits,
        )
    } else {
        m4
    }
}

/// The multi-message-enable value configuration programs: the smaller of
/// the requested exponent and the exponent the device is capable of.
pub open spec fn spec_multi_message_enable(num_vector_exponent: u32, capable: u8) -> u8 {
    if num_vector_exponent < capable as u32 {
        num_vector_exponent as u8
    } else {
        capable
    }
}

/// The capability after configuration: multi-message-enable set to
/// `min(requested, capable)`, the MSI-enable bit set, and the message
/// address and data words replaced.
pub open spec fn spec_configured_msi_capability(
    cap: MSICapability,
    msg_addr: u32,
    msg_data: u32,
    num_vector_exponent: u32,
) -> MSICapability {
    let capable = cap.header.data.spec_get_bits(17, 20) as u8;
    let enable = spec_multi_message_enable(num_vector_exponent, capable);
    let header_data = cap.header.data.spec_set_bits(20, 23, enable as u32).spec_set_bit(16, true);
    MSICapability {
        header: CapabilityHeader { data: header_data },
        msg_addr,
        msg_data,
        ..cap
    }
}

/// The machine after one full MSI configuration pass at `cap_addr`.
pub open spec fn spec_configure_msi_register(
    m: Map<(int, int, int), Seq<u32>>,
    bus: u8,
    device: u8,
    function: u8,
    cap_addr: u8,
    msg_addr: u32,
    msg_data: u32,
    num_vector_exponent: u32,
) -> Map<(int, int, int), Seq<u32>> {
    let cap = spec_read_msi_capability(m, bus, device, function, cap_addr);
    spec_write_msi_capability(
        m,
        bus,
        device,
        function,
        cap_addr,
        spec_configured_msi_capability(cap, msg_addr, msg_data, num_vector_exponent),
    )
}

impl Device {
    /// Reads base-address register `bar_idx` (0..6). A 64-bit memory BAR
    /// (bit 2 of the low word set) spans two registers; its upper half is
    /// unavailable for the last slot.
    pub fn read_bar(&self, m: &mut PciConfigSpace, bar_idx: u8) -> (r: Option<u64>)
        requires
            self.wf(),
            old(m).wf(),
        ensures
            final(m).wf(),
            final(m)@ == old(m)@,
            r == spec_read_bar(old(m)@, self.bus, self.device, self.function, bar_idx),
    {
        if bar_idx >= 6 {
            return None;
        }
        let addr = bar_idx * 4 + 0x10;
        let bar_lower = self.read_register(m, addr) as u64;
        if bar_lower & 0b100 == 0 {
            return Some(bar_lower);
        }
        if bar_idx >= 5 {
            return None;
        }
        let bar_upper = self.read_register(m, addr + 4) as u64;
        Some(bar_upper << 32 | bar_lower)
    }

    /// Reads one capability header of this device.
    pub fn read_msi_capability_header(&self, m: &mut PciConfigSpace, cap_addr: u8) -> (r:
        CapabilityHeader)
        requires
            self.wf(),
            old(m).wf(),
        ensures
            final(m).wf(),
            final(m)@ == old(m)@,
            r.data == spec_device_reg(old(m)@, self.bus, self.device, self.function, cap_addr),
    {
        CapabilityHeader { data: self.read_register(m, cap_addr) }
    }

    /// The offset of the last usable MSI entry in the capability list,
    /// walking at most `fuel` links so that a malformed, cyclic list ends
    /// the walk instead of hanging it; 0 when no usable MSI entry was
    /// found. A usable entry leaves room, below the end of configuration
    /// space, for the fields its own flag combination takes.
    fn find_msi_cap(&self, m: &mut PciConfigSpace, ptr: u8, fuel: usize) -> (r: u8)
        requires
            self.wf(),
            old(m).wf(),
        ensures
            final(m).wf(),
            final(m)@ == old(m)@,
            r == spec_find_msi(
                old(m)@,
                self.bus,
                self.device,
                self.function,
                ptr,
                fuel as nat,
            ),
            r == 0 || spec_msi_entry_usable(
                spec_device_reg(old(m)@, self.bus, self.device, self.function, r),
                r,
            ),
        decreases fuel,
    {
        if ptr == 0 || fuel == 0 {
            return 0;
        }
        let header = self.read_msi_capability_header(m, ptr);
        let next = header.next_ptr();
        let rest = self.find_msi_cap(m, next, fuel - 1);
        if rest != 0 {
            return rest;
        }
        let data_off: usize = ptr as usize + if header.get_64_bit_address_capable() {
            12
        } else {
            8
        };
        let last: usize = if header.get_per_vector_masking_capable() {
            data_off + 8
        } else {
            data_off
        };
        if header.cap_id() == CAPABILITY_ID_MSI && last < 256 {
            ptr
        } else {
            0
        }
    }

    /// Materializes the MSI capability structure at `cap_addr`. The
    /// fields the entry's flag combination takes must lie inside
    /// configuration space.
    pub fn read_msi_capability(&self, m: &mut PciConfigSpace, cap_addr: u8) -> (r: MSICapability)
        requires
            self.wf(),
            old(m).wf(),
            spec_msi_entry_usable(
                spec_device_reg(old(m)@, self.bus, self.device, self.function, cap_addr),
                cap_addr,
            ),
        ensures
            final(m).wf(),
            final(m)@ == old(m)@,
            r == spec_read_msi_capability(
                old(m)@,
                self.bus,
                self.device,
                self.function,
                cap_addr,
            ),
    {
        let header = self.read_msi_capability_header(m, cap_addr);
        let msg_addr = self.read_register(m, cap_addr + 4);
        let c64 = header.get_64_bit_address_capable();
        let msg_upper_addr: u32;
        let msg_data_addr: u8;
        if c64 {
            msg_upper_addr = self.read_register(m, cap_addr + 8);
            msg_data_addr = cap_addr + 12;
        } else {
            msg_upper_addr = 0;
            msg_data_addr = cap_addr + 8;
        }
        let msg_data = self.read_register(m, msg_data_addr);
        let mask_bits: u32;
        let pending_bits: u32;
        if header.get_per_vector_masking_capable() {
            mask_bits = self.read_register(m, msg_data_addr + 4);
            pending_bits = self.read_register(m, msg_data_addr + 8);
        } else {
            mask_bits = 0;
            pending_bits = 0;
        }
        MSICapability { header, msg_addr, msg_upper_addr, msg_data, mask_bits, pending_bits }
    }

    /// Writes an MSI capability structure back at `cap_addr`: header,
    /// address, optional upper address, data, optional mask and pending.
    /// The header, which carries the enable bit, goes out first, before the
    /// new destination; the contract records that device-visible order.
    /// The fields the written header's flag combination takes must lie
    /// inside configuration space.
    pub fn write_msi_capability(&self, m: &mut PciConfigSpace, cap_addr: u8, msi_cap: &MSICapability)
        requires
            self.wf(),
            old(m).wf(),
            spec_msi_entry_usable(msi_cap.header.data, cap_addr),
        ensures
            final(m).wf(),
            final(m)@ == spec_write_msi_capability(
                old(m)@,
                self.bus,
                self.device,
                self.function,
                cap_addr,
                *msi_cap,
            ),
    {
        let header_data = msi_cap.header.as_u32();
        self.write_register(m, cap_addr, header_data);
        self.write_register(m, cap_addr + 4, msi_cap.msg_addr);
        let msg_data_addr: u8;
        if msi_cap.header.get_64_bit_address_capable() {
            self.write_register(m, cap_addr + 8, msi_cap.msg_upper_addr);
            msg_data_addr = cap_addr + 12;
        } else {
            msg_data_addr = cap_addr + 8;
        }
        self.write_register(m, msg_data_addr, msi_cap.msg_data);
        if msi_cap.header.get_per_vector_masking_capable() {
            self.write_register(m, msg_data_addr + 4, msi_cap.mask_bits);
            self.write_register(m, msg_data_addr + 8, msi_cap.pending_bits);
        }
    }

    /// One full MSI configuration pass at `cap_addr`: read the capability,
    /// set multi-message-enable to the smaller of the requested and the
    /// capable exponent, set the MSI-enable bit, place the message address
    /// and data, and write everything back.
    pub fn configure_msi_register(
        &self,
        m: &mut PciConfigSpace,
        cap_addr: u8,
        msg_addr: u32,
        msg_data: u32,
        num_vector_exponent: u32,
    )
        requires
            self.wf(),
            old(m).wf(),
            spec_msi_entry_usable(
                spec_device_reg(old(m)@, self.bus, self.device, self.function, cap_addr),
                cap_addr,
            ),
        ensures
            final(m).wf(),
            final(m)@ == spec_configure_msi_register(
                old(m)@,
                self.bus,
                self.device,
                self.function,
                cap_addr,
                msg_addr,
                msg_data,
                num_vector_exponent,
            ),
    {
        let mut msi_cap = self.read_msi_capability(m, cap_addr);
        let multi_message_capable = msi_cap.header.get_multi_message_capable();
        let multi_message_enable: u8 = if num_vector_exponent < multi_message_capable as u32 {
            num_vector_exponent as u8
        } else {
            multi_message_capable
        };
        msi_cap.header.set_multi_message_enable(multi_message_enable);
        msi_cap.header.set_msi_enable(true);
        msi_cap.msg_addr = msg_addr;
        msi_cap.msg_data = msg_data;
        proof {
            // programming the enable fields leaves the flag bits alone, so
            // the structure still fits where the read found it
            let h0 = spec_device_reg(old(m)@, self.bus, self.device, self.function, cap_addr);
            let e = multi_message_enable;
            assert(h0.spec_set_bits(20, 23, e as u32).spec_set_bit(16, true).spec_get_bit(23)
                == h0.spec_get_bit(23) && h0.spec_set_bits(20, 23, e as u32).spec_set_bit(
                16,
                true,
            ).spec_get_bit(24) == h0.spec_get_bit(24)) by (bit_vector);
            assert(spec_msi_entry_usable(msi_cap.header.data, cap_addr));
        }
        self.write_msi_capability(m, cap_addr, &msi_cap);
    }

    /// Walks the capability list and configures MSI routing at the entry
    /// found. Fails with `CapabilityNotFound` exactly when the list has no
    /// usable MSI entry, and then nothing is written. An entry whose
    /// structure would extend past the 256-byte configuration space counts
    /// as absent: it cannot be programmed without wrapping the offsets.
    pub fn configure_msi(
        &self,
        m: &mut PciConfigSpace,
        msg_addr: u32,
        msg_data: u32,
        num_vector_exponent: u32,
    ) -> (r: Result<(), PciError>)
        requires
            self.wf(),
            old(m).wf(),
        ensures
            final(m).wf(),
            ({
                let cap = spec_find_msi(
                    old(m)@,
                    self.bus,
                    self.device,
                    self.function,
                    spec_capability_pointer(old(m)@, self.bus, self.device, self.function),
                    256,
                );
                if cap != 0 {
                    r == Ok::<(), PciError>(()) && final(m)@ == spec_configure_msi_register(
                        old(m)@,
                        self.bus,
                        self.device,
                        self.function,
                        cap,
                        msg_addr,
                        msg_data,
                        num_vector_exponent,
                    )
                } else {
                    r == Err::<(), PciError>(PciError::CapabilityNotFound) && final(m)@ == old(m)@
                }
            }),
    {
        // low 8 bits of register 0x34: the first capability pointer
        let cap_ptr = self.read_register(m, 0x34).get_bits(BitRange::Span(0, 8)) as u8;
        let msi_cap_addr = self.find_msi_cap(m, cap_ptr, 256);
        if msi_cap_addr != 0 {
            self.configure_msi_register(m, msi_cap_addr, msg_addr, msg_data, num_vector_exponent);
            Ok(())
        } else {
            Err(PciError::CapabilityNotFound)
        }
    }
}

/// An x86 I/O port address. The raw in/out instructions live in the
/// unverified shell around the library; a cycle against the modelled
/// machine reaches the two configuration ports, and any other port reads
/// all ones and absorbs writes.
#[derive(Clone, Copy, PartialEq, Eq, Structural, Debug)]
pub struct IOPort {
    pub port: u16,
}

impl IOPort {
    pub fn new(port: u16) -> (r: IOPort)
        ensures
            r.port == port,
    {
        IOPort { port }
    }

    /// A 32-bit input cycle.
    pub fn read32(&mut self, m: &PciConfigSpace) -> (r: u32)
        requires
            m.wf(),
        ensures
            r == if old(self).port == CONFIG_DATA {
                spec_config_read(m@, m.selected())
            } else {
                0xffff_ffffu32
            },
    {
        if self.port == CONFIG_DATA {
            config_data_read(m)
        } else {
            0xffff_ffff
        }
    }

    /// A 16-bit input cycle: the low half of the 32-bit cycle.
    pub fn read16(&mut self, m: &PciConfigSpace) -> (r: u16)
        requires
            m.wf(),
        ensures
            r == (if old(self).port == CONFIG_DATA {
                spec_config_read(m@, m.selected())
            } else {
                0xffff_ffffu32
            }) as u16,
    {
        self.read32(m) as u16
    }

    /// A 32-bit output cycle: the address port latches, the data port
    /// stores, any other port absorbs the write.
    pub fn write32(&mut self, m: &mut PciConfigSpace, data: u32)
        requires
            old(m).wf(),
        ensures
            final(m).wf(),
            old(self).port == CONFIG_ADDRESS ==> final(m)@ == old(m)@ && final(m).selected()
                == data,
            old(self).port == CONFIG_DATA ==> final(m)@ == spec_config_write(
                old(m)@,
                old(m).selected(),
                data,
            ) && final(m).selected() == old(m).selected(),
            old(self).port != CONFIG_ADDRESS && old(self).port != CONFIG_DATA ==> final(m)@
                == old(m)@ && final(m).selected() == old(m).selected(),
    {
        if self.port == CONFIG_ADDRESS {
            m.address = data;
        } else if self.port == CONFIG_DATA {
            config_data_write(m, data);
        }
    }

    /// A 16-bit output cycle: the value zero-extended onto the port.
    pub fn write16(&mut self, m: &mut PciConfigSpace, data: u16)
        requires
            old(m).wf(),
        ensures
            final(m).wf(),
            old(self).port == CONFIG_ADDRESS ==> final(m)@ == old(m)@ && final(m).selected()
                == data as u32,
            old(self).port == CONFIG_DATA ==> final(m)@ == spec_config_write(
                old(m)@,
                old(m).selected(),
                data as u32,
            ) && final(m).selected() == old(m).selected(),
            old(self).port != CONFIG_ADDRESS && old(self).port != CONFIG_DATA ==> final(m)@
                == old(m)@ && final(m).selected() == old(m).selected(),
    {
        self.write32(m, data as u32);
    }
}

/// How the message interrupt is triggered.
#[derive(Clone, Copy, PartialEq, Eq, Structural, Debug)]
pub enum MSITriggerMode {
    Edge,
    Level,
}

impl MSITriggerMode {
    /// The encoding the message data word carries for this mode.
    pub open spec fn spec_value(self) -> u8 {
        match self {
            MSITriggerMode::Edge => 0,
            MSITriggerMode::Level => 1,
        }
    }

    pub fn value(self) -> (r: u8)
        ensures
            r == self.spec_value(),
    {
        match self {
            MSITriggerMode::Edge => 0,
            MSITriggerMode::Level => 1,
        }
    }
}

/// The delivery mode field of the message data word (bits 8..11).
#[derive(Clone, Copy, PartialEq, Eq, Structural, Debug)]
pub enum MSIDeliveryMode {
    Fixed,
    LowestPriority,
    SMI,
    NMI,
    INIT,
    ExtINT,
}

impl MSIDeliveryMode {
    /// The encoding the message data word carries for this mode.
    pub open spec fn spec_value(self) -> u8 {
        match self {
            MSIDeliveryMode::Fixed => 0b000,
            MSIDeliveryMode::LowestPriority => 0b001,
            MSIDeliveryMode::SMI => 0b010,
            MSIDeliveryMode::NMI => 0b100,
            MSIDeliveryMode::INIT => 0b101,
            MSIDeliveryMode::ExtINT => 0b111,
        }
    }

    pub fn value(self) -> (r: u8)
        ensures
            r == self.spec_value(),
    {
        match self {
            MSIDeliveryMode::Fixed => 0b000,
            MSIDeliveryMode::LowestPriority => 0b001,
            MSIDeliveryMode::SMI => 0b010,
            MSIDeliveryMode::NMI => 0b100,
            MSIDeliveryMode::INIT => 0b101,
            MSIDeliveryMode::ExtINT => 0b111,
        }
    }
}

/// The fixed-destination message address: local-APIC base 0xfee00000 with
/// the target APIC id in bits 12..20.
pub open spec fn spec_msi_message_address(apic_id: u8) -> u32 {
    0xfee00000u32.spec_set_bits(12, 20, apic_id as u32)
}

/// The message data word: vector in bits 0..8, delivery mode in 8..11, and
/// for level trigger the trigger-mode and level bits (14 and 15).
pub open spec fn spec_msi_message_data(
    vector: u8,
    delivery_mode: MSIDeliveryMode,
    trigger_mode: MSITriggerMode,
) -> u32 {
    let base = 0u32.spec_set_bits(8, 11, delivery_mode.spec_value() as u32).spec_set_bits(
        0,
        8,
        vector as u32,
    );
    if trigger_mode == MSITriggerMode::Level {
        base | 0xc000
    } else {
        base
    }
}

impl Device {
    /// Routes this device's interrupts to the CPU with APIC id `apic_id` on
    /// the given vector, in the fixed-destination message form, then
    /// configures the device's MSI capability with that address and data.
    pub fn configure_msi_fixed_destination(
        &self,
        m: &mut PciConfigSpace,
        apic_id: u8,
        trigger_mode: MSITriggerMode,
        delivery_mode: MSIDeliveryMode,
        vector: crate::interrupts::InterruptVector,
        num_vector_exponent: u32,
    ) -> (r: Result<(), PciError>)
        requires
            self.wf(),
            old(m).wf(),
        ensures
            final(m).wf(),
            ({
                let msg_addr = spec_msi_message_address(apic_id);
                let msg_data = spec_msi_message_data(
                    vector.spec_vector_number(),
                    delivery_mode,
                    trigger_mode,
                );
                let cap = spec_find_msi(
                    old(m)@,
                    self.bus,
                    self.device,
                    self.function,
                    spec_capability_pointer(old(m)@, self.bus, self.device, self.function),
                    256,
                );
                if cap != 0 {
                    r == Ok::<(), PciError>(()) && final(m)@ == spec_configure_msi_register(
                        old(m)@,
                        self.bus,
                        self.device,
                        self.function,
                        cap,
                        msg_addr,
                        msg_data,
                        num_vector_exponent,
                    )
                } else {
                    r == Err::<(), PciError>(PciError::CapabilityNotFound) && final(m)@ == old(m)@
                }
            }),
    {
        let mut msg_addr: u32 = 0xfee00000;
        msg_addr.set_bits(BitRange::Span(12, 20), apic_id as u32);
        let mut msg_data: u32 = 0;
        msg_data.set_bits(BitRange::Span(8, 11), delivery_mode.value() as u32);
        msg_data.set_bits(BitRange::Span(0, 8), vector.vector_number() as u32);
        if trigger_mode == MSITriggerMode::Level {
            msg_data = msg_data | 0xc000;
        }
        self.configure_msi(m, msg_addr, msg_data, num_vector_exponent)
    }
}

/// Law: MSI configuration programs multi-message-enable (bits 20..23 of the
/// capability header) to the smaller of the requested exponent and the
/// exponent the device reports capable (bits 17..20), and sets the
/// MSI-enable bit.
pub proof fn lemma_msi_multi_message_enable(
    m: Map<(int, int, int), Seq<u32>>,
    bus: u8,
    device: u8,
    function: u8,
    cap_addr: u8,
    msg_addr: u32,
    msg_data: u32,
    num_vector_exponent: u32,
)
    requires
        m.contains_key((bus as int, device as int, function as int)),
        m[(bus as int, device as int, function as int)].len() == 64,
        spec_msi_entry_usable(spec_device_reg(m, bus, device, function, cap_addr), cap_addr),
    ensures
        ({
            let header_after = spec_device_reg(
                spec_configure_msi_register(
                    m,
                    bus,
                    device,
                    function,
                    cap_addr,
                    msg_addr,
                    msg_data,
                    num_vector_exponent,
                ),
                bus,
                device,
                function,
                cap_addr,
            );
            let capable = spec_device_reg(m, bus, device, function, cap_addr).spec_get_bits(17, 20);
            &&& header_after.spec_get_bits(20, 23) as u32 == (if num_vector_exponent
                < capable {
                num_vector_exponent
            } else {
                capable
            })
            &&& header_after.spec_get_bit(16)
        }),
{
    let k = (bus as int, device as int, function as int);
    let header0 = spec_device_reg(m, bus, device, function, cap_addr);
    let capable8 = header0.spec_get_bits(17, 20) as u8;
    let enable = spec_multi_message_enable(num_vector_exponent, capable8);
    let cap0 = spec_read_msi_capability(m, bus, device, function, cap_addr);
    let configured = spec_configured_msi_capability(
        cap0,
        msg_addr,
        msg_data,
        num_vector_exponent,
    );
    let result = spec_configure_msi_register(
        m,
        bus,
        device,
        function,
        cap_addr,
        msg_addr,
        msg_data,
        num_vector_exponent,
    );
    let idx = cap_addr as int / 4;
    let h = header0;
    let e = enable;
    // programming the enable fields leaves the flag bits alone
    assert((h.spec_set_bits(20, 23, e as u32).spec_set_bit(16, true)).spec_get_bit(23)
        == h.spec_get_bit(23) && (h.spec_set_bits(20, 23, e as u32).spec_set_bit(
        16,
        true,
    )).spec_get_bit(24) == h.spec_get_bit(24)) by (bit_vector);
    let c64 = configured.header.data.spec_get_bit(23);
    let pvm = configured.header.data.spec_get_bit(24);
    assert(c64 == header0.spec_get_bit(23) && pvm == header0.spec_get_bit(24));
    // the header is written first; every write its flag combination then
    // performs lands on a strictly higher register index, so the header
    // register keeps the written value
    let m1 = spec_device_write(m, bus, device, function, cap_addr, configured.header.data);
    assert(m1[k][idx] == configured.header.data);
    assert(cap_addr as int + 4 < 256);
    assert((cap_addr as int + 4) / 4 == idx + 1);
    if c64 {
        assert(cap_addr as int + 12 < 256);
        assert((cap_addr as int + 8) / 4 == idx + 2);
        assert((cap_addr as int + 12) / 4 == idx + 3);
        if pvm {
            assert(cap_addr as int + 20 < 256);
            assert((cap_addr as int + 16) / 4 == idx + 4);
            assert((cap_addr as int + 20) / 4 == idx + 5);
        }
    } else {
        assert(cap_addr as int + 8 < 256);
        assert((cap_addr as int + 8) / 4 == idx + 2);
        if pvm {
            assert(cap_addr as int + 16 < 256);
            assert((cap_addr as int + 12) / 4 == idx + 3);
            assert((cap_addr as int + 16) / 4 == idx + 4);
        }
    }
    assert(spec_device_reg(result, bus, device, function, cap_addr) == configured.header.data);
    assert(e < 8 ==> (h.spec_set_bits(20, 23, e as u32).spec_set_bit(16, true)).spec_get_bits(
        20,
        23,
    ) == e as u32 && (h.spec_set_bits(20, 23, e as u32).spec_set_bit(16, true)).spec_get_bit(16))
        by (bit_vector);
    assert(h.spec_get_bits(17, 20) < 8) by (bit_vector);
}

} // verus!
