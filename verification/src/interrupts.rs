//! The interrupt descriptor table: 256 16-byte gate descriptors mapping CPU
//! vectors to handler entry points, guarded by the spinlock and populated
//! exactly once during initialization, before interrupts are unmasked.
//!
//! Loading the finished table into the CPU takes a privileged instruction;
//! this module builds the table and the pointer structure the load takes,
//! and leaves the load itself to the unverified shell around the library.

use vstd::prelude::*;

use crate::bit_field::{BitField, BitRange};
use crate::sync::SpinMutex;

verus! {

/// The attribute word of a gate descriptor: interrupt-stack-table index in
/// bits 0..3, gate type in 8..12, descriptor privilege level in 13..15,
/// present flag in bit 15.
#[derive(Clone, Copy, PartialEq, Eq, Structural, Debug)]
pub struct InterruptDescriptorAttribute {
    pub data: u16,
}

/// The descriptor type every populated entry carries: an interrupt gate.
pub const GATE_TYPE_INTERRUPT: u8 = 14;

impl InterruptDescriptorAttribute {
    /// The attribute of an unpopulated entry: everything clear, present
    /// included.
    pub fn missing() -> (r: InterruptDescriptorAttribute)
        ensures
            r.data == 0,
    {
        InterruptDescriptorAttribute { data: 0 }
    }

    pub fn get_ist(&self) -> (r: u8)
        ensures
            r == self.data.spec_get_bits(0, 3) as u8,
    {
        self.data.get_bits(BitRange::Span(0, 3)) as u8
    }

    pub fn set_ist(self, val: u8) -> (r: InterruptDescriptorAttribute)
        requires
            val < 8,
        ensures
            r.data == self.data.spec_set_bits(0, 3, val as u16),
    {
        let mut s = self;
        s.data.set_bits(BitRange::Span(0, 3), val as u16);
        s
    }

    pub fn get_type(&self) -> (r: u8)
        ensures
            r == self.data.spec_get_bits(8, 12) as u8,
    {
        self.data.get_bits(BitRange::Span(8, 12)) as u8
    }

    pub fn set_type(self, val: u8) -> (r: InterruptDescriptorAttribute)
        requires
            val < 16,
        ensures
            r.data == self.data.spec_set_bits(8, 12, val as u16),
    {
        let mut s = self;
        s.data.set_bits(BitRange::Span(8, 12), val as u16);
        s
    }

    pub fn get_dpl(&self) -> (r: u8)
        ensures
            r == self.data.spec_get_bits(13, 15) as u8,
    {
        self.data.get_bits(BitRange::Span(13, 15)) as u8
    }

    pub fn set_dpl(self, val: u8) -> (r: InterruptDescriptorAttribute)
        requires
            val < 4,
        ensures
            r.data == self.data.spec_set_bits(13, 15, val as u16),
    {
        let mut s = self;
        s.data.set_bits(BitRange::Span(13, 15), val as u16);
        s
    }

    pub fn get_present(&self) -> (r: bool)
        ensures
            r == self.data.spec_get_bit(15),
    {
        self.data.get_bit(15)
    }

    pub fn set_present(self, val: bool) -> (r: InterruptDescriptorAttribute)
        ensures
            r.data == self.data.spec_set_bit(15, val),
    {
        let mut s = self;
        s.data.set_bit(15, val);
        s
    }
}

impl Default for InterruptDescriptorAttribute {
    /// A present attribute with everything else clear.
    fn default() -> (r: InterruptDescriptorAttribute)
        ensures
            r.data == 0u16.spec_set_bit(15, true),
    {
        InterruptDescriptorAttribute { data: 0 }.set_present(true)
    }
}

/// One 16-byte gate descriptor: the handler offset split over three fields
/// per the x86-64 layout, the code-segment selector, and the attribute word.
#[derive(Clone, Copy, PartialEq, Eq, Structural, Debug)]
pub struct InterruptDescriptor {
    pub offset_low: u16,
    pub segment_selector: u16,
    pub attribute: InterruptDescriptorAttribute,
    pub offset_middle: u16,
    pub offset_high: u32,
    pub _reserved: u32,
}

/// The descriptor that routes a vector to `handler_ptr` through code
/// segment `cs` with attribute `attr`: the offset split into its low 16,
/// middle 16 and high 32 bits.
pub open spec fn spec_gate_descriptor(
    handler_ptr: u64,
    cs: u16,
    attr: InterruptDescriptorAttribute,
) -> InterruptDescriptor {
    InterruptDescriptor {
        offset_low: handler_ptr.spec_get_bits(0, 16) as u16,
        segment_selector: cs,
        attribute: attr,
        offset_middle: handler_ptr.spec_get_bits(16, 32) as u16,
        offset_high: handler_ptr.spec_get_bits(32, 64) as u32,
        _reserved: 0,
    }
}

/// An unpopulated entry: all fields zero, so the present bit is clear.
pub open spec fn spec_missing_descriptor() -> InterruptDescriptor {
    InterruptDescriptor {
        offset_low: 0,
        segment_selector: 0,
        attribute: InterruptDescriptorAttribute { data: 0 },
        offset_middle: 0,
        offset_high: 0,
        _reserved: 0,
    }
}

impl InterruptDescriptor {
    /// An unpopulated entry: all fields zero, so the present bit is clear.
    pub fn missing() -> (r: InterruptDescriptor)
        ensures
            r == spec_missing_descriptor(),
    {
        InterruptDescriptor {
            offset_low: 0,
            segment_selector: 0,
            attribute: InterruptDescriptorAttribute { data: 0 },
            offset_middle: 0,
            offset_high: 0,
            _reserved: 0,
        }
    }

    /// A populated entry routing to `handler_ptr` through `cs`.
    pub fn new(handler_ptr: u64, cs: u16, attr: InterruptDescriptorAttribute) -> (r:
        InterruptDescriptor)
        ensures
            r == spec_gate_descriptor(handler_ptr, cs, attr),
    {
        InterruptDescriptor {
            offset_low: handler_ptr.get_bits(BitRange::Span(0, 16)) as u16,
            segment_selector: cs,
            attribute: attr,
            offset_middle: handler_ptr.get_bits(BitRange::Span(16, 32)) as u16,
            offset_high: handler_ptr.get_bits(BitRange::Span(32, 64)) as u32,
            _reserved: 0,
        }
    }

    /// The handler offset, reassembled from its three fields.
    pub open spec fn spec_offset(self) -> u64 {
        0u64.spec_set_bits(0, 16, self.offset_low as u64).spec_set_bits(
            16,
            32,
            self.offset_middle as u64,
        ).spec_set_bits(32, 64, self.offset_high as u64)
    }

    pub fn get_offset(&self) -> (r: u64)
        ensures
            r == self.spec_offset(),
    {
        let mut offset: u64 = 0;
        offset.set_bits(BitRange::Span(0, 16), self.offset_low as u64);
        offset.set_bits(BitRange::Span(16, 32), self.offset_middle as u64);
        offset.set_bits(BitRange::Span(32, 64), self.offset_high as u64);
        offset
    }

    pub fn set_offset(self, offset: u64) -> (r: InterruptDescriptor)
        ensures
            r == (InterruptDescriptor {
                offset_low: offset.spec_get_bits(0, 16) as u16,
                offset_middle: offset.spec_get_bits(16, 32) as u16,
                offset_high: offset.spec_get_bits(32, 64) as u32,
                ..self
            }),
    {
        let mut s = self;
        s.offset_low = offset.get_bits(BitRange::Span(0, 16)) as u16;
        s.offset_middle = offset.get_bits(BitRange::Span(16, 32)) as u16;
        s.offset_high = offset.get_bits(BitRange::Span(32, 64)) as u32;
        s
    }

    pub fn get_ss(&self) -> (r: u16)
        ensures
            r == self.segment_selector,
    {
        self.segment_selector
    }

    pub fn set_ss(self, val: u16) -> (r: InterruptDescriptor)
        ensures
            r == (InterruptDescriptor { segment_selector: val, ..self }),
    {
        let mut s = self;
        s.segment_selector = val;
        s
    }

    pub fn get_attribute(&self) -> (r: InterruptDescriptorAttribute)
        ensures
            r == self.attribute,
    {
        self.attribute
    }

    pub fn set_attribute(self, attr: InterruptDescriptorAttribute) -> (r: InterruptDescriptor)
        ensures
            r == (InterruptDescriptor { attribute: attr, ..self }),
    {
        let mut s = self;
        s.attribute = attr;
        s
    }
}

/// Law: splitting a handler offset over the three gate fields and
/// reassembling them recovers the offset.
pub proof fn lemma_gate_offset_roundtrip(handler_ptr: u64, cs: u16, attr: InterruptDescriptorAttribute)
    ensures
        spec_gate_descriptor(handler_ptr, cs, attr).spec_offset() == handler_ptr,
{
    let p = handler_ptr;
    assert(0u64.spec_set_bits(0, 16, (p.spec_get_bits(0, 16) as u16) as u64).spec_set_bits(
        16,
        32,
        (p.spec_get_bits(16, 32) as u16) as u64,
    ).spec_set_bits(32, 64, (p.spec_get_bits(32, 64) as u32) as u64) == p) by (bit_vector);
}

/// The vector-to-handler table: 256 gate descriptors, all starting out
/// unpopulated (present bit clear).
pub struct InterruptDescriptorTable {
    pub data: Vec<InterruptDescriptor>,
}

impl InterruptDescriptorTable {
    /// A full-size table.
    pub open spec fn wf(self) -> bool {
        self.data@.len() == 256
    }

    /// The entry serving vector `iv`.
    pub open spec fn entry(self, iv: int) -> InterruptDescriptor {
        self.data@[iv]
    }

    /// A table of 256 unpopulated entries.
    pub fn missing() -> (r: InterruptDescriptorTable)
        ensures
            r.wf(),
            forall|i: int| 0 <= i < 256 ==> r.entry(i) == spec_missing_descriptor(),
    {
        let mut data: Vec<InterruptDescriptor> = Vec::new();
        let mut i: usize = 0;
        while i < 256
            invariant
                i <= 256,
                data@.len() == i,
                forall|j: int| 0 <= j < i ==> data@[j] == spec_missing_descriptor(),
            decreases 256 - i,
        {
            data.push(InterruptDescriptor::missing());
            i = i + 1;
        }
        InterruptDescriptorTable { data }
    }

    /// Routes vector `iv` to `handler_ptr` through code segment `cs`.
    pub fn set_handler(
        &mut self,
        iv: u8,
        handler_ptr: u64,
        cs: u16,
        attr: InterruptDescriptorAttribute,
    )
        requires
            old(self).wf(),
        ensures
            final(self).wf(),
            final(self).data@ == old(self).data@.update(
                iv as int,
                spec_gate_descriptor(handler_ptr, cs, attr),
            ),
    {
        self.set_descriptor(iv, InterruptDescriptor::new(handler_ptr, cs, attr));
    }

    /// Stores a descriptor at vector `iv`.
    pub fn set_descriptor(&mut self, iv: u8, desc: InterruptDescriptor)
        requires
            old(self).wf(),
        ensures
            final(self).wf(),
            final(self).data@ == old(self).data@.update(iv as int, desc),
    {
        self.data.set(iv as usize, desc);
    }

    /// The pointer structure the privileged table-load instruction takes:
    /// the table's byte size minus one, and its linear address. The address
    /// is where the caller has placed the 16-byte entries.
    pub fn as_ptr(&self, base: u64) -> (r: InterruptDescriptorTablePointer)
        requires
            self.wf(),
        ensures
            r.limit == 4095,
            r.offset == base,
    {
        InterruptDescriptorTablePointer { limit: 16 * 256 - 1, offset: base, _reserved: [0, 0, 0, 0, 0] }
    }
}

/// The operand of the privileged table-load instruction: limit (byte size
/// minus one) and linear address of the table.
pub struct InterruptDescriptorTablePointer {
    pub limit: u16,
    pub offset: u64,
    pub _reserved: [u16; 5],
}

impl InterruptDescriptorTablePointer {
    pub fn set_limit(self, limit: u16) -> (r: InterruptDescriptorTablePointer)
        ensures
            r.limit == limit,
            r.offset == self.offset,
    {
        let mut s = self;
        s.limit = limit;
        s
    }

    pub fn set_offset(self, offset: u64) -> (r: InterruptDescriptorTablePointer)
        ensures
            r.limit == self.limit,
            r.offset == offset,
    {
        let mut s = self;
        s.offset = offset;
        s
    }
}

/// The CPU vectors this kernel populates: the faults it treats as fatal,
/// the breakpoint vector, and the one device vector reserved for the xHCI
/// controller.
#[derive(Clone, Copy, PartialEq, Eq, Structural, Debug)]
pub enum InterruptVector {
    DivideByZeroError,
    Breakpoint,
    DoubleFault,
    InvalidTss,
    SegmentNotPresent,
    Stack,
    GeneralProtection,
    PageFault,
    XHCI,
}

impl InterruptVector {
    /// The hardware vector number.
    pub open spec fn spec_vector_number(self) -> u8 {
        match self {
            InterruptVector::DivideByZeroError => 0x00,
            InterruptVector::Breakpoint => 0x03,
            InterruptVector::DoubleFault => 0x08,
            InterruptVector::InvalidTss => 0x0a,
            InterruptVector::SegmentNotPresent => 0x0b,
            InterruptVector::Stack => 0x0c,
            InterruptVector::GeneralProtection => 0x0d,
            InterruptVector::PageFault => 0x0e,
            InterruptVector::XHCI => 0x40,
        }
    }

    pub fn vector_number(self) -> (r: u8)
        ensures
            r == self.spec_vector_number(),
    {
        match self {
            InterruptVector::DivideByZeroError => 0x00,
            InterruptVector::Breakpoint => 0x03,
            InterruptVector::DoubleFault => 0x08,
            InterruptVector::InvalidTss => 0x0a,
            InterruptVector::SegmentNotPresent => 0x0b,
            InterruptVector::Stack => 0x0c,
            InterruptVector::GeneralProtection => 0x0d,
            InterruptVector::PageFault => 0x0e,
            InterruptVector::XHCI => 0x40,
        }
    }
}

/// What an interrupt pushes for the handler: the interrupted instruction
/// pointer, code segment, flags, stack pointer and stack segment.
#[derive(Clone, Copy, PartialEq, Eq, Structural, Debug)]
pub struct InterruptStackFrame {
    pub rip: u64,
    pub cs: u64,
    pub rflags: u64,
    pub rsp: u64,
    pub ss: u64,
}

/// The handler entry points init_idt routes vectors to. On hardware these
/// are the addresses of the interrupt-service routines; the shell around
/// the library supplies them.
#[derive(Clone, Copy, PartialEq, Eq, Structural, Debug)]
pub struct InterruptHandlerAddresses {
    pub divide_by_zero: u64,
    pub breakpoint: u64,
    pub double_fault: u64,
    pub invalid_tss: u64,
    pub segment_not_present: u64,
    pub stack_segment_fault: u64,
    pub general_protection_fault: u64,
    pub page_fault: u64,
    pub xhc: u64,
}

/// The attribute every populated entry carries: an interrupt gate at
/// privilege level 0, present.
pub open spec fn spec_populated_attribute() -> InterruptDescriptorAttribute {
    InterruptDescriptorAttribute {
        data: 0u16.spec_set_bits(8, 12, GATE_TYPE_INTERRUPT as u16).spec_set_bits(
            13,
            15,
            0,
        ).spec_set_bit(15, true),
    }
}

/// The table after initialization: each populated vector routed to its
/// handler through `cs` as an interrupt gate, everything else untouched.
pub open spec fn spec_initialized_idt(
    table: Seq<InterruptDescriptor>,
    cs: u16,
    handlers: InterruptHandlerAddresses,
) -> Seq<InterruptDescriptor> {
    let attr = spec_populated_attribute();
    table.update(0x40, spec_gate_descriptor(handlers.xhc, cs, attr)).update(
        0x00,
        spec_gate_descriptor(handlers.divide_by_zero, cs, attr),
    ).update(0x03, spec_gate_descriptor(handlers.breakpoint, cs, attr)).update(
        0x08,
        spec_gate_descriptor(handlers.double_fault, cs, attr),
    ).update(0x0a, spec_gate_descriptor(handlers.invalid_tss, cs, attr)).update(
        0x0b,
        spec_gate_descriptor(handlers.segment_not_present, cs, attr),
    ).update(0x0c, spec_gate_descriptor(handlers.stack_segment_fault, cs, attr)).update(
        0x0d,
        spec_gate_descriptor(handlers.general_protection_fault, cs, attr),
    ).update(0x0e, spec_gate_descriptor(handlers.page_fault, cs, attr))
}

/// Populates the guarded table: the eight exception vectors this kernel
/// handles and the xHCI device vector, each as a present interrupt gate at
/// privilege level 0 routed through `cs`. Runs once during initialization,
/// before interrupts are unmasked; the caller then loads the table into
/// the CPU. The lock must be free: initialization is the only writer.
pub fn init_idt(
    idt: &mut SpinMutex<InterruptDescriptorTable>,
    cs: u16,
    handlers: &InterruptHandlerAddresses,
)
    requires
        old(idt).wf(),
        !old(idt).is_locked(),
        old(idt).value().wf(),
    ensures
        final(idt).wf(),
        !final(idt).is_locked(),
        final(idt).value().wf(),
        final(idt).value().data@ == spec_initialized_idt(old(idt).value().data@, cs, *handlers),
{
    let mut guard = idt.lock();
    let attr = InterruptDescriptorAttribute::missing().set_type(GATE_TYPE_INTERRUPT).set_dpl(
        0,
    ).set_present(true);
    proof {
        assert(attr == spec_populated_attribute());
    }
    guard.data.set_handler(InterruptVector::XHCI.vector_number(), handlers.xhc, cs, attr);
    guard.data.set_handler(
        InterruptVector::DivideByZeroError.vector_number(),
        handlers.divide_by_zero,
        cs,
        attr,
    );
    guard.data.set_handler(InterruptVector::Breakpoint.vector_number(), handlers.breakpoint, cs, attr);
    guard.data.set_handler(
        InterruptVector::DoubleFault.vector_number(),
        handlers.double_fault,
        cs,
        attr,
    );
    guard.data.set_handler(InterruptVector::InvalidTss.vector_number(), handlers.invalid_tss, cs, attr);
    guard.data.set_handler(
        InterruptVector::SegmentNotPresent.vector_number(),
        handlers.segment_not_present,
        cs,
        attr,
    );
    guard.data.set_handler(
        InterruptVector::Stack.vector_number(),
        handlers.stack_segment_fault,
        cs,
        attr,
    );
    guard.data.set_handler(
        InterruptVector::GeneralProtection.vector_number(),
        handlers.general_protection_fault,
        cs,
        attr,
    );
    guard.data.set_handler(InterruptVector::PageFault.vector_number(), handlers.page_fault, cs, attr);
    guard.unlock(idt);
}

} // verus!
