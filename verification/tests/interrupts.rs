use potatos::interrupts::{
    init_idt, InterruptDescriptor, InterruptDescriptorAttribute, InterruptDescriptorTable,
    InterruptHandlerAddresses, InterruptVector, GATE_TYPE_INTERRUPT,
};
use potatos::sync::SpinMutex;

#[test]
fn attribute_fields_are_independent() {
    let attr = InterruptDescriptorAttribute::missing()
        .set_type(GATE_TYPE_INTERRUPT)
        .set_dpl(0)
        .set_present(true);
    assert_eq!(attr.get_type(), 14);
    assert_eq!(attr.get_dpl(), 0);
    assert!(attr.get_present());
    assert_eq!(attr.get_ist(), 0);
    assert_eq!(attr.data, 0x8e00);

    let attr = attr.set_ist(5).set_dpl(3);
    assert_eq!(attr.get_ist(), 5);
    assert_eq!(attr.get_dpl(), 3);
    assert_eq!(attr.get_type(), 14);
}

#[test]
fn missing_attribute_is_not_present() {
    assert!(!InterruptDescriptorAttribute::missing().get_present());
}

#[test]
fn descriptor_splits_offset_across_three_fields() {
    let attr = InterruptDescriptorAttribute::missing().set_present(true);
    let desc = InterruptDescriptor::new(0x1234_5678_9abc_def0, 0x08, attr);
    assert_eq!(desc.offset_low, 0xdef0);
    assert_eq!(desc.offset_middle, 0x9abc);
    assert_eq!(desc.offset_high, 0x1234_5678);
    assert_eq!(desc.get_ss(), 0x08);
    assert_eq!(desc.get_offset(), 0x1234_5678_9abc_def0);
}

#[test]
fn descriptor_set_offset_roundtrip() {
    let desc = InterruptDescriptor::missing().set_offset(0xffff_0000_1111_2222);
    assert_eq!(desc.get_offset(), 0xffff_0000_1111_2222);
}

#[test]
fn init_idt_populates_exactly_the_nine_vectors() {
    let idt = SpinMutex::new(InterruptDescriptorTable::missing());
    let mut idt = idt;
    let handlers = InterruptHandlerAddresses {
        divide_by_zero: 0x1000,
        breakpoint: 0x1003,
        double_fault: 0x1008,
        invalid_tss: 0x100a,
        segment_not_present: 0x100b,
        stack_segment_fault: 0x100c,
        general_protection_fault: 0x100d,
        page_fault: 0x100e,
        xhc: 0x1040,
    };
    init_idt(&mut idt, 0x10, &handlers);
    let guard = idt.lock();
    let table = &guard.data;
    let expectations: [(u8, u64); 9] = [
        (0x00, 0x1000),
        (0x03, 0x1003),
        (0x08, 0x1008),
        (0x0a, 0x100a),
        (0x0b, 0x100b),
        (0x0c, 0x100c),
        (0x0d, 0x100d),
        (0x0e, 0x100e),
        (0x40, 0x1040),
    ];
    for &(vector, handler) in expectations.iter() {
        let entry = table.data[vector as usize];
        assert_eq!(entry.get_offset(), handler);
        assert_eq!(entry.get_ss(), 0x10);
        let attr = entry.get_attribute();
        assert!(attr.get_present());
        assert_eq!(attr.get_type(), GATE_TYPE_INTERRUPT);
        assert_eq!(attr.get_dpl(), 0);
    }
    // every other vector is still missing (present bit clear)
    for i in 0..256usize {
        if !expectations.iter().any(|&(v, _)| v as usize == i) {
            assert!(!table.data[i].get_attribute().get_present());
        }
    }
}

#[test]
fn vector_numbers_match_the_hardware_table() {
    assert_eq!(InterruptVector::DivideByZeroError.vector_number(), 0x00);
    assert_eq!(InterruptVector::Breakpoint.vector_number(), 0x03);
    assert_eq!(InterruptVector::DoubleFault.vector_number(), 0x08);
    assert_eq!(InterruptVector::InvalidTss.vector_number(), 0x0a);
    assert_eq!(InterruptVector::SegmentNotPresent.vector_number(), 0x0b);
    assert_eq!(InterruptVector::Stack.vector_number(), 0x0c);
    assert_eq!(InterruptVector::GeneralProtection.vector_number(), 0x0d);
    assert_eq!(InterruptVector::PageFault.vector_number(), 0x0e);
    assert_eq!(InterruptVector::XHCI.vector_number(), 0x40);
}

#[test]
fn table_pointer_carries_size_and_base() {
    let table = InterruptDescriptorTable::missing();
    let ptr = table.as_ptr(0xdead_0000);
    assert_eq!(ptr.limit, 4095);
    assert_eq!(ptr.offset, 0xdead_0000);
    let ptr = ptr.set_limit(127).set_offset(0x1234);
    assert_eq!(ptr.limit, 127);
    assert_eq!(ptr.offset, 0x1234);
}
