use potatos::bit_field::{BitField, BitRange, to_regular_range};

#[test]
fn get_bit_reads_single_bits() {
    let x: u32 = 0b1010_0001;
    assert!(x.get_bit(0));
    assert!(!x.get_bit(1));
    assert!(x.get_bit(5));
    assert!(x.get_bit(7));
    assert!(!x.get_bit(31));
}

#[test]
fn set_bit_sets_and_clears() {
    let mut x: u32 = 0;
    x.set_bit(31, true);
    assert_eq!(x, 0x8000_0000);
    x.set_bit(0, true);
    assert_eq!(x, 0x8000_0001);
    x.set_bit(31, false);
    assert_eq!(x, 1);
}

#[test]
fn get_bits_extracts_right_aligned() {
    let x: u32 = 0x1234_5678;
    assert_eq!(x.get_bits(BitRange::Span(0, 8)), 0x78);
    assert_eq!(x.get_bits(BitRange::Span(8, 16)), 0x56);
    assert_eq!(x.get_bits(BitRange::Span(16, 24)), 0x34);
    assert_eq!(x.get_bits(BitRange::Span(24, 32)), 0x12);
    assert_eq!(x.get_bits(BitRange::SpanFull), x);
    assert_eq!(x.get_bits(BitRange::Span(4, 4)), 0);
}

#[test]
fn set_bits_places_field() {
    let mut x: u32 = 0;
    x.set_bits(BitRange::Span(16, 24), 0xab);
    assert_eq!(x, 0x00ab_0000);
    x.set_bits(BitRange::Span(0, 8), 0xcd);
    assert_eq!(x, 0x00ab_00cd);
}

#[test]
fn set_then_get_returns_value_masked_to_width() {
    // a value wider than the field is masked to the field's width
    let mut x: u32 = 0;
    x.set_bits(BitRange::Span(4, 8), 0xff);
    assert_eq!(x.get_bits(BitRange::Span(4, 8)), 0x0f);
    assert_eq!(x, 0x0000_00f0);
}

#[test]
fn writes_never_disturb_disjoint_ranges() {
    let mut x: u32 = 0xdead_beef;
    let low_before = x.get_bits(BitRange::Span(0, 12));
    let high_before = x.get_bits(BitRange::Span(20, 32));
    x.set_bits(BitRange::Span(12, 20), 0x5a);
    assert_eq!(x.get_bits(BitRange::Span(0, 12)), low_before);
    assert_eq!(x.get_bits(BitRange::Span(20, 32)), high_before);
    assert_eq!(x.get_bits(BitRange::Span(12, 20)), 0x5a);
}

#[test]
fn all_widths_agree_on_the_same_field() {
    let mut a: u8 = 0;
    let mut b: u16 = 0;
    let mut c: u32 = 0;
    let mut d: u64 = 0;
    a.set_bits(BitRange::Span(2, 6), 0b1011);
    b.set_bits(BitRange::Span(2, 6), 0b1011);
    c.set_bits(BitRange::Span(2, 6), 0b1011);
    d.set_bits(BitRange::Span(2, 6), 0b1011);
    assert_eq!(a as u64, 0b101100);
    assert_eq!(b as u64, 0b101100);
    assert_eq!(c as u64, 0b101100);
    assert_eq!(d, 0b101100);
}

#[test]
fn u64_full_width_roundtrip() {
    let mut x: u64 = 0;
    x.set_bits(BitRange::SpanFull, 0xfedc_ba98_7654_3210);
    assert_eq!(x, 0xfedc_ba98_7654_3210);
    assert_eq!(x.get_bits(BitRange::Span(32, 64)), 0xfedc_ba98);
}

#[test]
fn range_forms_normalize_identically() {
    assert_eq!(to_regular_range(BitRange::Span(3, 9), 32), (3, 9));
    assert_eq!(to_regular_range(BitRange::SpanInclusive(3, 8), 32), (3, 9));
    assert_eq!(to_regular_range(BitRange::SpanFrom(3), 32), (3, 32));
    assert_eq!(to_regular_range(BitRange::SpanTo(9), 32), (0, 9));
    assert_eq!(to_regular_range(BitRange::SpanToInclusive(8), 32), (0, 9));
    assert_eq!(to_regular_range(BitRange::SpanFull, 32), (0, 32));
}

#[test]
fn inclusive_and_half_open_agree() {
    let x: u16 = 0xbeef;
    assert_eq!(
        x.get_bits(BitRange::Span(4, 12)),
        x.get_bits(BitRange::SpanInclusive(4, 11))
    );
}
