use potatos::fixed_vec::{FixedVec, FixedVecError};

#[test]
fn push_and_pop_are_lifo() {
    let mut v: FixedVec<u32, 4> = FixedVec::new();
    assert_eq!(v.len(), 0);
    v.push(1);
    v.push(2);
    v.push(3);
    assert_eq!(v.len(), 3);
    assert_eq!(v.pop(), 3);
    assert_eq!(v.pop(), 2);
    assert_eq!(v.len(), 1);
}

#[test]
fn try_push_reports_full_at_capacity() {
    let mut v: FixedVec<u32, 2> = FixedVec::new();
    assert_eq!(v.try_push(10), Ok(()));
    assert_eq!(v.try_push(20), Ok(()));
    assert_eq!(v.try_push(30), Err(FixedVecError::Full));
    assert_eq!(v.len(), 2);
    assert_eq!(*v.get(0), 10);
    assert_eq!(*v.get(1), 20);
}

#[test]
fn try_pop_reports_empty() {
    let mut v: FixedVec<u32, 2> = FixedVec::new();
    assert_eq!(v.try_pop(), Err(FixedVecError::Empty));
    v.push(5);
    assert_eq!(v.try_pop(), Ok(5));
    assert_eq!(v.try_pop(), Err(FixedVecError::Empty));
}

#[test]
fn try_get_reports_out_of_range() {
    let mut v: FixedVec<u32, 4> = FixedVec::new();
    v.push(7);
    assert_eq!(v.try_get(0).ok().copied(), Some(7));
    assert!(matches!(v.try_get(1), Err(FixedVecError::IndexOutOfRange)));
}

#[test]
fn set_replaces_in_place() {
    let mut v: FixedVec<u32, 4> = FixedVec::new();
    v.push(1);
    v.push(2);
    v.set(0, 9);
    assert_eq!(v.as_slice(), &[9, 2]);
}

#[test]
fn iter_yields_items_in_order_then_none() {
    let mut v: FixedVec<u32, 4> = FixedVec::new();
    v.push(1);
    v.push(2);
    v.push(3);
    let mut it = v.iter();
    assert_eq!(it.next().copied(), Some(1));
    assert_eq!(it.next().copied(), Some(2));
    assert_eq!(it.next().copied(), Some(3));
    assert!(it.next().is_none());
}
