use potatos::init_once::InitOnce;

#[test]
fn init_runs_at_most_once() {
    let mut cell: InitOnce<u32> = InitOnce::default();
    assert!(!cell.is_initalized());
    cell.init(|| 5);
    assert!(cell.is_initalized());
    assert_eq!(cell.get().copied(), Some(5));
    // a second initialization changes nothing
    cell.init(|| 99);
    assert_eq!(cell.get().copied(), Some(5));
}

#[test]
fn set_rejects_a_second_value() {
    let mut cell: InitOnce<&str> = InitOnce::default();
    assert_eq!(cell.set("first"), Ok(()));
    assert_eq!(cell.set("second"), Err("second"));
    assert_eq!(cell.get().copied(), Some("first"));
}

#[test]
fn get_or_init_returns_the_stored_value() {
    let mut cell: InitOnce<u32> = InitOnce::default();
    let v = *cell.get_or_init::<_, ()>(|| 42);
    assert_eq!(v, 42);
    let v = *cell.get_or_init::<_, ()>(|| 7);
    assert_eq!(v, 42);
}

#[test]
fn get_or_try_init_propagates_the_error() {
    let mut cell: InitOnce<u32> = InitOnce::default();
    let r: Result<&u32, &str> = cell.get_or_try_init(|| Err("boom"));
    assert_eq!(r, Err("boom"));
    assert!(!cell.is_initalized());
    let r: Result<&u32, &str> = cell.get_or_try_init(|| Ok(3));
    assert_eq!(r.copied(), Ok(3));
    assert!(cell.is_initalized());
}

#[test]
fn take_and_into_inner_yield_the_value() {
    let mut cell: InitOnce<u32> = InitOnce::default();
    cell.init(|| 11);
    assert_eq!(cell.take(), Some(11));
    assert!(!cell.is_initalized());
    cell.init(|| 12);
    assert_eq!(cell.into_inner(), Some(12));
}
