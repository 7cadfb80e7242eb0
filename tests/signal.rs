use aux_firmware::signal::Signal;

#[test]
fn second_write_wins() {
    let mut s = Signal::new();
    s.write(1u32);
    s.write(2u32);
    assert_eq!(s.try_read(), Some(2));
    assert_eq!(s.try_read(), None);
}

#[test]
fn poll_after_write_returns_at_once() {
    let mut s = Signal::new();
    assert!(!s.write(5u8));
    assert_eq!(s.poll_fresh(), Some(5));
    assert_eq!(s.try_read(), None);
}

#[test]
fn waiting_reader_is_woken_once() {
    let mut s = Signal::new();
    assert_eq!(s.poll_fresh(), None);
    assert!(s.write(9u8));
    assert!(!s.write(10u8));
    assert_eq!(s.poll_fresh(), Some(10));
}

#[test]
fn clear_discards_pending_value() {
    let mut s = Signal::new();
    s.write(3i32);
    assert!(s.is_pending());
    s.clear();
    assert!(!s.is_pending());
    assert_eq!(s.try_read(), None);
}
