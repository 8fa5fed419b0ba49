use dialpwm::util::raw_ptr::RawPtr;
use std::sync::atomic::{AtomicU8, Ordering};

#[test]
fn clones_share_one_slot() {
    let a: RawPtr<AtomicU8> = RawPtr::new(AtomicU8::new(0));
    let b = a.clone();
    a.slot().store(0b101, Ordering::SeqCst);
    assert_eq!(b.slot().load(Ordering::SeqCst), 0b101);
    b.ptr.store(3, Ordering::SeqCst);
    assert_eq!(a.ptr.load(Ordering::SeqCst), 3);
}

#[test]
fn new_holds_initial_value() {
    let a: RawPtr<u8> = RawPtr::new(9);
    assert_eq!(*a.slot(), 9);
    assert_eq!(*a.clone().ptr, 9);
}
