use gen_slots::errors::StaleHandleError;
use gen_slots::pointer::Allocator;

struct WithId {
    id: usize,
}

#[test]
fn scenario_pointer_allocate_free_reuse() {
    // Allocate A with value {id:42}: it is live and dereferences to 42.
    // After free(A) it is dead.  The next allocation reuses A's freed
    // address with the next generation.
    let mut allocator = Allocator::<WithId>::default();

    let a = allocator.new(WithId { id: 42 });
    assert!(a.is_live(&allocator));
    assert_eq!(a.deref(&allocator).id, 42);

    assert!(allocator.free(&a).is_ok());
    assert!(!a.is_live(&allocator));

    let b = allocator.new(WithId { id: 1 });
    assert_eq!(b.get_addr(), a.get_addr());
    assert_eq!(b.get_generation(), a.get_generation() + 1);
    assert!(b.is_live(&allocator));
    assert!(!a.is_live(&allocator));
}

#[test]
fn pointer_double_free_is_reported() {
    let mut allocator = Allocator::<WithId>::default();
    let a = allocator.new(WithId { id: 1 });
    assert_eq!(allocator.free(&a), Ok(()));
    assert_eq!(allocator.free(&a), Err(StaleHandleError));
}

#[test]
fn pointer_write_through_handle_reads_back() {
    let mut allocator = Allocator::<WithId>::default();
    let a = allocator.new(WithId { id: 5 });
    a.deref_mut(&mut allocator).id = 6;
    assert_eq!(a.deref(&allocator).id, 6);
}

#[test]
fn pointer_handle_stays_live_across_other_allocations() {
    let mut allocator = Allocator::<WithId>::default();
    let a = allocator.new(WithId { id: 1 });
    let b = allocator.new(WithId { id: 2 });
    assert!(allocator.free(&b).is_ok());
    let c = allocator.new(WithId { id: 3 });
    assert!(a.is_live(&allocator));
    assert!(c.is_live(&allocator));
    assert!(!b.is_live(&allocator));
    assert_eq!(a.deref(&allocator).id, 1);
}
