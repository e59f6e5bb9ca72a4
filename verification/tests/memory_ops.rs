use gen_slots::errors::StaleHandleError;
use gen_slots::memory::{BoxAllocator, GIABoxUninit, InPlaceAllocator};

struct Entity {
    id: usize,
    is_active: bool,
    name: String,
}

impl Default for Entity {
    fn default() -> Self {
        Self { id: 0, is_active: false, name: "".to_string() }
    }
}

#[test]
fn test_generational_pointer_array_allocate() {
    let mut gpa = GIABoxUninit::<Entity>::default();
    let entity_handle = gpa.new(Entity::default());

    // Try initialize it
    {
        let entity_ref = gpa.get_mut(&entity_handle);
        assert!(entity_ref.is_some());
        let entity_ref = entity_ref.unwrap();

        entity_ref.id = 42;
        entity_ref.name = "test1".to_owned();
        entity_ref.is_active = true;
    }

    // Check that lookup works properly, we're looking up the same entity
    // that was initialized in the step before
    {
        let entity_ref = gpa.get(&entity_handle);
        assert!(entity_ref.is_some());
        let entity_ref = entity_ref.unwrap();
        assert_eq!(entity_ref.id, 42);
        assert_eq!(entity_ref.name.as_str(), "test1");
        assert_eq!(entity_ref.is_active, true);
    }
}

#[test]
fn test_generational_pointer_array_free() {
    let mut gpa = GIABoxUninit::<Entity>::default();
    let entity_handle = gpa.new(Entity::default());

    assert!(gpa.get(&entity_handle).is_some());
    assert!(gpa.free(&entity_handle).is_ok());
    assert!(gpa.get(&entity_handle).is_none());
}

#[test]
fn test_generational_pointer_array_double_free() {
    let mut gpa = GIABoxUninit::<Entity>::default();
    let entity_handle = gpa.new(Entity::default());

    assert_eq!(gpa.free(&entity_handle), Ok(()));
    // The second free of the same handle must fail, never silently pass.
    assert_eq!(gpa.free(&entity_handle), Err(StaleHandleError));
}

#[test]
fn test_mem_alloc_get_ptr() {
    let mut allocator = BoxAllocator::<Entity>::default();

    let entity = allocator.new(Entity {
        name: "Example1".to_string(),
        is_active: true,
        id: 42,
    });

    // Check that initialization works properly
    {
        let entity_ref = entity.deref(&allocator);
        assert_eq!(entity_ref.name.as_str(), "Example1");
        assert_eq!(entity_ref.is_active, true);
        assert_eq!(entity_ref.id, 42);
    }

    // Check that the EntityPtr knows when it's dead
    assert!(entity.is_live(&allocator));
    assert!(allocator.free(&entity).is_ok());
    assert!(!entity.is_live(&allocator));
}

#[test]
fn box_allocator_write_through_handle() {
    let mut allocator = BoxAllocator::<Entity>::default();
    let entity = allocator.new(Entity::default());

    {
        let entity_ref = entity.deref_mut(&mut allocator);
        entity_ref.id = 7;
        entity_ref.name = "renamed".to_owned();
    }

    let entity_ref = entity.deref(&allocator);
    assert_eq!(entity_ref.id, 7);
    assert_eq!(entity_ref.name.as_str(), "renamed");
}

#[test]
fn box_allocator_reuses_freed_block() {
    let mut allocator = BoxAllocator::<u64>::default();
    let a = allocator.new(1);
    assert!(allocator.free(&a).is_ok());
    let b = allocator.new(2);
    assert_eq!(b.get_addr(), a.get_addr());
    assert_eq!(b.get_generation(), a.get_generation() + 1);
    assert!(!a.is_live(&allocator));
    assert!(b.is_live(&allocator));
}

#[test]
fn test_inplace_mem_alloc_alloc() {
    let mut inplace_alloc = InPlaceAllocator::<Entity>::default();
    let entity_handle = inplace_alloc.new(Entity::default());
    {
        let entity_ref = inplace_alloc.get(&entity_handle);
        entity_ref.id = 42;
        entity_ref.is_active = true;
        entity_ref.name = "test".to_owned();
    }

    let entity_ref = inplace_alloc.get(&entity_handle);
    assert_eq!(entity_ref.id, 42);
    assert_eq!(entity_ref.is_active, true);
    assert_eq!(entity_ref.name.as_str(), "test");
}

#[test]
fn test_inplace_mem_alloc_free() {
    let mut inplace_alloc = InPlaceAllocator::<Entity>::default();
    let entity_handle = inplace_alloc.new(Entity::default());
    assert!(inplace_alloc.is_live(&entity_handle));
    assert!(inplace_alloc.free(&entity_handle).is_ok());
    assert!(!inplace_alloc.is_live(&entity_handle));
}

#[test]
#[should_panic]
fn test_inplace_mem_alloc_get_free() {
    let mut inplace_alloc = InPlaceAllocator::<Entity>::default();
    let entity_handle = inplace_alloc.new(Entity::default());

    assert!(inplace_alloc.is_live(&entity_handle));
    assert!(inplace_alloc.free(&entity_handle).is_ok());
    inplace_alloc.get(&entity_handle); // boom
}

#[test]
fn inplace_double_free_is_reported() {
    let mut inplace_alloc = InPlaceAllocator::<u32>::default();
    let h = inplace_alloc.new(3);
    assert_eq!(inplace_alloc.free(&h), Ok(()));
    assert_eq!(inplace_alloc.free(&h), Err(StaleHandleError));
}

#[test]
fn inplace_reuses_most_recently_freed_slot() {
    let mut inplace_alloc = InPlaceAllocator::<u32>::default();
    let a = inplace_alloc.new(1);
    let b = inplace_alloc.new(2);
    assert!(inplace_alloc.free(&a).is_ok());
    assert!(inplace_alloc.free(&b).is_ok());
    // The free list is a stack: b's slot, freed last, is reused first.
    let c = inplace_alloc.new(3);
    assert_eq!(c.get_index(), b.get_index());
    let d = inplace_alloc.new(4);
    assert_eq!(d.get_index(), a.get_index());
    assert_eq!(*inplace_alloc.get(&c), 3);
    assert_eq!(*inplace_alloc.get(&d), 4);
}
