use gen_slots::arrays::{GIAUninitCell, GenerationalIndexArray, GenerationalIndexArrayCell};
use gen_slots::errors::StaleHandleError;
use gen_slots::table::GenerationalIndex;

/// Dummy implementation of an entity for testing purposes
#[derive(Debug, Default)]
struct Entity {
    _id: GenerationalIndex,
    name: String,
    _is_active: bool,
}

#[test]
fn test_kyren_get_array() {
    let mut generational_array = GenerationalIndexArray::<Entity>::default();

    let entity = Entity {
        name: "Entity1".to_string(),
        _is_active: true,
        _id: GenerationalIndex::default(),
    };

    let index = generational_array.new(entity);

    let entity_ref = generational_array.get(&index);
    assert!(entity_ref.is_some());
    let entity_ref = generational_array.get_mut(&index);
    assert!(entity_ref.is_some());
}

#[test]
fn test_kyren_free_array() {
    let mut generational_array = GenerationalIndexArray::<Entity>::default();
    let entity1 = Entity {
        name: "Entity1".to_string(),
        _is_active: true,
        _id: GenerationalIndex::default(),
    };

    let index = generational_array.new(entity1);
    let entity_ref = generational_array.get(&index);
    assert!(entity_ref.is_some());

    assert!(generational_array.free(&index).is_ok());
    let entity_ref = generational_array.get(&index);
    assert!(entity_ref.is_none());
}

#[test]
fn test_kyren_replacement_array() {
    let mut generational_array = GenerationalIndexArray::<Entity>::default();
    let entity1 = Entity {
        name: "Entity1".to_string(),
        _is_active: true,
        _id: GenerationalIndex::default(),
    };

    let entity2 = Entity {
        name: "Entity2".to_string(),
        _is_active: true,
        _id: GenerationalIndex::default(),
    };

    let index = generational_array.new(entity1);
    assert!(generational_array.free(&index).is_ok());

    let index = generational_array.new(entity2);
    let entity_ref = generational_array.get(&index);

    assert!(entity_ref.is_some());
    let entity_ref = entity_ref.unwrap();
    assert_eq!(entity_ref.name, "Entity2".to_string());
}

#[test]
fn test_kyren_ptr_array() {
    let mut allocator: GenerationalIndexArrayCell<Entity> =
        GenerationalIndexArrayCell::default();

    let genid1 = allocator.new(Entity {
        name: "e1".to_string(),
        _is_active: false,
        _id: GenerationalIndex::default(),
    });
    let genid2 = allocator.new(Entity {
        name: "e2".to_string(),
        _is_active: false,
        _id: GenerationalIndex::default(),
    });

    let entity1 = allocator.get_mut(&genid1).unwrap();
    entity1._is_active = true;
    let entity2 = allocator.get_mut(&genid2).unwrap();
    entity2._is_active = true;

    assert_eq!(allocator.get(&genid1).unwrap().name.as_str(), "e1");
    assert_eq!(allocator.get(&genid2).unwrap().name.as_str(), "e2");
}

#[test]
fn test_uninit_cell_gia() {
    let mut uninit_cell_gia = GIAUninitCell::<MemEntity>::default();
    let entity1 = MemEntity { name: "entity1".to_string(), id: 0, is_active: true };

    let idx1 = uninit_cell_gia.new(entity1);

    assert!(uninit_cell_gia.is_live(&idx1));

    // Accessing the entity
    {
        let entity = uninit_cell_gia.get_mut(&idx1).unwrap();
        entity.id = 42;
        entity.is_active = true;
    }

    // deleting entity
    assert!(uninit_cell_gia.free(&idx1).is_ok());

    assert!(!uninit_cell_gia.is_live(&idx1));
}

struct MemEntity {
    id: usize,
    is_active: bool,
    name: String,
}

#[test]
fn scenario_value_array_reuse() {
    // Allocate A and B, free A, allocate C: C takes A's slot with the next
    // generation; A answers absent, C answers present.
    let mut arr = GenerationalIndexArray::<i32>::default();

    let a = arr.new(10);
    let b = arr.new(20);
    assert_ne!(a.get_index(), b.get_index());

    assert!(arr.free(&a).is_ok());
    let c = arr.new(30);

    assert_eq!(c.get_index(), a.get_index());
    assert_eq!(c.get_generation(), a.get_generation() + 1);
    assert!(arr.get(&a).is_none());
    assert_eq!(arr.get(&c).copied(), Some(30));
    assert_eq!(arr.get(&b).copied(), Some(20));
}

#[test]
fn array_double_free_is_reported() {
    let mut arr = GenerationalIndexArray::<u8>::default();
    let h = arr.new(7);
    assert_eq!(arr.free(&h), Ok(()));
    assert_eq!(arr.free(&h), Err(StaleHandleError));
}

#[test]
fn array_write_through_get_mut_reads_back() {
    let mut arr = GenerationalIndexArray::<String>::default();
    let h = arr.new("before".to_string());
    *arr.get_mut(&h).unwrap() = "after".to_string();
    assert_eq!(arr.get(&h).unwrap().as_str(), "after");
}

#[test]
fn cell_array_free_and_double_free() {
    let mut arr = GenerationalIndexArrayCell::<u32>::default();
    let h = arr.new(1);
    assert_eq!(arr.get(&h).copied(), Some(1));
    assert_eq!(arr.free(&h), Ok(()));
    assert!(arr.get(&h).is_none());
    assert_eq!(arr.free(&h), Err(StaleHandleError));
}

#[test]
fn uninit_cell_double_free_is_reported() {
    let mut arr = GIAUninitCell::<u32>::default();
    let h = arr.new(5);
    assert_eq!(arr.free(&h), Ok(()));
    assert_eq!(arr.free(&h), Err(StaleHandleError));
}

#[test]
fn stress_array_interleaved_allocate_free() {
    let mut arr = GenerationalIndexArray::<usize>::default();
    let mut live: Vec<(GenerationalIndex, usize)> = Vec::new();
    let mut total_slots: usize = 0;
    let mut freed: usize = 0;

    for i in 0..10_000usize {
        if i % 3 == 0 && !live.is_empty() {
            let (victim, value) = live.remove((i * 7) % live.len());
            assert_eq!(arr.get(&victim).copied(), Some(value));
            assert!(arr.free(&victim).is_ok());
            assert!(arr.get(&victim).is_none());
            // Deliberate double-free injection: an error, never a panic.
            assert!(arr.free(&victim).is_err());
            freed += 1;
        } else {
            let handle = arr.new(i);
            assert!(arr.is_live(&handle));
            assert_eq!(arr.get(&handle).copied(), Some(i));
            if handle.get_index() + 1 > total_slots {
                total_slots = handle.get_index() + 1;
            }
            live.push((handle, i));
        }
        // Vacant (freed and not yet reused) plus live always covers every
        // slot ever created.
        assert_eq!((total_slots - live.len()) + live.len(), total_slots);
        assert!(live.len() + freed >= total_slots);
    }

    for (handle, value) in live.iter() {
        assert_eq!(arr.get(handle).copied(), Some(*value));
    }
}
