use gen_slots::table::{GenerationalIndex, GenerationalIndices};

#[test]
fn test_kyren_get() {
    let mut generational_indices = GenerationalIndices::default();

    let new_index = generational_indices.new();
    assert_eq!(new_index.get_index(), 0, "First index should start at 0");
    assert_eq!(new_index.get_generation(), 0, "First index should start at 0");
}

#[test]
fn test_kyren_successive_gets() {
    let mut generational_indices = GenerationalIndices::default();

    let index_1 = generational_indices.new();
    let index_2 = generational_indices.new();

    assert!(index_1.get_index() != index_2.get_index());

    generational_indices.free(&index_1); // Index 1 should not be available now
    let index_1_new = generational_indices.new();

    assert_eq!(index_1_new.get_index(), index_1.get_index());
    assert_ne!(index_1_new.get_generation(), index_1.get_generation());
}

#[test]
fn test_kyren_is_alive() {
    let mut generational_indices = GenerationalIndices::default();

    let index = generational_indices.new();
    assert!(generational_indices.is_live(&index));
    generational_indices.free(&index);
    assert!(!generational_indices.is_live(&index));
}

#[test]
fn table_second_free_reports_false() {
    let mut table = GenerationalIndices::default();

    let index = table.new();
    assert!(table.free(&index));
    // The table has no stored value to protect, so the second free is a
    // normal, recoverable `false`, not an abort.
    assert!(!table.free(&index));
    assert!(!table.is_live(&index));
}

#[test]
fn table_reuse_changes_generation() {
    let mut table = GenerationalIndices::default();

    let a = table.new();
    assert!(table.free(&a));
    let b = table.new();
    assert_eq!(b.get_index(), a.get_index());
    assert_eq!(b.get_generation(), a.get_generation() + 1);
    assert!(!table.is_live(&a));
    assert!(table.is_live(&b));
}

#[test]
fn table_handle_stays_live_across_other_allocations() {
    let mut table = GenerationalIndices::default();

    let a = table.new();
    let b = table.new();
    let c = table.new();
    assert!(table.free(&b));
    let d = table.new(); // reuses b's slot
    assert!(table.is_live(&a));
    assert!(table.is_live(&c));
    assert!(table.is_live(&d));
    assert!(!table.is_live(&b));
}

#[test]
fn stress_interleaved_allocate_free() {
    let mut table = GenerationalIndices::default();
    let mut live: Vec<GenerationalIndex> = Vec::new();
    let mut total_slots: usize = 0;

    for i in 0..10_000usize {
        if i % 3 == 0 && !live.is_empty() {
            let victim = live.remove((i * 7) % live.len());
            assert!(table.is_live(&victim));
            assert!(table.free(&victim));
            assert!(!table.is_live(&victim));
            // Deliberate double-free injection: reported, never a panic.
            assert!(!table.free(&victim));
        } else {
            let handle = table.new();
            assert!(table.is_live(&handle));
            if handle.get_index() + 1 > total_slots {
                total_slots = handle.get_index() + 1;
            }
            live.push(handle);
        }
        // Free-list size plus live-slot count always equals total slots.
        assert_eq!(table.free.len() + live.len(), total_slots);
    }
}
