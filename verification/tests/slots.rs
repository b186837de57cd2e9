use loper_service::slots::{alloc_slot, free_slot, SlotTable};

#[test]
fn alloc_slot_hands_out_the_lowest_empty_slot() {
    let mut slots: Vec<Option<u32>> = vec![Some(1), None, Some(3), None];
    let (id, slot) = alloc_slot(&mut slots);
    assert_eq!(id, 1);
    assert!(slot.is_none());
    *slot = Some(2);
    assert_eq!(slots, vec![Some(1), Some(2), Some(3), None]);
}

#[test]
fn alloc_slot_appends_when_no_slot_is_empty() {
    let mut slots: Vec<Option<u32>> = vec![Some(1), Some(2)];
    let (id, slot) = alloc_slot(&mut slots);
    assert_eq!(id, 2);
    assert!(slot.is_none());
    assert_eq!(slots, vec![Some(1), Some(2), None]);
}

#[test]
fn alloc_slot_starts_an_empty_table_at_zero() {
    let mut slots: Vec<Option<u32>> = Vec::new();
    let (id, slot) = alloc_slot(&mut slots);
    assert_eq!(id, 0);
    *slot = Some(7);
    assert_eq!(slots, vec![Some(7)]);
}

#[test]
fn free_slot_empties_an_inner_slot_in_place() {
    let mut slots: Vec<Option<u32>> = vec![Some(1), Some(2), Some(3)];
    free_slot(&mut slots, 1);
    assert_eq!(slots, vec![Some(1), None, Some(3)]);
}

#[test]
fn free_slot_trims_trailing_empty_slots() {
    let mut slots: Vec<Option<u32>> = vec![Some(1), None, None, Some(4)];
    free_slot(&mut slots, 3);
    assert_eq!(slots, vec![Some(1)]);
}

#[test]
fn free_slot_of_the_only_slot_leaves_an_empty_table() {
    let mut slots: Vec<Option<u32>> = vec![Some(1)];
    free_slot(&mut slots, 0);
    assert_eq!(slots, Vec::<Option<u32>>::new());
}

#[test]
fn free_slot_trims_down_to_nothing() {
    let mut slots: Vec<Option<u32>> = vec![None, None, Some(3)];
    free_slot(&mut slots, 2);
    assert_eq!(slots, Vec::<Option<u32>>::new());
}

#[test]
fn free_slot_ignores_a_handle_outside_the_table() {
    let mut slots: Vec<Option<u32>> = vec![Some(1), None];
    free_slot(&mut slots, 2);
    assert_eq!(slots, vec![Some(1), None]);
    free_slot(&mut slots, usize::MAX);
    assert_eq!(slots, vec![Some(1), None]);
    let mut empty: Vec<Option<u32>> = Vec::new();
    free_slot(&mut empty, 0);
    assert_eq!(empty, Vec::<Option<u32>>::new());
}

#[test]
fn free_slot_of_an_inner_slot_does_not_trim() {
    let mut slots: Vec<Option<u32>> = vec![Some(1), None];
    free_slot(&mut slots, 0);
    assert_eq!(slots, vec![None, None]);
}

#[test]
fn slot_table_reuses_the_highest_handle() {
    let mut table: SlotTable<&str> = SlotTable::new();
    assert_eq!(table.allocate("a"), 0);
    assert_eq!(table.allocate("b"), 1);
    assert_eq!(table.allocate("c"), 2);
    table.free(2);
    assert_eq!(table.len(), 2);
    assert_eq!(table.allocate("d"), 2);
    assert_eq!(table.resolve(2), Some(&"d"));
}

#[test]
fn slot_table_does_not_reuse_the_highest_handle_over_a_hole() {
    let mut table: SlotTable<&str> = SlotTable::new();
    assert_eq!(table.allocate("a"), 0);
    assert_eq!(table.allocate("b"), 1);
    assert_eq!(table.allocate("c"), 2);
    table.free(1);
    table.free(2);
    assert_eq!(table.len(), 1);
    assert_eq!(table.allocate("d"), 1);
}

#[test]
fn slot_table_keeps_a_freed_inner_slot_until_the_higher_ones_are_freed() {
    let mut table: SlotTable<u8> = SlotTable::new();
    for value in 0..4u8 {
        assert_eq!(table.allocate(value), value as usize);
    }
    table.free(1);
    assert_eq!(table.len(), 4);
    assert_eq!(table.occupied(), 3);
    table.free(3);
    assert_eq!(table.len(), 3);
    table.free(2);
    assert_eq!(table.len(), 1);
    assert_eq!(table.occupied(), 1);
    assert_eq!(table.resolve(0), Some(&0));
}

#[test]
fn slot_table_hands_out_handles_in_exact_reuse_order() {
    let mut table: SlotTable<char> = SlotTable::new();
    assert_eq!(table.allocate('a'), 0);
    assert_eq!(table.allocate('b'), 1);
    assert_eq!(table.allocate('c'), 2);
    assert_eq!(table.allocate('d'), 3);
    table.free(2);
    table.free(0);
    assert_eq!(table.allocate('e'), 0);
    assert_eq!(table.allocate('f'), 2);
    assert_eq!(table.allocate('g'), 4);
    table.free(4);
    table.free(3);
    assert_eq!(table.len(), 3);
    assert_eq!(table.allocate('h'), 3);
    assert_eq!(table.resolve(0), Some(&'e'));
    assert_eq!(table.resolve(1), Some(&'b'));
    assert_eq!(table.resolve(2), Some(&'f'));
    assert_eq!(table.resolve(3), Some(&'h'));
}

#[test]
fn slot_table_resolves_only_live_handles() {
    let mut table: SlotTable<String> = SlotTable::new();
    assert_eq!(table.resolve(0), None);
    assert!(!table.contains(0));
    let first = table.allocate("one".to_string());
    let second = table.allocate("two".to_string());
    assert!(table.contains(first));
    assert_eq!(table.resolve(second).map(|s| s.as_str()), Some("two"));
    table.free(first);
    assert_eq!(table.resolve(first), None);
    assert!(!table.contains(first));
    assert_eq!(table.resolve(second).map(|s| s.as_str()), Some("two"));
    assert_eq!(table.resolve(2), None);
    assert_eq!(table.resolve(usize::MAX), None);
}

#[test]
fn slot_table_changes_a_value_in_place() {
    let mut table: SlotTable<Vec<u8>> = SlotTable::new();
    let id = table.allocate(vec![1]);
    let other = table.allocate(vec![9]);
    match table.resolve_mut(id) {
        Some(value) => value.push(2),
        None => panic!("the handle is live"),
    }
    assert_eq!(table.resolve(id), Some(&vec![1, 2]));
    assert_eq!(table.resolve(other), Some(&vec![9]));
    assert!(table.resolve_mut(5).is_none());
    table.free(id);
    assert!(table.resolve_mut(id).is_none());
}

#[test]
fn slot_table_does_not_resurrect_a_freed_value() {
    let mut table: SlotTable<&str> = SlotTable::new();
    let id = table.allocate("old");
    table.free(id);
    assert_eq!(table.len(), 0);
    assert_eq!(table.occupied(), 0);
    let again = table.allocate("new");
    assert_eq!(again, id);
    assert_eq!(table.resolve(again), Some(&"new"));
}

#[test]
fn slot_table_free_of_a_stale_handle_changes_nothing() {
    let mut table: SlotTable<u8> = SlotTable::new();
    table.allocate(1);
    table.allocate(2);
    table.allocate(3);
    table.free(1);
    table.free(1);
    assert_eq!(table.len(), 3);
    assert_eq!(table.occupied(), 2);
    table.free(7);
    assert_eq!(table.len(), 3);
    assert_eq!(table.occupied(), 2);
}
