use stake_list::error::ListError;
use stake_list::list::{Handle, List, MigrationState};

fn handle(tag: u8) -> Handle {
    Handle { bytes: [tag; 32] }
}

const DISC: [u8; 8] = [1, 2, 3, 4, 5, 6, 7, 8];

/// A zero-filled buffer with a fresh list of `item_size`-byte records.
fn fresh(item_size: u32, buffer_len: usize) -> (List, Vec<u8>) {
    let mut data = vec![0u8; buffer_len];
    let list = List::new(&DISC, item_size, handle(9), &mut data).unwrap();
    (list, data)
}

#[test]
fn new_on_zero_buffer_succeeds() {
    let mut data = vec![0u8; 20];
    let list = List::new(&DISC, 4, handle(9), &mut data).unwrap();
    assert_eq!(list.len(), 0);
    assert!(list.is_empty());
    assert_eq!(list.item_size(), 4);
    assert!(!list.is_changing_account());
    assert_eq!(list.capacity(data.len()).unwrap(), 3);
    assert_eq!(&data[0..8], &DISC);
    assert_eq!(&data[8..], &[0u8; 12]);
}

#[test]
fn new_short_buffer_fails_size_error() {
    let mut data = vec![0u8; 7];
    let before = data.clone();
    let r = List::new(&DISC, 4, handle(9), &mut data);
    assert_eq!(r.unwrap_err(), ListError::SizeError);
    assert_eq!(data, before);
}

#[test]
fn new_initialized_buffer_fails_state_error() {
    let mut data = vec![0u8; 20];
    data[3] = 7;
    let before = data.clone();
    let r = List::new(&DISC, 4, handle(9), &mut data);
    assert_eq!(r.unwrap_err(), ListError::StateError);
    assert_eq!(data, before);
}

#[test]
fn capacity_and_bytes_for_formulas() {
    assert_eq!(List::capacity_of(10, 108), 10);
    assert_eq!(List::bytes_for(10, 10), 108);
}

#[test]
fn capacity_of_short_buffer_fails_size_error() {
    let (list, _) = fresh(4, 20);
    assert_eq!(list.capacity(7).unwrap_err(), ListError::SizeError);
}

#[test]
fn push_fills_up_to_capacity_then_capacity_error() {
    let (mut list, mut data) = fresh(4, 20);
    for value in [100u32, 200, 300] {
        let item = borsh::to_vec(&value).unwrap();
        list.push(&mut data, &item).unwrap();
    }
    assert_eq!(list.len(), 3);
    let item = borsh::to_vec(&400u32).unwrap();
    assert_eq!(list.push(&mut data, &item).unwrap_err(), ListError::CapacityError);
    assert_eq!(list.len(), 3);
}

#[test]
fn push_then_get_returns_pushed_bytes() {
    let (mut list, mut data) = fresh(4, 20);
    let item = borsh::to_vec(&0xA1B2C3D4u32).unwrap();
    list.push(&mut data, &item).unwrap();
    let got = list.get(&data, list.len() - 1).unwrap();
    assert_eq!(got, item);
    assert_eq!(borsh::from_slice::<u32>(&got).unwrap(), 0xA1B2C3D4);
}

#[test]
fn push_into_tiny_buffer_fails_size_error() {
    let mut list = List {
        account: handle(9),
        item_size: 4,
        count: 0,
        migration: MigrationState::Stable,
    };
    let mut data = vec![0u8; 4];
    let item = borsh::to_vec(&5u32).unwrap();
    assert_eq!(list.push(&mut data, &item).unwrap_err(), ListError::SizeError);
    assert_eq!(list.count, 0);
}

#[test]
fn set_then_get_round_trip() {
    let (mut list, mut data) = fresh(4, 20);
    for value in [100u32, 200, 300] {
        let item = borsh::to_vec(&value).unwrap();
        list.push(&mut data, &item).unwrap();
    }
    let item = borsh::to_vec(&999u32).unwrap();
    list.set(&mut data, 1, &item).unwrap();
    assert_eq!(&data[0..8], &DISC);
    assert_eq!(list.get(&data, 1).unwrap(), item);
    assert_eq!(borsh::from_slice::<u32>(&list.get(&data, 0).unwrap()).unwrap(), 100);
    assert_eq!(borsh::from_slice::<u32>(&list.get(&data, 2).unwrap()).unwrap(), 300);
}

#[test]
fn get_set_remove_out_of_bounds() {
    let (mut list, mut data) = fresh(4, 20);
    let item = borsh::to_vec(&1u32).unwrap();
    list.push(&mut data, &item).unwrap();
    assert_eq!(list.get(&data, 1).unwrap_err(), ListError::BoundsError);
    assert_eq!(list.set(&mut data, 1, &item).unwrap_err(), ListError::BoundsError);
    assert_eq!(list.remove(&mut data, 1).unwrap_err(), ListError::BoundsError);
    assert_eq!(list.len(), 1);
}

#[test]
fn remove_first_swaps_last_into_hole() {
    let (mut list, mut data) = fresh(4, 20);
    for value in [100u32, 200, 300] {
        let item = borsh::to_vec(&value).unwrap();
        list.push(&mut data, &item).unwrap();
    }
    list.remove(&mut data, 0).unwrap();
    assert_eq!(list.len(), 2);
    assert_eq!(borsh::from_slice::<u32>(&list.get(&data, 0).unwrap()).unwrap(), 300);
    assert_eq!(borsh::from_slice::<u32>(&list.get(&data, 1).unwrap()).unwrap(), 200);
}

#[test]
fn remove_keeps_remaining_values() {
    let (mut list, mut data) = fresh(4, 28);
    for value in [10u32, 20, 30, 40, 50] {
        let item = borsh::to_vec(&value).unwrap();
        list.push(&mut data, &item).unwrap();
    }
    list.remove(&mut data, 2).unwrap();
    let mut remaining: Vec<u32> = (0..list.len())
        .map(|i| borsh::from_slice::<u32>(&list.get(&data, i).unwrap()).unwrap())
        .collect();
    remaining.sort();
    assert_eq!(remaining, vec![10, 20, 40, 50]);
}

#[test]
fn remove_last_touches_no_bytes() {
    let (mut list, mut data) = fresh(4, 20);
    for value in [100u32, 200, 300] {
        let item = borsh::to_vec(&value).unwrap();
        list.push(&mut data, &item).unwrap();
    }
    let before = data.clone();
    list.remove(&mut data, 2).unwrap();
    assert_eq!(list.len(), 2);
    assert_eq!(data, before);
}

#[test]
fn migration_locks_mutations_but_not_reads() {
    let (mut list, mut data) = fresh(4, 20);
    let item = borsh::to_vec(&100u32).unwrap();
    list.push(&mut data, &item).unwrap();
    list.start_migration(handle(7));
    assert!(list.is_changing_account());
    assert_eq!(list.push(&mut data, &item).unwrap_err(), ListError::MigrationLockError);
    assert_eq!(list.set(&mut data, 0, &item).unwrap_err(), ListError::MigrationLockError);
    assert_eq!(list.remove(&mut data, 0).unwrap_err(), ListError::MigrationLockError);
    assert_eq!(list.len(), 1);
    assert_eq!(list.get(&data, 0).unwrap(), item);
}

#[test]
fn migration_lifecycle_swaps_account() {
    let (mut list, mut data) = fresh(4, 20);
    for value in [100u32, 200] {
        let item = borsh::to_vec(&value).unwrap();
        list.push(&mut data, &item).unwrap();
    }
    let target = handle(7);
    list.start_migration(target);
    assert_eq!(
        list.migration,
        MigrationState::Migrating { target, copied_count: 0 }
    );
    list.advance_migration(1);
    list.advance_migration(1);
    assert_eq!(
        list.migration,
        MigrationState::Migrating { target, copied_count: 2 }
    );
    list.finalize_migration();
    assert!(!list.is_changing_account());
    assert_eq!(list.account, target);
    assert_eq!(list.migration, MigrationState::Stable);
    assert_eq!(list.len(), 2);
}

#[test]
fn record_region_not_cleared_by_new() {
    // `new` stamps only the header; it leaves record bytes alone, so a
    // buffer is usable only when freshly allocated (zeroed) anyway.
    let mut data = vec![0u8; 20];
    data[12] = 0xEE;
    let list = List::new(&DISC, 4, handle(9), &mut data).unwrap();
    assert_eq!(data[12], 0xEE);
    assert_eq!(list.len(), 0);
}
