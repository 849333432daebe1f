use boba::{AliasError, ControllerStorage, Pearl, PearlIds};

#[test]
fn wrapping_hands_out_distinct_handles() {
    let mut ids = PearlIds::new();
    let mut storage = ControllerStorage::<u32>::new();
    let a = storage.wrap(&mut ids, 10);
    let b = storage.wrap(&mut ids, 20);
    let c = storage.wrap(&mut ids, 30);
    assert_ne!(a.id(), b.id());
    assert_ne!(a.id(), c.id());
    assert_ne!(b.id(), c.id());
    assert!(storage.contains(&a) && storage.contains(&b) && storage.contains(&c));
}

#[test]
fn a_new_storage_holds_no_pearl() {
    let mut ids = PearlIds::new();
    let mut elsewhere = ControllerStorage::<u32>::new();
    let stranger = elsewhere.wrap(&mut ids, 1);
    let storage = ControllerStorage::<u32>::new();
    assert!(!storage.contains(&stranger));
    assert!(elsewhere.contains(&stranger));
}

#[test]
fn a_clone_carries_the_same_identifier() {
    let mut ids = PearlIds::new();
    let mut storage = ControllerStorage::<u32>::new();
    let a = storage.wrap(&mut ids, 10);
    let again = a.clone();
    assert_eq!(a.id(), again.id());
    assert!(storage.contains(&again));
}

#[test]
fn writing_through_a_clone_is_seen_through_the_first_handle() {
    let mut ids = PearlIds::new();
    let mut storage = ControllerStorage::<u32>::new();
    let h1 = storage.wrap(&mut ids, 1);
    let h2 = h1.clone();
    let mut write = h2.data_mut(&mut storage).unwrap();
    *write.value_mut() = 42;
    storage.release_mut(write);
    let read = h1.data(&mut storage).unwrap();
    assert_eq!(storage.read(&read), Some(&42));
    storage.release(read);
}

#[test]
fn replace_hands_out_the_former_state() {
    let mut ids = PearlIds::new();
    let mut storage = ControllerStorage::<u32>::new();
    let h = storage.wrap(&mut ids, 1);
    let mut write = h.data_mut(&mut storage).unwrap();
    assert_eq!(*write.value(), 1);
    assert_eq!(write.replace(9), 1);
    assert_eq!(*write.value(), 9);
    assert_eq!(write.id(), h.id());
    storage.release_mut(write);
    let read = h.data(&mut storage).unwrap();
    assert_eq!(storage.read(&read), Some(&9));
}

#[test]
fn a_second_borrow_fails_while_the_write_guard_is_out() {
    let mut ids = PearlIds::new();
    let mut storage = ControllerStorage::<u32>::new();
    let h = storage.wrap(&mut ids, 1);
    let write = h.data_mut(&mut storage).unwrap();
    assert_eq!(h.data(&mut storage).err(), Some(AliasError::Writing));
    assert_eq!(h.data_mut(&mut storage).err(), Some(AliasError::Writing));
    assert_eq!(h.clone().data(&mut storage).err(), Some(AliasError::Writing));
    storage.release_mut(write);
    assert!(h.data_mut(&mut storage).is_ok());
}

#[test]
fn the_write_guard_on_one_pearl_leaves_the_others_free() {
    let mut ids = PearlIds::new();
    let mut storage = ControllerStorage::<u32>::new();
    let a = storage.wrap(&mut ids, 1);
    let b = storage.wrap(&mut ids, 2);
    let write = a.data_mut(&mut storage).unwrap();
    let read = b.data(&mut storage).unwrap();
    assert_eq!(storage.read(&read), Some(&2));
    storage.release(read);
    assert!(b.data_mut(&mut storage).is_ok());
    storage.release_mut(write);
}

#[test]
fn many_readers_are_let_in_and_keep_the_writer_out() {
    let mut ids = PearlIds::new();
    let mut storage = ControllerStorage::<u32>::new();
    let h = storage.wrap(&mut ids, 5);
    let first = h.data(&mut storage).unwrap();
    let second = h.data(&mut storage).unwrap();
    let third = h.data(&mut storage).unwrap();
    assert_eq!(storage.read(&first), Some(&5));
    assert_eq!(storage.read(&third), Some(&5));
    assert_eq!(h.data_mut(&mut storage).err(), Some(AliasError::Reading));
    storage.release(first);
    assert_eq!(h.data_mut(&mut storage).err(), Some(AliasError::Reading));
    storage.release(second);
    assert_eq!(h.data_mut(&mut storage).err(), Some(AliasError::Reading));
    storage.release(third);
    assert!(h.data_mut(&mut storage).is_ok());
}

#[test]
fn a_handle_that_the_storage_does_not_hold_is_missing() {
    let mut ids = PearlIds::new();
    let mut large = ControllerStorage::<u32>::new();
    let _ = large.wrap(&mut ids, 1);
    let second = large.wrap(&mut ids, 2);
    let mut small = ControllerStorage::<u32>::new();
    let _ = small.wrap(&mut ids, 7);
    assert!(large.contains(&second));
    assert!(!small.contains(&second));
    assert_eq!(second.data(&mut small).err(), Some(AliasError::Missing));
    assert_eq!(second.data_mut(&mut small).err(), Some(AliasError::Missing));
}

#[test]
fn a_read_guard_reads_nothing_where_no_reader_is_out() {
    let mut ids = PearlIds::new();
    let mut storage = ControllerStorage::<u32>::new();
    let h = storage.wrap(&mut ids, 5);
    let mut other = ControllerStorage::<u32>::new();
    let _ = other.wrap(&mut ids, 6);
    let guard = h.data(&mut storage).unwrap();
    assert_eq!(other.read(&guard), None);
    assert_eq!(storage.read(&guard), Some(&5));
    let empty = ControllerStorage::<u32>::new();
    assert_eq!(empty.read(&guard), None);
}

#[test]
fn releasing_into_a_storage_without_the_guard_changes_nothing() {
    let mut ids = PearlIds::new();
    let mut storage = ControllerStorage::<u32>::new();
    let h = storage.wrap(&mut ids, 5);
    let mut other = ControllerStorage::<u32>::new();
    let twin: Pearl<u32> = other.wrap(&mut ids, 6);
    let read = h.data(&mut storage).unwrap();
    other.release(read);
    let write = twin.data_mut(&mut other).unwrap();
    assert_eq!(*write.value(), 6);
    other.release_mut(write);
    let write = h.data_mut(&mut storage);
    assert_eq!(write.err(), Some(AliasError::Reading));
}

#[test]
fn a_write_guard_released_elsewhere_leaves_a_free_pearl_alone() {
    let mut ids = PearlIds::new();
    let mut storage = ControllerStorage::<u32>::new();
    let h = storage.wrap(&mut ids, 5);
    let mut other = ControllerStorage::<u32>::new();
    let twin = other.wrap(&mut ids, 6);
    let mut write = h.data_mut(&mut storage).unwrap();
    *write.value_mut() = 50;
    other.release_mut(write);
    let read = twin.data(&mut other).unwrap();
    assert_eq!(other.read(&read), Some(&6));
    assert_eq!(h.data(&mut storage).err(), Some(AliasError::Writing));
}

#[test]
fn a_failed_borrow_changes_nothing() {
    let mut ids = PearlIds::new();
    let mut storage = ControllerStorage::<u32>::new();
    let h = storage.wrap(&mut ids, 5);
    let read = h.data(&mut storage).unwrap();
    assert!(h.data_mut(&mut storage).is_err());
    assert_eq!(storage.read(&read), Some(&5));
    storage.release(read);
    let write = h.data_mut(&mut storage).unwrap();
    assert!(h.data(&mut storage).is_err());
    assert_eq!(*write.value(), 5);
}

#[test]
fn handles_are_equal_when_they_name_the_same_pearl() {
    let mut ids = PearlIds::new();
    let mut storage = ControllerStorage::<u32>::new();
    let a = storage.wrap(&mut ids, 1);
    let b = storage.wrap(&mut ids, 1);
    assert!(a == a.clone());
    assert!(a != b);
}

#[test]
fn taking_a_pearl_out_hands_its_state_out_and_leaves_its_handles_dangling() {
    let mut ids = PearlIds::new();
    let mut storage = ControllerStorage::<u32>::new();
    let a = storage.wrap(&mut ids, 10);
    let b = storage.wrap(&mut ids, 20);
    let again = a.clone();
    assert_eq!(storage.take(&a), Ok(10));
    assert!(!storage.contains(&a));
    assert!(storage.contains(&b));
    assert_eq!(a.data(&mut storage).err(), Some(AliasError::Missing));
    assert_eq!(again.data_mut(&mut storage).err(), Some(AliasError::Missing));
    assert_eq!(storage.take(&again), Err(AliasError::Missing));
    let read = b.data(&mut storage).unwrap();
    assert_eq!(storage.read(&read), Some(&20));
}

#[test]
fn a_pearl_is_not_taken_out_while_a_guard_is_out() {
    let mut ids = PearlIds::new();
    let mut storage = ControllerStorage::<u32>::new();
    let a = storage.wrap(&mut ids, 10);
    let read = a.data(&mut storage).unwrap();
    assert_eq!(storage.take(&a), Err(AliasError::Reading));
    assert_eq!(storage.read(&read), Some(&10));
    storage.release(read);
    let write = a.data_mut(&mut storage).unwrap();
    assert_eq!(storage.take(&a), Err(AliasError::Writing));
    storage.release_mut(write);
    assert_eq!(storage.take(&a), Ok(10));
}

#[test]
fn an_identifier_is_not_used_again_after_its_pearl_was_taken_out() {
    let mut ids = PearlIds::new();
    let mut storage = ControllerStorage::<u32>::new();
    let a = storage.wrap(&mut ids, 10);
    assert_eq!(storage.take(&a), Ok(10));
    let b = storage.wrap(&mut ids, 20);
    assert_ne!(a.id(), b.id());
    assert_eq!(a.data(&mut storage).err(), Some(AliasError::Missing));
    let read = b.data(&mut storage).unwrap();
    assert_eq!(storage.read(&read), Some(&20));
}

#[test]
fn a_guard_that_outlived_its_pearl_reads_nothing() {
    let mut ids = PearlIds::new();
    let mut storage = ControllerStorage::<u32>::new();
    let mut other = ControllerStorage::<u32>::new();
    let a = storage.wrap(&mut ids, 10);
    let twin = other.wrap(&mut ids, 11);
    let read = twin.data(&mut other).unwrap();
    assert_eq!(storage.take(&a), Ok(10));
    assert_eq!(storage.read(&read), None);
    storage.release(read);
    assert!(!storage.contains(&a));
}

#[test]
fn a_scoped_write_changes_the_state_and_leaves_the_pearl_free() {
    let mut ids = PearlIds::new();
    let mut storage = ControllerStorage::<u32>::new();
    let h = storage.wrap(&mut ids, 20);
    assert_eq!(storage.write_with(&h, |n| n + 22), Ok(()));
    assert_eq!(storage.read_with(&h, |n| *n), Ok(42));
    assert!(h.data_mut(&mut storage).is_ok());
}

#[test]
fn a_scoped_read_leaves_the_readers_as_they_were() {
    let mut ids = PearlIds::new();
    let mut storage = ControllerStorage::<u32>::new();
    let h = storage.wrap(&mut ids, 5);
    let read = h.data(&mut storage).unwrap();
    assert_eq!(storage.read_with(&h, |n| *n * 2), Ok(10));
    assert_eq!(h.data_mut(&mut storage).err(), Some(AliasError::Reading));
    storage.release(read);
    assert_eq!(storage.read_with(&h, |n| *n * 2), Ok(10));
    assert!(h.data_mut(&mut storage).is_ok());
}

#[test]
fn scoped_access_is_refused_like_a_borrow_and_does_not_call_back() {
    let mut ids = PearlIds::new();
    let mut storage = ControllerStorage::<u32>::new();
    let h = storage.wrap(&mut ids, 5);
    let mut called = false;
    let write = h.data_mut(&mut storage).unwrap();
    assert_eq!(
        storage.read_with(&h, |n| {
            called = true;
            *n
        }),
        Err(AliasError::Writing)
    );
    assert_eq!(
        storage.write_with(&h, |n| {
            called = true;
            n
        }),
        Err(AliasError::Writing)
    );
    storage.release_mut(write);
    let read = h.data(&mut storage).unwrap();
    assert_eq!(
        storage.write_with(&h, |n| {
            called = true;
            n
        }),
        Err(AliasError::Reading)
    );
    storage.release(read);
    assert_eq!(storage.take(&h), Ok(5));
    assert_eq!(
        storage.read_with(&h, |n| {
            called = true;
            *n
        }),
        Err(AliasError::Missing)
    );
    assert!(!called);
}

#[test]
fn wraps_into_different_storages_give_different_identifiers() {
    let mut ids = PearlIds::new();
    let mut numbers = ControllerStorage::<u32>::new();
    let mut names = ControllerStorage::<String>::new();
    let mut more = ControllerStorage::<u32>::new();
    let a = numbers.wrap(&mut ids, 1);
    let b = names.wrap(&mut ids, String::from("b"));
    let c = more.wrap(&mut ids, 3);
    let d = numbers.wrap(&mut ids, 4);
    let drawn = [*a.id(), *b.id(), *c.id(), *d.id()];
    for first in 0..drawn.len() {
        for second in (first + 1)..drawn.len() {
            assert_ne!(drawn[first], drawn[second]);
        }
    }
    assert!(numbers.contains(&a) && numbers.contains(&d));
    assert!(!numbers.contains(&c));
    assert!(!more.contains(&a) && !more.contains(&d));
}

#[test]
fn an_identifier_is_not_handed_out_again_after_a_pearl_was_taken_out() {
    let mut ids = PearlIds::new();
    let mut storage = ControllerStorage::<u32>::new();
    let mut other = ControllerStorage::<u32>::new();
    let a = storage.wrap(&mut ids, 1);
    assert_eq!(storage.take(&a), Ok(1));
    let b = other.wrap(&mut ids, 2);
    let c = storage.wrap(&mut ids, 3);
    assert_ne!(a.id(), b.id());
    assert_ne!(a.id(), c.id());
    assert_ne!(b.id(), c.id());
}

#[test]
fn a_write_guard_of_another_storage_frees_nothing_here() {
    let mut ids = PearlIds::new();
    let mut here = ControllerStorage::<u32>::new();
    let mut there = ControllerStorage::<u32>::new();
    let mine = here.wrap(&mut ids, 10);
    let theirs = there.wrap(&mut ids, 20);
    let own = mine.data_mut(&mut here).unwrap();
    let mut foreign = theirs.data_mut(&mut there).unwrap();
    *foreign.value_mut() = 99;
    here.release_mut(foreign);
    assert_eq!(mine.data_mut(&mut here).err(), Some(AliasError::Writing));
    assert_eq!(mine.data(&mut here).err(), Some(AliasError::Writing));
    here.release_mut(own);
    assert_eq!(here.read_with(&mine, |n| *n), Ok(10));
    assert_eq!(theirs.data(&mut there).err(), Some(AliasError::Writing));
}

#[test]
fn a_read_guard_of_another_storage_counts_for_nothing_here() {
    let mut ids = PearlIds::new();
    let mut here = ControllerStorage::<u32>::new();
    let mut there = ControllerStorage::<u32>::new();
    let mine = here.wrap(&mut ids, 10);
    let theirs = there.wrap(&mut ids, 20);
    let own = mine.data(&mut here).unwrap();
    let foreign = theirs.data(&mut there).unwrap();
    assert_eq!(here.read(&foreign), None);
    here.release(foreign);
    assert_eq!(mine.data_mut(&mut here).err(), Some(AliasError::Reading));
    here.release(own);
    assert!(mine.data_mut(&mut here).is_ok());
}
