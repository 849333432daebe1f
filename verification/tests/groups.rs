use boba::{
    AliasError, ControllerStorage, Pearl, PearlError, PearlFault, PearlIds, PearlRef, TaroRender,
    TaroRenderPearls,
};

#[derive(Debug, PartialEq)]
struct Mesh {
    faces: u32,
}

#[derive(Debug, PartialEq)]
struct Light {
    lumens: u32,
}

impl TaroRender for Mesh {
    fn type_key() -> u64 {
        1
    }
}

impl TaroRender for Light {
    fn type_key() -> u64 {
        2
    }
}

fn faces(guards: &[PearlRef<Mesh>], meshes: &ControllerStorage<Mesh>) -> Vec<u32> {
    guards.iter().map(|guard| meshes.read(guard).unwrap().faces).collect()
}

#[test]
fn collect_gives_the_pearls_in_the_order_in_which_they_were_added() {
    let mut ids = PearlIds::new();
    let mut meshes = ControllerStorage::new();
    let a = meshes.wrap(&mut ids, Mesh { faces: 10 });
    let b = meshes.wrap(&mut ids, Mesh { faces: 20 });
    let c = meshes.wrap(&mut ids, Mesh { faces: 30 });
    let mut pearls = TaroRenderPearls::default();
    pearls.add(b.clone());
    pearls.add(c.clone());
    pearls.add(a.clone());
    let guards = pearls.collect(&mut meshes);
    assert_eq!(faces(&guards, &meshes), vec![20, 30, 10]);
    let ids: Vec<_> = guards.iter().map(|guard| *guard.id()).collect();
    assert_eq!(ids, vec![*b.id(), *c.id(), *a.id()]);
}

#[test]
fn pearls_of_another_kind_stay_apart() {
    let mut ids = PearlIds::new();
    let mut meshes = ControllerStorage::new();
    let mut lights = ControllerStorage::new();
    let a = meshes.wrap(&mut ids, Mesh { faces: 10 });
    let sun = lights.wrap(&mut ids, Light { lumens: 1000 });
    let b = meshes.wrap(&mut ids, Mesh { faces: 20 });
    let lamp = lights.wrap(&mut ids, Light { lumens: 60 });
    let c = meshes.wrap(&mut ids, Mesh { faces: 30 });
    let mut pearls = TaroRenderPearls::default();
    pearls.add(a.clone());
    pearls.add(sun.clone());
    pearls.add(b.clone());
    pearls.add(lamp.clone());
    pearls.add(c.clone());
    let guards = pearls.collect(&mut meshes);
    assert_eq!(faces(&guards, &meshes), vec![10, 20, 30]);
    let lit = pearls.collect(&mut lights);
    let lumens: Vec<u32> = lit.iter().map(|guard| lights.read(guard).unwrap().lumens).collect();
    assert_eq!(lumens, vec![1000, 60]);
}

#[test]
fn collecting_a_kind_that_was_never_added_gives_nothing() {
    let mut ids = PearlIds::new();
    let mut meshes = ControllerStorage::new();
    let mut lights = ControllerStorage::<Light>::new();
    let a = meshes.wrap(&mut ids, Mesh { faces: 10 });
    let _ = lights.wrap(&mut ids, Light { lumens: 5 });
    let mut pearls = TaroRenderPearls::default();
    assert!(pearls.collect(&mut meshes).is_empty());
    assert!(pearls.collect_mut(&mut meshes).is_empty());
    pearls.add(a.clone());
    assert!(pearls.collect(&mut lights).is_empty());
    assert!(pearls.collect_mut(&mut lights).is_empty());
    assert!(lights.wrap(&mut ids, Light { lumens: 6 }).data_mut(&mut lights).is_ok());
}

#[test]
fn collect_leaves_out_a_pearl_whose_write_guard_is_out() {
    let mut ids = PearlIds::new();
    let mut meshes = ControllerStorage::new();
    let a = meshes.wrap(&mut ids, Mesh { faces: 10 });
    let b = meshes.wrap(&mut ids, Mesh { faces: 20 });
    let c = meshes.wrap(&mut ids, Mesh { faces: 30 });
    let mut pearls = TaroRenderPearls::default();
    pearls.add(a.clone());
    pearls.add(b.clone());
    pearls.add(c.clone());
    let write = b.data_mut(&mut meshes).unwrap();
    let guards = pearls.collect(&mut meshes);
    assert_eq!(faces(&guards, &meshes), vec![10, 30]);
    meshes.release_mut(write);
    for guard in guards {
        meshes.release(guard);
    }
    let guards = pearls.collect(&mut meshes);
    assert_eq!(faces(&guards, &meshes), vec![10, 20, 30]);
}

#[test]
fn collect_takes_a_read_guard_on_every_pearl_it_gives() {
    let mut ids = PearlIds::new();
    let mut meshes = ControllerStorage::new();
    let a = meshes.wrap(&mut ids, Mesh { faces: 10 });
    let b = meshes.wrap(&mut ids, Mesh { faces: 20 });
    let mut pearls = TaroRenderPearls::default();
    pearls.add(a.clone());
    pearls.add(b.clone());
    let first = pearls.collect(&mut meshes);
    let second = pearls.collect(&mut meshes);
    assert_eq!(first.len(), 2);
    assert_eq!(second.len(), 2);
    assert_eq!(a.data_mut(&mut meshes).err(), Some(AliasError::Reading));
    for guard in first {
        meshes.release(guard);
    }
    assert_eq!(b.data_mut(&mut meshes).err(), Some(AliasError::Reading));
    for guard in second {
        meshes.release(guard);
    }
    assert!(a.data_mut(&mut meshes).is_ok());
    assert!(b.data_mut(&mut meshes).is_ok());
}

#[test]
fn collect_mut_gives_write_guards_in_order_and_leaves_out_borrowed_pearls() {
    let mut ids = PearlIds::new();
    let mut meshes = ControllerStorage::new();
    let a = meshes.wrap(&mut ids, Mesh { faces: 10 });
    let b = meshes.wrap(&mut ids, Mesh { faces: 20 });
    let c = meshes.wrap(&mut ids, Mesh { faces: 30 });
    let mut pearls = TaroRenderPearls::default();
    pearls.add(c.clone());
    pearls.add(b.clone());
    pearls.add(a.clone());
    let read = b.data(&mut meshes).unwrap();
    let mut guards = pearls.collect_mut(&mut meshes);
    let seen: Vec<u32> = guards.iter().map(|guard| guard.value().faces).collect();
    assert_eq!(seen, vec![30, 10]);
    assert_eq!(guards[0].id(), c.id());
    assert_eq!(guards[1].id(), a.id());
    for guard in guards.iter_mut() {
        guard.value_mut().faces += 1;
    }
    assert_eq!(c.data(&mut meshes).err(), Some(AliasError::Writing));
    assert!(pearls.collect_mut(&mut meshes).is_empty());
    for guard in guards {
        meshes.release_mut(guard);
    }
    meshes.release(read);
    let all = pearls.collect(&mut meshes);
    assert_eq!(faces(&all, &meshes), vec![31, 20, 11]);
}

#[test]
fn a_removed_pearl_is_not_collected_and_the_others_keep_their_order() {
    let mut ids = PearlIds::new();
    let mut meshes = ControllerStorage::new();
    let handles: Vec<Pearl<Mesh>> =
        (1..=5).map(|faces| meshes.wrap(&mut ids, Mesh { faces })).collect();
    let mut pearls = TaroRenderPearls::default();
    for handle in &handles {
        pearls.add(handle.clone());
    }
    pearls.remove(&handles[1]);
    let guards = pearls.collect(&mut meshes);
    assert_eq!(faces(&guards, &meshes), vec![1, 3, 4, 5]);
}

#[test]
fn removing_what_is_not_there_changes_nothing() {
    let mut ids = PearlIds::new();
    let mut meshes = ControllerStorage::new();
    let mut lights = ControllerStorage::new();
    let a = meshes.wrap(&mut ids, Mesh { faces: 10 });
    let b = meshes.wrap(&mut ids, Mesh { faces: 20 });
    let sun = lights.wrap(&mut ids, Light { lumens: 1000 });
    let mut pearls = TaroRenderPearls::default();
    pearls.remove(&a);
    pearls.add(a.clone());
    pearls.remove(&b);
    pearls.remove(&sun);
    let guards = pearls.collect(&mut meshes);
    assert_eq!(faces(&guards, &meshes), vec![10]);
    assert!(pearls.collect(&mut lights).is_empty());
}

#[test]
fn removing_by_a_clone_removes_the_pearl() {
    let mut ids = PearlIds::new();
    let mut meshes = ControllerStorage::new();
    let a = meshes.wrap(&mut ids, Mesh { faces: 10 });
    let b = meshes.wrap(&mut ids, Mesh { faces: 20 });
    let mut pearls = TaroRenderPearls::default();
    pearls.add(a.clone());
    pearls.add(b.clone());
    pearls.remove(&a.clone());
    let guards = pearls.collect(&mut meshes);
    assert_eq!(faces(&guards, &meshes), vec![20]);
}

#[test]
fn a_pearl_added_twice_is_collected_once() {
    let mut ids = PearlIds::new();
    let mut meshes = ControllerStorage::new();
    let a = meshes.wrap(&mut ids, Mesh { faces: 10 });
    let b = meshes.wrap(&mut ids, Mesh { faces: 20 });
    let mut pearls = TaroRenderPearls::default();
    pearls.add(a.clone());
    pearls.add(b.clone());
    pearls.add(a.clone());
    let guards = pearls.collect(&mut meshes);
    assert_eq!(faces(&guards, &meshes), vec![10, 20]);
}

#[test]
fn a_group_that_was_emptied_can_be_filled_again() {
    let mut ids = PearlIds::new();
    let mut meshes = ControllerStorage::new();
    let a = meshes.wrap(&mut ids, Mesh { faces: 10 });
    let b = meshes.wrap(&mut ids, Mesh { faces: 20 });
    let mut pearls = TaroRenderPearls::default();
    pearls.add(a.clone());
    pearls.remove(&a);
    assert!(pearls.collect(&mut meshes).is_empty());
    pearls.add(b.clone());
    pearls.add(a.clone());
    let guards = pearls.collect(&mut meshes);
    assert_eq!(faces(&guards, &meshes), vec![20, 10]);
}

#[test]
fn pearls_of_two_kinds_share_no_identifier() {
    let mut ids = PearlIds::new();
    let mut meshes = ControllerStorage::new();
    let mut lights = ControllerStorage::new();
    let a = meshes.wrap(&mut ids, Mesh { faces: 10 });
    let sun = lights.wrap(&mut ids, Light { lumens: 1000 });
    let b = meshes.wrap(&mut ids, Mesh { faces: 20 });
    assert_ne!(a.id(), sun.id());
    assert_ne!(b.id(), sun.id());
    assert_ne!(a.id(), b.id());
}

#[test]
fn the_refusals_of_a_collection_are_handed_out_in_order() {
    let mut ids = PearlIds::new();
    let mut meshes = ControllerStorage::new();
    let a = meshes.wrap(&mut ids, Mesh { faces: 10 });
    let b = meshes.wrap(&mut ids, Mesh { faces: 20 });
    let c = meshes.wrap(&mut ids, Mesh { faces: 30 });
    let d = meshes.wrap(&mut ids, Mesh { faces: 40 });
    let mut pearls = TaroRenderPearls::default();
    pearls.add(d.clone());
    pearls.add(a.clone());
    pearls.add(b.clone());
    pearls.add(c.clone());
    let write = d.data_mut(&mut meshes).unwrap();
    assert_eq!(meshes.take(&b), Ok(Mesh { faces: 20 }));
    let (guards, faults) = pearls.collect_with_faults(&mut meshes);
    assert_eq!(faces(&guards, &meshes), vec![10, 30]);
    assert_eq!(
        faults,
        vec![
            PearlFault { id: *d.id(), error: PearlError::Alias(AliasError::Writing) },
            PearlFault { id: *b.id(), error: PearlError::Alias(AliasError::Missing) },
        ]
    );
    meshes.release_mut(write);
}

#[test]
fn the_refusals_of_a_mutable_collection_are_handed_out_in_order() {
    let mut ids = PearlIds::new();
    let mut meshes = ControllerStorage::new();
    let a = meshes.wrap(&mut ids, Mesh { faces: 10 });
    let b = meshes.wrap(&mut ids, Mesh { faces: 20 });
    let c = meshes.wrap(&mut ids, Mesh { faces: 30 });
    let mut pearls = TaroRenderPearls::default();
    pearls.add(a.clone());
    pearls.add(b.clone());
    pearls.add(c.clone());
    let read = a.data(&mut meshes).unwrap();
    let write = c.data_mut(&mut meshes).unwrap();
    let (guards, faults) = pearls.collect_mut_with_faults(&mut meshes);
    let seen: Vec<u32> = guards.iter().map(|guard| guard.value().faces).collect();
    assert_eq!(seen, vec![20]);
    assert_eq!(
        faults,
        vec![
            PearlFault { id: *a.id(), error: PearlError::Alias(AliasError::Reading) },
            PearlFault { id: *c.id(), error: PearlError::Alias(AliasError::Writing) },
        ]
    );
    meshes.release(read);
    meshes.release_mut(write);
}

#[test]
fn a_collection_without_refusals_hands_out_no_fault() {
    let mut ids = PearlIds::new();
    let mut meshes = ControllerStorage::new();
    let mut lights = ControllerStorage::<Light>::new();
    let a = meshes.wrap(&mut ids, Mesh { faces: 10 });
    let mut pearls = TaroRenderPearls::default();
    pearls.add(a.clone());
    let (guards, faults) = pearls.collect_with_faults(&mut meshes);
    assert_eq!(guards.len(), 1);
    assert!(faults.is_empty());
    let (none, nothing) = pearls.collect_mut_with_faults(&mut lights);
    assert!(none.is_empty());
    assert!(nothing.is_empty());
}
