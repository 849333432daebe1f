use boba::BobaResources;

#[derive(Debug, PartialEq)]
struct Window {
    width: u32,
    height: u32,
}

const WINDOW: u64 = 17;
const BACKUP: u64 = 18;

#[test]
fn a_resource_that_was_put_in_is_found() {
    let mut resources = BobaResources::new();
    assert_eq!(resources.insert(WINDOW, Window { width: 640, height: 480 }), None);
    assert_eq!(resources.get(WINDOW), Some(&Window { width: 640, height: 480 }));
}

#[test]
fn a_second_resource_under_the_key_replaces_the_first() {
    let mut resources = BobaResources::new();
    resources.insert(WINDOW, Window { width: 640, height: 480 });
    let former = resources.insert(WINDOW, Window { width: 800, height: 600 });
    assert_eq!(former, Some(Window { width: 640, height: 480 }));
    assert_eq!(resources.get(WINDOW), Some(&Window { width: 800, height: 600 }));
}

#[test]
fn a_key_that_was_never_used_leads_nowhere() {
    let mut resources = BobaResources::<Window>::new();
    assert_eq!(resources.get(WINDOW), None);
    assert_eq!(resources.get_mut(WINDOW), None);
    resources.insert(WINDOW, Window { width: 1, height: 2 });
    assert_eq!(resources.get(BACKUP), None);
    assert_eq!(resources.get_mut(BACKUP), None);
}

#[test]
fn keys_do_not_disturb_each_other() {
    let mut resources = BobaResources::new();
    resources.insert(WINDOW, Window { width: 1, height: 2 });
    resources.insert(BACKUP, Window { width: 3, height: 4 });
    resources.insert(WINDOW, Window { width: 5, height: 6 });
    assert_eq!(resources.get(WINDOW), Some(&Window { width: 5, height: 6 }));
    assert_eq!(resources.get(BACKUP), Some(&Window { width: 3, height: 4 }));
}

#[test]
fn a_resource_is_changed_in_place() {
    let mut resources = BobaResources::new();
    resources.insert(WINDOW, Window { width: 1, height: 2 });
    resources.insert(BACKUP, Window { width: 3, height: 4 });
    resources.get_mut(WINDOW).unwrap().width = 100;
    assert_eq!(resources.get(WINDOW), Some(&Window { width: 100, height: 2 }));
    assert_eq!(resources.get(BACKUP), Some(&Window { width: 3, height: 4 }));
}

#[test]
fn many_keys_are_kept_apart() {
    let mut resources = BobaResources::new();
    for key in 0..200u64 {
        assert_eq!(resources.insert(key, key * 3), None);
    }
    for key in 0..200u64 {
        assert_eq!(resources.insert(key, key * 5), Some(key * 3));
    }
    for key in 0..200u64 {
        assert_eq!(resources.get(key), Some(&(key * 5)));
    }
    assert_eq!(resources.get(200), None);
}
