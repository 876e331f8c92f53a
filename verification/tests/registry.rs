use kete::{App, FlatStorage, Place, Registry, SharedOpen};

const APP: App = App { id: "kete-test", dir: "kete-test" };

fn at(path: &str) -> Place {
    Place { path: path.to_string() }
}

fn open_in(
    registry: &mut Registry,
    app: App,
    place: &str,
    seed: u8,
    live: &[u64],
) -> Result<u64, (String, String)> {
    let live = live.to_vec();
    match FlatStorage::open_shared(registry, app, &[seed; 32], &[7u8; 32], &at(place), &live) {
        SharedOpen::Live { engine } => Ok(engine),
        SharedOpen::Open { place, filename } => Err((place.path, filename)),
    }
}

fn open(registry: &mut Registry, seed: u8, live: &[u64]) -> Result<u64, (String, String)> {
    open_in(registry, APP, "/config/kete-test", seed, live)
}

#[test]
fn a_vault_is_opened_once() {
    let mut registry = Registry::new();
    let (dir, name) = open(&mut registry, 1, &[]).unwrap_err();
    assert_eq!(dir, "/config/kete-test");
    assert_eq!(name, tohu::vault_path_name("kete-test", &[1u8; 32], &[7u8; 32]));
    registry.register(at(&dir), name.clone(), 10);
    assert_eq!(open(&mut registry, 1, &[10]), Ok(10));
    assert_eq!(open(&mut registry, 1, &[10]), Ok(10));
    assert_eq!(registry.engine_on(&at(&dir), &name), Some(10));
}

#[test]
fn different_vaults_have_different_engines() {
    let mut registry = Registry::new();
    let (dir, first) = open(&mut registry, 1, &[]).unwrap_err();
    registry.register(at(&dir), first, 10);
    let (dir, second) = open(&mut registry, 2, &[10]).unwrap_err();
    registry.register(at(&dir), second, 11);
    assert_eq!(open(&mut registry, 1, &[10, 11]), Ok(10));
    assert_eq!(open(&mut registry, 2, &[10, 11]), Ok(11));
}

#[test]
fn another_directory_is_another_vault() {
    let a = App { id: "x", dir: "A" };
    let b = App { id: "x", dir: "B" };
    let mut registry = Registry::new();
    let (place_a, name_a) = open_in(&mut registry, a, "/config/A", 1, &[]).unwrap_err();
    registry.register(at(&place_a), name_a.clone(), 10);
    let (place_b, name_b) = open_in(&mut registry, b, "/config/B", 1, &[10]).unwrap_err();
    assert_eq!(place_b, "/config/B");
    assert_eq!(name_b, name_a);
    registry.register(at(&place_b), name_b, 11);
    assert_eq!(open_in(&mut registry, a, "/config/A", 1, &[10, 11]), Ok(10));
    assert_eq!(open_in(&mut registry, b, "/config/B", 1, &[10, 11]), Ok(11));
    // A's engine is dropped; B's stays, and is still B's alone.
    assert_eq!(open_in(&mut registry, b, "/config/B", 1, &[11]), Ok(11));
    assert_eq!(
        open_in(&mut registry, a, "/config/A", 1, &[11]),
        Err(("/config/A".to_string(), name_a))
    );
}

#[test]
fn two_spellings_of_a_directory_share_an_engine() {
    let mut registry = Registry::new();
    let plain = App { id: "x", dir: "A" };
    let (place, name) = open_in(&mut registry, plain, "/config/A", 1, &[]).unwrap_err();
    registry.register(at(&place), name, 10);
    for dir in ["A/", "./A", "B/../A"] {
        assert_eq!(open_in(&mut registry, App { id: "x", dir }, "/config/A", 1, &[10]), Ok(10));
    }
}

#[test]
fn a_dropped_vault_is_opened_afresh() {
    let mut registry = Registry::new();
    let (dir, name) = open(&mut registry, 1, &[]).unwrap_err();
    registry.register(at(&dir), name.clone(), 10);
    assert_eq!(open(&mut registry, 1, &[]), Err((dir.clone(), name.clone())));
    assert_eq!(registry.engine_on(&at(&dir), &name), None);
    registry.register(at(&dir), name, 12);
    assert_eq!(open(&mut registry, 1, &[12]), Ok(12));
}

#[test]
fn dead_vaults_leave_the_others() {
    let mut registry = Registry::new();
    for (filename, engine) in [("a", 1), ("b", 2), ("c", 3)] {
        registry.register(at("/d"), filename.to_string(), engine);
    }
    registry.register(at("/e"), "b".to_string(), 4);
    registry.drop_dead(&vec![4, 3, 1]);
    assert_eq!(registry.engine_on(&at("/d"), "a"), Some(1));
    assert_eq!(registry.engine_on(&at("/d"), "b"), None);
    assert_eq!(registry.engine_on(&at("/e"), "b"), Some(4));
    assert_eq!(registry.engine_on(&at("/d"), "c"), Some(3));
}
