use kete::paths::{vault_dirs, vault_paths};
use kete::{
    android_vault_dirs, set_android_vault_dirs, vault_ring_paths, App, HostDirs, IoErrorKind,
    RingBase, RingDir, RingPath, StorageError,
};

const APP: App = App { id: "photon", dir: "Photon" };

fn dir_text(dir: &RingDir) -> String {
    let mut text = match &dir.base {
        RingBase::Config => "config".to_string(),
        RingBase::Data => "data".to_string(),
        RingBase::Named(path) => path.clone(),
    };
    for name in &dir.names {
        text = format!("{text}/{name}");
    }
    text
}

fn path_text(path: &RingPath) -> String {
    format!("{}/{}", dir_text(&path.dir), path.file)
}

fn dirs_of(host: &HostDirs) -> (String, String) {
    let (primary, shadow) = vault_dirs("Photon", host).unwrap();
    (dir_text(&primary), dir_text(&shadow))
}

fn desktop(has_config: bool, has_data: bool) -> HostDirs {
    HostDirs::Desktop { has_config, has_data }
}

fn android(primary: &str, shadow: &str) -> HostDirs {
    HostDirs::Android { dirs: Some((primary.to_string(), shadow.to_string())) }
}

#[test]
fn a_desktop_splits_config_and_data() {
    assert_eq!(
        dirs_of(&desktop(true, true)),
        ("config/Photon".to_string(), "data/Photon".to_string())
    );
}

#[test]
fn without_a_data_directory_the_shadow_goes_below_the_primary() {
    assert_eq!(
        dirs_of(&desktop(true, false)),
        ("config/Photon".to_string(), "config/Photon/Photon".to_string())
    );
}

#[test]
fn without_a_config_directory_there_is_no_vault() {
    for has_data in [false, true] {
        match vault_dirs("Photon", &desktop(false, has_data)) {
            Err(StorageError::Io(e)) => {
                assert_eq!(e.kind, IoErrorKind::NotFound);
                assert_eq!(e.text, "config directory not found");
            }
            _ => panic!("there is no place for a vault"),
        }
    }
}

#[test]
fn android_uses_what_was_injected() {
    assert_eq!(
        dirs_of(&android("/a", "/b")),
        ("/a/Photon".to_string(), "/b/Photon".to_string())
    );
    assert_eq!(
        dirs_of(&android("/a", "")),
        ("/a/Photon".to_string(), "/a/Photon".to_string())
    );
    match vault_dirs("Photon", &HostDirs::Android { dirs: None }) {
        Err(StorageError::Io(e)) => {
            assert_eq!(e.kind, IoErrorKind::NotFound);
            assert_eq!(
                e.text,
                "Android vault dirs not set — JNI shim must call set_android_vault_dirs"
            );
        }
        _ => panic!("nothing was injected"),
    }
}

#[test]
fn injected_directories_are_given_back() {
    let mut slot = None;
    assert_eq!(android_vault_dirs(&slot), None);
    set_android_vault_dirs(&mut slot, "/a".to_string(), "/b".to_string());
    assert_eq!(android_vault_dirs(&slot), Some(("/a".to_string(), "/b".to_string())));
    set_android_vault_dirs(&mut slot, "/c".to_string(), String::new());
    assert_eq!(android_vault_dirs(&slot), Some(("/c".to_string(), String::new())));
}

#[test]
fn one_directory_gets_a_shadow_name() {
    let dirs = vault_dirs("Photon", &desktop(true, true)).unwrap();
    let paths = vault_paths(dirs, "NAME", true);
    assert_eq!(path_text(&paths[0]), "config/Photon/NAME.vsf");
    assert_eq!(path_text(&paths[1]), "data/Photon/NAME.shadow.vsf");
    let dirs = vault_dirs("Photon", &desktop(true, true)).unwrap();
    let paths = vault_paths(dirs, "NAME", false);
    assert_eq!(path_text(&paths[1]), "data/Photon/NAME.vsf");
}

#[test]
fn directories_described_alike_are_one_whatever_the_flag_says() {
    for coincide in [false, true] {
        let dirs = vault_dirs("Photon", &android("/a", "")).unwrap();
        let paths = vault_paths(dirs, "NAME", coincide);
        assert_eq!(path_text(&paths[0]), "/a/Photon/NAME.vsf");
        assert_eq!(path_text(&paths[1]), "/a/Photon/NAME.shadow.vsf");
    }
    let dirs = vault_dirs("Photon", &android("/a", "/a")).unwrap();
    assert_eq!(vault_paths(dirs, "NAME", false)[1].file, "NAME.shadow.vsf");
    for host in [desktop(true, true), desktop(true, false), android("/a", "/b")] {
        let dirs = vault_dirs("Photon", &host).unwrap();
        assert_eq!(vault_paths(dirs, "NAME", false)[1].file, "NAME.vsf");
    }
}

#[test]
fn rings_are_filed_under_the_opaque_name() {
    let (seed, secret) = ([1u8; 32], [2u8; 32]);
    let name = tohu::vault_path_name("photon", &seed, &secret);
    assert_eq!(name.len(), 43);
    assert!(name.chars().all(|c| c.is_ascii_alphanumeric() || c == '-' || c == '_'));
    let paths = vault_ring_paths(APP, &seed, &secret, &desktop(true, true), false).unwrap();
    assert_eq!(path_text(&paths[0]), format!("config/Photon/{name}.vsf"));
    assert_eq!(path_text(&paths[1]), format!("data/Photon/{name}.vsf"));
    let paths = vault_ring_paths(APP, &seed, &secret, &android("/a", ""), true).unwrap();
    assert_eq!(path_text(&paths[0]), format!("/a/Photon/{name}.vsf"));
    assert_eq!(path_text(&paths[1]), format!("/a/Photon/{name}.shadow.vsf"));
    assert!(vault_ring_paths(APP, &seed, &secret, &desktop(false, true), false).is_err());
}

#[test]
fn every_input_names_another_vault() {
    let file = |app: App, seed: u8, secret: u8| {
        let paths =
            vault_ring_paths(app, &[seed; 32], &[secret; 32], &desktop(true, true), false).unwrap();
        paths[0].file.clone()
    };
    let first = file(APP, 1, 2);
    assert_eq!(first, file(App { id: "photon", dir: "elsewhere" }, 1, 2));
    assert_ne!(first, file(App { id: "lumis", dir: "Photon" }, 1, 2));
    assert_ne!(first, file(APP, 3, 2));
    assert_ne!(first, file(APP, 1, 3));
}
