use appiman::config::Config;
use appiman::metadata::AppMetadata;
use appiman::metadata::VersionInfo;
use appiman::version_manager::VersionError;
use appiman::version_manager::VersionManager;

fn manager() -> VersionManager {
    VersionManager::new(Config::default())
}

#[test]
fn install_twice_fails_with_version_exists_and_keeps_one_record() {
    let mut vm = manager();
    vm.install_version("demo", "1.0", "c1".to_string()).unwrap();
    let second = vm.install_version("demo", "1.0", "c1".to_string());
    match second {
        Err(VersionError::VersionExists(v)) => assert_eq!(v, "1.0"),
        other => panic!("expected VersionExists, got {:?}", other.map(|_| ())),
    }
    let versions = vm.list_versions("demo").unwrap();
    let count = versions.iter().filter(|v| v.version == "1.0").count();
    assert_eq!(count, 1);
}

#[test]
fn install_new_version_switches_the_single_active_record() {
    let mut vm = manager();
    vm.install_version("demo", "1.0", "c1".to_string()).unwrap();
    let receipt = vm.install_version("demo", "2.0", "c2".to_string()).unwrap();

    let versions = vm.list_versions("demo").unwrap();
    let active: Vec<&str> = versions
        .iter()
        .filter(|v| v.is_active)
        .map(|v| v.version.as_str())
        .collect();
    assert_eq!(active, vec!["2.0"]);
    assert_eq!(
        receipt.link_target,
        "/opt/applications/bin/demo/versions/2.0"
    );
    assert_eq!(receipt.current_link, "/opt/applications/bin/demo/current");
    assert_eq!(
        receipt.target_path,
        "/opt/applications/bin/demo/versions/2.0/demo.AppImage"
    );
}

#[test]
fn remove_last_version_fails_and_leaves_ledger_unchanged() {
    let mut vm = manager();
    vm.install_version("demo", "1.0", "c1".to_string()).unwrap();
    let before = vm.list_versions("demo").unwrap();
    let r = vm.remove_version("demo", "1.0");
    match r {
        Err(VersionError::InvalidVersion(m)) => {
            assert_eq!(m, "Cannot remove the last version");
        }
        other => panic!("expected InvalidVersion, got {:?}", other.map(|_| ())),
    }
    let after = vm.list_versions("demo").unwrap();
    assert_eq!(before, after);
}

#[test]
fn remove_active_version_fails_without_switching_first() {
    let mut vm = manager();
    vm.install_version("demo", "1.0", "c1".to_string()).unwrap();
    vm.install_version("demo", "2.0", "c2".to_string()).unwrap();
    let r = vm.remove_version("demo", "2.0");
    match r {
        Err(VersionError::InvalidVersion(m)) => {
            assert_eq!(m, "Cannot remove active version");
        }
        other => panic!("expected InvalidVersion, got {:?}", other.map(|_| ())),
    }
    vm.switch_version("demo", "1.0").unwrap();
    vm.remove_version("demo", "2.0").unwrap();
    let versions = vm.list_versions("demo").unwrap();
    assert_eq!(versions.len(), 1);
    assert_eq!(versions[0].version, "1.0");
}

#[test]
fn retention_prunes_oldest_inactive_and_never_the_active() {
    let mut config = Config::default();
    config.versions.max_versions_per_app = 2;
    let mut vm = VersionManager::new(config);

    // Two versions already installed at distinct times; the newer is active.
    vm.save_app_metadata(AppMetadata {
        name: "demo".to_string(),
        display_name: "demo".to_string(),
        categories: vec![],
        icon_path: None,
        versions: vec![
            VersionInfo {
                version: "1.0".to_string(),
                checksum: "c1".to_string(),
                installed_at: 100,
                is_active: false,
            },
            VersionInfo {
                version: "2.0".to_string(),
                checksum: "c2".to_string(),
                installed_at: 200,
                is_active: true,
            },
        ],
        created_at: 100,
        updated_at: 200,
    });
    let receipt = vm.install_version("demo", "3.0", "c3".to_string()).unwrap();

    let versions = vm.list_versions("demo").unwrap();
    assert_eq!(versions.len(), 2);
    assert!(versions.iter().any(|v| v.version == "3.0" && v.is_active));
    assert!(versions.iter().any(|v| v.version == "2.0" && !v.is_active));
    assert_eq!(receipt.pruned, vec!["1.0".to_string()]);
    assert_eq!(versions.iter().filter(|v| v.is_active).count(), 1);
}

#[test]
fn switch_to_unknown_version_fails() {
    let mut vm = manager();
    vm.install_version("demo", "1.0", "c1".to_string()).unwrap();
    let r = vm.switch_version("demo", "9.9");
    match r {
        Err(VersionError::VersionNotFound(v)) => assert_eq!(v, "9.9"),
        other => panic!("expected VersionNotFound, got {:?}", other.map(|_| ())),
    }
    let r = vm.switch_version("ghost", "1.0");
    assert!(matches!(r, Err(VersionError::AppNotFound(_))));
}

#[test]
fn get_current_version_tracks_the_active_record() {
    let mut vm = manager();
    vm.install_version("demo", "1.0", "c1".to_string()).unwrap();
    vm.install_version("demo", "2.0", "c2".to_string()).unwrap();
    assert_eq!(vm.get_current_version("demo").unwrap(), Some("2.0".to_string()));
    vm.switch_version("demo", "1.0").unwrap();
    assert_eq!(vm.get_current_version("demo").unwrap(), Some("1.0".to_string()));
}

#[test]
fn list_apps_names_every_ledger() {
    let mut vm = manager();
    vm.install_version("alpha", "1.0", "c1".to_string()).unwrap();
    vm.install_version("beta", "1.0", "c2".to_string()).unwrap();
    let apps = vm.list_apps();
    assert_eq!(apps, vec!["alpha".to_string(), "beta".to_string()]);
}

#[test]
fn path_helpers_follow_the_layout() {
    let vm = manager();
    assert_eq!(vm.get_app_dir("demo"), "/opt/applications/bin/demo");
    assert_eq!(
        vm.get_versions_dir("demo"),
        "/opt/applications/bin/demo/versions"
    );
    assert_eq!(
        vm.get_version_dir("demo", "1.0"),
        "/opt/applications/bin/demo/versions/1.0"
    );
    assert_eq!(
        vm.get_appimage_path("demo", "1.0"),
        "/opt/applications/bin/demo/versions/1.0/demo.AppImage"
    );
    assert_eq!(vm.get_current_link("demo"), "/opt/applications/bin/demo/current");
    assert_eq!(
        vm.get_metadata_path("demo"),
        "/opt/applications/bin/demo/metadata.json"
    );
}

#[test]
fn cleanup_respects_the_retention_switch_and_bound() {
    let mut config = Config::default();
    config.versions.auto_cleanup_enabled = false;
    let mut vm = VersionManager::new(config);
    vm.install_version("demo", "1.0", "c1".to_string()).unwrap();
    let removed = vm.cleanup_old_versions("demo").unwrap();
    assert!(removed.is_empty());

    let mut config = Config::default();
    config.versions.max_versions_per_app = 1;
    let mut vm = VersionManager::new(config);
    vm.save_app_metadata(AppMetadata {
        name: "demo".to_string(),
        display_name: "demo".to_string(),
        categories: vec![],
        icon_path: None,
        versions: vec![
            VersionInfo {
                version: "1.0".to_string(),
                checksum: "c1".to_string(),
                installed_at: 100,
                is_active: false,
            },
            VersionInfo {
                version: "2.0".to_string(),
                checksum: "c2".to_string(),
                installed_at: 200,
                is_active: true,
            },
        ],
        created_at: 100,
        updated_at: 200,
    });
    let removed = vm.cleanup_old_versions("demo").unwrap();
    assert_eq!(removed, vec!["1.0".to_string()]);
    let versions = vm.list_versions("demo").unwrap();
    assert_eq!(versions.len(), 1);
    assert!(versions[0].is_active);
}
