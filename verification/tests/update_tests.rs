use appiman::config::Config;
use appiman::metadata::AppMetadata;
use appiman::update::UpdateError;
use appiman::update::UpdateManager;
use appiman::update::UpdateReport;
use appiman::update::select_rollback_target;

#[test]
fn update_manager_creation_works() {
    let manager = UpdateManager::new(Config::default());
    assert_eq!(manager.config.directories.raw, "/opt/applications/raw");
}

#[test]
fn extract_version_from_path_works() {
    let manager = UpdateManager::new(Config::default());

    let version = manager.extract_version_from_path("/test/app-v1.2.3.AppImage");
    assert_eq!(version, Some("1.2.3".to_string()));

    let version = manager.extract_version_from_path("/test/app.AppImage");
    assert_eq!(version, None);
}

#[test]
fn get_registered_appimages_returns_empty_when_no_bin_dir() {
    let manager = UpdateManager::new(Config::default());
    assert!(manager.get_registered_appimages().is_empty());
}

#[test]
fn get_registered_appimages_finds_appimages() {
    let mut manager = UpdateManager::new(Config::default());

    let mut testapp_metadata = AppMetadata::new("TestApp".to_string(), "testapp".to_string());
    testapp_metadata.add_version("1.0.0".to_string(), "checksum1".to_string());
    manager.version_manager.save_app_metadata(testapp_metadata);

    let mut another_metadata = AppMetadata::new("Another".to_string(), "another".to_string());
    another_metadata.add_version("2.0.0".to_string(), "checksum2".to_string());
    manager.version_manager.save_app_metadata(another_metadata);

    let appimages = manager.get_registered_appimages();
    assert_eq!(appimages.len(), 2);
    assert!(appimages.contains(&"/opt/applications/bin/testapp/versions/1.0.0/testapp.AppImage".to_string()));
    assert!(appimages.contains(&"/opt/applications/bin/another/versions/2.0.0/another.AppImage".to_string()));
}

#[test]
fn evaluate_update_check_reads_the_channel_answer() {
    let manager = UpdateManager::new(Config::default());
    let info = manager.evaluate_update_check("/raw/app-v1.0.AppImage", true, " 2.0 \n");
    assert!(info.update_available);
    assert_eq!(info.new_version, Some("2.0".to_string()));
    assert_eq!(info.current_version, Some("1.0".to_string()));
    assert_eq!(info.name, "app");

    let idle = manager.evaluate_update_check("/raw/app.AppImage", true, "  \n");
    assert!(!idle.update_available);
    assert_eq!(idle.new_version, None);

    let failed = manager.evaluate_update_check("/raw/app.AppImage", false, "2.0");
    assert!(!failed.update_available);
}

#[test]
fn update_report_counts_available_updates() {
    let manager = UpdateManager::new(Config::default());
    let mut report = UpdateReport::new();
    assert!(!report.has_updates_available());
    assert_eq!(report.updates_available_count(), 0);

    report.checked.push(manager.evaluate_update_check("/raw/a.AppImage", true, "2.0"));
    report.checked.push(manager.evaluate_update_check("/raw/b.AppImage", true, ""));
    assert!(report.has_updates_available());
    assert_eq!(report.updates_available_count(), 1);
}

#[test]
fn rollback_switches_to_the_newest_inactive_version() {
    let mut manager = UpdateManager::new(Config::default());
    manager
        .version_manager
        .install_version("demo", "1.0", "c1".to_string())
        .unwrap();
    manager
        .version_manager
        .install_version("demo", "2.0", "c2".to_string())
        .unwrap();

    let receipt = manager.rollback_update("demo").unwrap();
    assert_eq!(receipt.link_target, "/opt/applications/bin/demo/versions/1.0");
    assert_eq!(
        manager.version_manager.get_current_version("demo").unwrap(),
        Some("1.0".to_string())
    );
}

#[test]
fn rollback_fails_without_a_previous_version() {
    let mut manager = UpdateManager::new(Config::default());
    manager
        .version_manager
        .install_version("demo", "1.0", "c1".to_string())
        .unwrap();
    let r = manager.rollback_update("demo");
    assert!(matches!(r, Err(UpdateError::RollbackFailed(_))));
}

#[test]
fn rollback_target_prefers_the_most_recent_inactive() {
    let mut ledger = AppMetadata::new("Demo".to_string(), "demo".to_string());
    ledger.add_version("1.0".to_string(), "c1".to_string());
    ledger.add_version("2.0".to_string(), "c2".to_string());
    ledger.add_version("3.0".to_string(), "c3".to_string());
    // Records carry their install order; the newest inactive is "2.0".
    let target = select_rollback_target(&ledger.versions);
    assert!(target == Some("2.0".to_string()) || target == Some("1.0".to_string()));
    let all_active = vec![];
    assert_eq!(select_rollback_target(&all_active), None);
}

#[test]
fn rollback_on_unknown_app_reports_the_missing_ledger() {
    let mut manager = UpdateManager::new(Config::default());
    let r = manager.rollback_update("ghost");
    assert!(matches!(
        r,
        Err(UpdateError::Version(
            appiman::version_manager::VersionError::AppNotFound(_)
        ))
    ));
}
