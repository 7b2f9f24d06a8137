use appiman::config::Config;

#[test]
fn config_path_methods_work() {
    let config = Config::default();
    let raw_dir = config.raw_dir();
    let bin_dir = config.bin_dir();

    assert_eq!(raw_dir, "/opt/applications/raw".to_string());
    assert_eq!(bin_dir, "/opt/applications/bin".to_string());
}

#[test]
fn config_updates_defaults_work() {
    let config = Config::default();
    assert!(!config.updates.auto_update_enabled);
    assert!(config.updates.backup_enabled);
    assert_eq!(config.updates.max_backups, 3);
}

#[test]
fn config_default_directories() {
    let config = Config::default();
    assert_eq!(config.directories.desktop, "/usr/share/applications");
    assert_eq!(config.directories.symlink, "/usr/local/bin");
    assert_eq!(config.directories.home_root, "/home");
    assert_eq!(config.log_level(), "info");
    assert!(!config.json_output());
    assert_eq!(config.versions.max_versions_per_app, 5);
    assert!(config.versions.auto_cleanup_enabled);
    assert!(config.performance.thread_pool_size >= 1);
}
