use appiman::config::Config;
use appiman::metadata::AppMetadata;
use appiman::status::DirectoryUsage;
use appiman::status::StatusReporter;
use appiman::status::combine_storage_usage;

#[test]
fn status_reporter_creates_successfully() {
    let reporter = StatusReporter::new(Config::default());
    assert!(reporter.config.raw_dir().ends_with("raw"));
}

#[test]
fn storage_usage_totals_the_three_roots() {
    let bin = DirectoryUsage { path: "/opt/applications/bin".to_string(), file_count: 2, size_bytes: 100 };
    let raw = DirectoryUsage { path: "/opt/applications/raw".to_string(), file_count: 1, size_bytes: 40 };
    let icons = DirectoryUsage { path: "/opt/applications/icons".to_string(), file_count: 3, size_bytes: 5 };
    let usage = combine_storage_usage(bin, raw, icons);
    assert_eq!(usage.total_size_bytes, 145);
    assert_eq!(usage.bin_dir.file_count, 2);
}

#[test]
fn last_scan_timestamp_is_the_latest_install() {
    let mut reporter = StatusReporter::new(Config::default());
    assert_eq!(reporter.get_last_scan_timestamp(), None);

    let mut ledger = AppMetadata::new("Demo".to_string(), "demo".to_string());
    ledger.add_version("1.0".to_string(), "c1".to_string());
    let newest = ledger.versions[0].installed_at;
    reporter.version_manager.save_app_metadata(ledger);

    assert_eq!(reporter.get_last_scan_timestamp(), Some(newest));
}
