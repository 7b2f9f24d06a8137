use appiman::metadata::AppMetadata;
use appiman::metadata::Metadata;

#[test]
fn metadata_from_desktop_entry_parses_fields() {
    let content = "[Desktop Entry]\nName=Test Application\nCategories=Utility;Office;\nIcon=testapp\n";

    let metadata = Metadata::from_desktop_content(content);

    assert_eq!(metadata.name, "Test Application");
    assert_eq!(metadata.categories, vec!["Utility", "Office"]);
    assert_eq!(metadata.icon_path, Some("testapp".to_string()));
}

#[test]
fn metadata_setters_work() {
    let mut metadata = Metadata::new("TestApp".to_string(), "abc123".to_string());

    metadata.set_version("1.0.0".to_string());
    assert_eq!(metadata.version, Some("1.0.0".to_string()));

    metadata.set_icon_path("/path/to/icon.png".to_string());
    assert_eq!(metadata.icon_path, Some("/path/to/icon.png".to_string()));
}

#[test]
fn metadata_defaults_without_desktop_keys() {
    let metadata = Metadata::from_desktop_content("[Desktop Entry]\nComment=nothing useful\n");
    assert_eq!(metadata.name, "Unknown");
    assert_eq!(metadata.categories, vec!["Utility"]);
    assert_eq!(metadata.icon_path, None);
    assert_eq!(metadata.version, None);
}

#[test]
fn app_metadata_add_version_activates_only_newest() {
    let mut ledger = AppMetadata::new("Demo".to_string(), "demo".to_string());
    ledger.add_version("1.0".to_string(), "c1".to_string());
    ledger.add_version("2.0".to_string(), "c2".to_string());

    let active: Vec<&str> = ledger
        .versions
        .iter()
        .filter(|v| v.is_active)
        .map(|v| v.version.as_str())
        .collect();
    assert_eq!(active, vec!["2.0"]);
    assert_eq!(ledger.versions.len(), 2);
}

#[test]
fn app_metadata_set_active_version_flips_flags() {
    let mut ledger = AppMetadata::new("Demo".to_string(), "demo".to_string());
    ledger.add_version("1.0".to_string(), "c1".to_string());
    ledger.add_version("2.0".to_string(), "c2".to_string());

    assert!(ledger.set_active_version("1.0"));
    assert!(ledger.versions[0].is_active);
    assert!(!ledger.versions[1].is_active);
    assert!(!ledger.set_active_version("3.0"));
}

#[test]
fn app_metadata_remove_version_drops_record() {
    let mut ledger = AppMetadata::new("Demo".to_string(), "demo".to_string());
    ledger.add_version("1.0".to_string(), "c1".to_string());
    ledger.add_version("2.0".to_string(), "c2".to_string());

    assert!(ledger.remove_version("1.0"));
    assert_eq!(ledger.versions.len(), 1);
    assert_eq!(ledger.versions[0].version, "2.0");
    assert!(!ledger.remove_version("1.0"));
}
