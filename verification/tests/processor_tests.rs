use appiman::config::Config;
use appiman::metadata::Metadata;
use appiman::processor::DirEntryFacts;
use appiman::processor::ProcessedApp;
use appiman::processor::Processor;
use appiman::processor::aggregate_results;
use appiman::processor::default_display_name;
use appiman::processor::derive_identity;
use appiman::processor::parse_trailing_version;
use appiman::security::SecurityChecker;
use appiman::version_manager::VersionManager;

fn processor() -> Processor {
    Processor::new(
        "/opt/applications/raw".to_string(),
        "/opt/applications/bin".to_string(),
        "/opt/applications/icons".to_string(),
        "/usr/share/applications".to_string(),
        "/usr/local/bin".to_string(),
        VersionManager::new(Config::default()),
        SecurityChecker::new(),
    )
}

#[test]
fn desktop_entry_exec_points_to_symlink_target() {
    let p = processor();
    let metadata = Metadata::new("Test App".to_string(), "checksum".to_string());

    let publication = p.publication(&metadata, &None, "test-app");

    assert_eq!(publication.symlink_path, "/usr/local/bin/test-app");
    assert!(publication
        .desktop_content
        .contains("Exec=/usr/local/bin/test-app"));
    assert!(!publication.desktop_content.contains("Exec=/usr/share/applications/"));
    assert_eq!(
        publication.symlink_target,
        "/opt/applications/bin/test-app/current/test-app.AppImage"
    );
    assert_eq!(
        publication.desktop_path,
        "/usr/share/applications/test-app.desktop"
    );
}

#[test]
fn cache_entry_is_usable_requires_expected_exec_and_symlink() {
    let p = processor();
    let name = "demoapp";

    let good = format!(
        "[Desktop Entry]\nType=Application\nName=Demo\nExec={}\n",
        "/usr/local/bin/demoapp"
    );
    assert!(p.cache_entry_is_usable(name, &Some(good.clone()), true));

    let bad = format!(
        "[Desktop Entry]\nType=Application\nName=Demo\nExec={}\n",
        "/usr/share/applications/demoapp.desktop"
    );
    assert!(!p.cache_entry_is_usable(name, &Some(bad), true));

    assert!(!p.cache_entry_is_usable(name, &Some(good.clone()), false));
    assert!(!p.cache_entry_is_usable(name, &None, true));
}

#[test]
fn cache_hit_with_missing_symlink_forces_reprocessing() {
    let mut p = processor().with_performance_config(
        Some("/opt/applications/raw/.cache".to_string()),
        false,
        false,
        None,
    );
    p.record_processing(
        "/opt/applications/raw/Demo.AppImage",
        "deadbeef".to_string(),
        100,
        "demoapp".to_string(),
        "1.0".to_string(),
    );
    let content = Some("[Desktop Entry]\nExec=/usr/local/bin/demoapp\n".to_string());

    let hit = p.cached_identity(
        "/opt/applications/raw/Demo.AppImage",
        "deadbeef",
        &content,
        true,
    );
    assert_eq!(hit, Some("demoapp".to_string()));

    let no_symlink = p.cached_identity(
        "/opt/applications/raw/Demo.AppImage",
        "deadbeef",
        &content,
        false,
    );
    assert_eq!(no_symlink, None);

    let wrong_checksum = p.cached_identity(
        "/opt/applications/raw/Demo.AppImage",
        "0123abcd",
        &content,
        true,
    );
    assert_eq!(wrong_checksum, None);
}

#[test]
fn batch_reports_one_success_and_one_failure() {
    let mut p = processor();
    let good = p.register_bundle("goodapp", "1.0", "c1".to_string());
    let results = vec![
        good.map(|_| ProcessedApp {
            normalized_name: "goodapp".to_string(),
            appimage_path: "/opt/applications/raw/GoodApp.AppImage".to_string(),
        })
        .map_err(|e| {
            (
                "/opt/applications/raw/GoodApp.AppImage".to_string(),
                format!("{:?}", e),
            )
        }),
        Err((
            "/opt/applications/raw/Corrupt.AppImage".to_string(),
            "Extraction failed".to_string(),
        )),
    ];

    let report = aggregate_results(&results, Vec::new(), 5, 0, 1);
    assert_eq!(report.success_count(), 1);
    assert_eq!(report.failure_count(), 1);
    assert_eq!(report.processed[0].normalized_name, "goodapp");
    assert_eq!(report.failed[0].0, "/opt/applications/raw/Corrupt.AppImage");

    // The failure did not keep the success out of the ledger.
    let versions = p.version_manager.list_versions("goodapp").unwrap();
    assert_eq!(versions.len(), 1);
    assert!(versions[0].is_active);
}

#[test]
fn dry_run_decides_but_changes_nothing() {
    let mut live = processor();
    let mut dry = processor().with_dry_run(true);

    let live_result = live.register_bundle("demo", "1.0", "c1".to_string());
    let dry_result = dry.register_bundle("demo", "1.0", "c1".to_string());

    assert!(matches!(live_result, Ok(Some(_))));
    assert!(matches!(dry_result, Ok(None)));
    assert!(live.version_manager.list_versions("demo").is_ok());
    assert!(dry.version_manager.list_versions("demo").is_err());

    dry.record_processing(
        "/opt/applications/raw/Demo.AppImage",
        "c1".to_string(),
        1,
        "demo".to_string(),
        "1.0".to_string(),
    );
    assert!(dry.cache.is_none());
}

#[test]
fn select_candidates_filters_and_skips() {
    let p = processor().with_performance_config(None, false, true, Some(100));
    let entries = vec![
        DirEntryFacts { path: "/raw/Old.AppImage".to_string(), mtime: Some(50) },
        DirEntryFacts { path: "/raw/New.AppImage".to_string(), mtime: Some(150) },
        DirEntryFacts { path: "/raw/notes.txt".to_string(), mtime: Some(10) },
        DirEntryFacts { path: "/raw/NoTime.AppImage".to_string(), mtime: None },
    ];
    let (to_process, skipped) = p.select_candidates(&entries);
    assert_eq!(
        to_process,
        vec!["/raw/New.AppImage".to_string(), "/raw/NoTime.AppImage".to_string()]
    );
    assert_eq!(skipped, vec!["/raw/Old.AppImage".to_string()]);
}

#[test]
fn trailing_version_parsing_matches_the_heuristic() {
    assert_eq!(parse_trailing_version("app-v1.2.3"), Some("1.2.3".to_string()));
    assert_eq!(parse_trailing_version("app-1.0.0"), Some("1.0.0".to_string()));
    assert_eq!(parse_trailing_version("app"), None);
    assert_eq!(parse_trailing_version("my-app"), None);
    assert_eq!(parse_trailing_version("app-"), Some("".to_string()));
}

#[test]
fn version_label_falls_back_to_timestamp() {
    let p = processor();
    let label = p.extract_version_from_appimage("plainapp", "plainapp");
    assert!(label.starts_with("plainapp-"));
    let parsed = p.extract_version_from_appimage("TestApp-v1.2.3", "testapp");
    assert_eq!(parsed, "1.2.3");
}

#[test]
fn identity_derivation_rejects_names_that_normalize_away() {
    assert_eq!(derive_identity("TestApp-v1.2.3").unwrap(), "testapp");
    assert!(derive_identity("v1.0").is_err());
    assert!(derive_identity("x86_64").is_err());
    assert!(derive_identity("").is_err());
}

#[test]
fn default_display_name_capitalizes_the_identity() {
    assert_eq!(default_display_name("testapp"), "Testapp");
    assert_eq!(default_display_name("my-app"), "My-app");
    assert_eq!(default_display_name("7zip"), "7zip");
    assert_eq!(default_display_name(""), "");
}
