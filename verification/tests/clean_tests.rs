use appiman::clean::is_legacy_artifact;
use appiman::clean::legacy_desktop_entry;

#[test]
fn legacy_names_are_recognized() {
    assert!(is_legacy_artifact("testapp-v1.0.AppImage"));
    assert!(is_legacy_artifact("testapp-v1.0.png"));
    assert!(is_legacy_artifact("tool-x86_64"));
    assert!(is_legacy_artifact("tool_amd64"));
    assert!(!is_legacy_artifact("testapp.AppImage"));
    assert!(!is_legacy_artifact("testapp.png"));
    assert!(!is_legacy_artifact("testapp"));
}

#[test]
fn legacy_desktop_entries_need_both_marks() {
    let bin = "/opt/applications/bin";
    let legacy = "[Desktop Entry]\nExec=/opt/applications/bin/testapp-v1.0.AppImage\n";
    let current = "[Desktop Entry]\nExec=/opt/applications/bin/testapp.AppImage\n";
    let foreign = "[Desktop Entry]\nExec=/usr/bin/other-v1.0\n";
    assert!(legacy_desktop_entry(legacy, bin));
    assert!(!legacy_desktop_entry(current, bin));
    assert!(!legacy_desktop_entry(foreign, bin));
}
