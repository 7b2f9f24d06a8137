use appiman::desktop_entry::DesktopEntry;

#[test]
fn desktop_entry_generates_valid_content() {
    let entry = DesktopEntry::new(
        "Test App".to_string(),
        "/opt/applications/bin/testapp.AppImage".to_string(),
        "/opt/applications/icons/testapp.png".to_string(),
    );

    let content = entry.to_file_content();

    assert!(content.contains("[Desktop Entry]"));
    assert!(content.contains("Type=Application"));
    assert!(content.contains("Name=Test App"));
    assert!(content.contains("Exec=/opt/applications/bin/testapp.AppImage"));
    assert!(content.contains("Icon=/opt/applications/icons/testapp.png"));
    assert!(content.contains("Terminal=false"));
    assert!(content.contains("Categories=Utility"));
}

#[test]
fn desktop_entry_with_categories() {
    let entry = DesktopEntry::with_categories(
        "Test App".to_string(),
        "/opt/applications/bin/testapp.AppImage".to_string(),
        "/opt/applications/icons/testapp.png".to_string(),
        vec!["Utility".to_string(), "Office".to_string()],
    );

    let content = entry.to_file_content();

    assert!(content.contains("Categories=Utility;Office"));
}

#[test]
fn desktop_entry_sanitizes_newlines() {
    let entry = DesktopEntry::with_categories(
        "Bad\nName".to_string(),
        "/usr/local/bin/safe\nexec".to_string(),
        "icon\rpath".to_string(),
        vec!["Utility\nInjected".to_string()],
    );

    let content = entry.to_file_content();

    assert!(!content.contains("\nName=Bad\nName"));
    assert!(!content.contains("\nExec=/usr/local/bin/safe\nexec"));
    assert!(content.contains("Name=Bad Name"));
    assert!(content.contains("Exec=/usr/local/bin/safe exec"));
    assert!(content.contains("Icon=icon path"));
}

#[test]
fn desktop_entry_doubles_backslashes() {
    let entry = DesktopEntry::new(
        "Back\\slash".to_string(),
        "exec".to_string(),
        "icon".to_string(),
    );
    let content = entry.to_file_content();
    assert!(content.contains("Name=Back\\\\slash"));
}
