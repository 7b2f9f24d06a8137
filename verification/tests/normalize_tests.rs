use appiman::normalize::normalize_appimage_name;

#[test]
fn normalize_removes_version() {
    assert_eq!(normalize_appimage_name("TestApp-v1.2.3"), "testapp");
    assert_eq!(normalize_appimage_name("TestApp-1.0.0"), "testapp");
    assert_eq!(normalize_appimage_name("TestApp-v2"), "testapp");
}

#[test]
fn normalize_removes_architecture() {
    assert_eq!(normalize_appimage_name("TestApp-x86_64"), "testapp");
    assert_eq!(normalize_appimage_name("TestApp-amd64"), "testapp");
    assert_eq!(normalize_appimage_name("TestApp-i386"), "testapp");
    assert_eq!(normalize_appimage_name("TestApp-linux"), "testapp");
}

#[test]
fn normalize_removes_appimage_suffix() {
    assert_eq!(normalize_appimage_name("TestApp.AppImage"), "testapp");
    assert_eq!(normalize_appimage_name("TestApp_AppImage"), "testapp");
}

#[test]
fn normalize_normalizes_separators() {
    assert_eq!(
        normalize_appimage_name("My_Application-v1.0.AppImage"),
        "my-application"
    );
    assert_eq!(
        normalize_appimage_name("My--Application___v1.0.AppImage"),
        "my-application"
    );
}

#[test]
fn normalize_handles_complex_names() {
    assert_eq!(
        normalize_appimage_name("MyAwesomeApp-v2.1.0-x86_64.AppImage"),
        "myawesomeapp"
    );
    assert_eq!(
        normalize_appimage_name("MyAwesome_App-1.5.3_amd64.AppImage"),
        "myawesome-app"
    );
}

#[test]
fn normalize_handles_empty_input() {
    assert_eq!(normalize_appimage_name(""), "");
    assert_eq!(normalize_appimage_name("  "), "");
}

#[test]
fn normalize_preserves_valid_names() {
    assert_eq!(normalize_appimage_name("MyApplication"), "myapplication");
    assert_eq!(normalize_appimage_name("test-app"), "test-app");
}

#[test]
fn normalize_output_has_no_version_or_arch_characters() {
    let inputs = [
        "Weird-v0.0.0.1-x86_64_linux-setup.AppImage",
        "a1b2c3-v9",
        "_._-__..--",
        "Tool_amd64_i386_v7.AppImage",
    ];
    for input in inputs {
        let out = normalize_appimage_name(input);
        assert!(
            out.chars().all(|c| !c.is_ascii_digit() && c != '_' && c != '.'),
            "unexpected token character in {:?}",
            out
        );
        assert!(
            out.chars().all(|c| !c.is_ascii_uppercase()),
            "uppercase survived in {:?}",
            out
        );
        assert!(!out.starts_with('-') && !out.ends_with('-'), "untrimmed: {:?}", out);
    }
}
