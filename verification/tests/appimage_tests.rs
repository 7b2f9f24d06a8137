use appiman::appimage::AppImage;
use appiman::appimage::AppImageError;

#[test]
fn appimage_new_rejects_nonexistent_path() {
    let result = AppImage::new("/nonexistent/path.AppImage".to_string(), false);
    assert!(matches!(result, Err(AppImageError::NotFound(_))));
}

#[test]
fn appimage_new_rejects_invalid_extension() {
    let result = AppImage::new("/tmp/testfile.txt".to_string(), true);
    assert!(matches!(result, Err(AppImageError::InvalidFormat(_))));
}

#[test]
fn appimage_new_accepts_valid_extension() {
    let result = AppImage::new("/tmp/TestApp.AppImage".to_string(), true);
    assert!(result.is_ok());
}

#[test]
fn normalize_name_handles_appimage_files() {
    let app = AppImage::new("/tmp/TestApp-v1.2.3-x86_64.AppImage".to_string(), true).unwrap();
    assert_eq!(app.normalize_name(), "testapp");
}

#[test]
fn validate_works_on_valid_appimage() {
    let app = AppImage::new("/tmp/TestApp.AppImage".to_string(), true).unwrap();
    assert!(app.validate(true, true).is_ok());
    assert!(matches!(
        app.validate(false, true),
        Err(AppImageError::NotFound(_))
    ));
    assert!(matches!(
        app.validate(true, false),
        Err(AppImageError::InvalidFormat(_))
    ));
}

#[test]
fn get_checksum_returns_sha256_hash() {
    let content = b"test content for checksum";

    let app = AppImage::new("/tmp/test.AppImage".to_string(), true).unwrap();
    let checksum = app.get_checksum(content);

    assert_eq!(checksum.len(), 64);
    assert!(checksum
        .chars()
        .all(|c| c.is_ascii_hexdigit() || c.is_ascii_lowercase()));

    let expected_hash = <sha2::Sha256 as sha2::Digest>::digest(content);
    let expected_hex = hex::encode(expected_hash);
    assert_eq!(checksum, expected_hex);
}

#[test]
fn extension_check_ignores_ascii_case() {
    assert!(AppImage::new("/tmp/a.appimage".to_string(), true).is_ok());
    assert!(AppImage::new("/tmp/a.APPIMAGE".to_string(), true).is_ok());
    assert!(AppImage::new("/tmp/a".to_string(), true).is_err());
    assert!(AppImage::new("/tmp/.AppImage".to_string(), true).is_err());
}

#[test]
fn is_executable_checks_mode_bits() {
    let app = AppImage::new("/tmp/a.AppImage".to_string(), true).unwrap();
    assert!(app.is_executable(0o755));
    assert!(app.is_executable(0o100));
    assert!(!app.is_executable(0o644));
}
