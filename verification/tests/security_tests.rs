use appiman::security::SecurityChecker;
use appiman::security::SecurityReport;
use appiman::security::SecurityStatus;
use appiman::security::desktop_file_uses_sandboxing;
use appiman::security::sandboxing_indicated;

#[test]
fn security_report_new_is_secure() {
    let report = SecurityReport::new();
    assert!(report.is_secure());
}

#[test]
fn security_report_with_warning() {
    let report = SecurityReport::new().with_warning("test warning".to_string());
    assert!(!report.is_secure());
    assert!(matches!(report.overall_status, SecurityStatus::Warning(_)));
}

#[test]
fn checksum_failure_is_always_an_error() {
    let checker = SecurityChecker::new();
    let report = checker.compose_report(false, true, Some(true), true);
    assert!(matches!(report.overall_status, SecurityStatus::Error(_)));
    let report = checker.compose_report(false, false, None, false);
    assert!(matches!(report.overall_status, SecurityStatus::Error(_)));
}

#[test]
fn failed_signature_verification_is_an_error() {
    let checker = SecurityChecker::new();
    let report = checker.compose_report(true, true, Some(false), true);
    assert!(matches!(report.overall_status, SecurityStatus::Error(_)));
}

#[test]
fn unsigned_and_unsandboxed_warns() {
    let checker = SecurityChecker::new();
    let report = checker.compose_report(true, false, None, false);
    match report.overall_status {
        SecurityStatus::Warning(msg) => {
            assert!(msg.contains("No signature found"));
            assert!(msg.contains("; "));
            assert!(msg.contains("No sandboxing detected"));
        }
        other => panic!("expected warning, got {:?}", other),
    }
}

#[test]
fn signed_and_sandboxed_is_secure() {
    let checker = SecurityChecker::new();
    let report = checker.compose_report(true, true, None, true);
    assert!(report.is_secure());
}

#[test]
fn sandboxing_detected_from_exec_line() {
    assert!(desktop_file_uses_sandboxing(
        "[Desktop Entry]\nExec=firejail myapp\nName=X\n"
    ));
    assert!(desktop_file_uses_sandboxing("Exec=bwrap --ro-bind / / app\n"));
    assert!(!desktop_file_uses_sandboxing(
        "[Desktop Entry]\nExec=myapp\nName=firejail mention outside exec is first line only\n"
    ));
    assert!(!desktop_file_uses_sandboxing("Name=no exec line at all\n"));
}

#[test]
fn sandboxing_indicated_combines_facts() {
    assert!(sandboxing_indicated(true, false, &vec![]));
    assert!(sandboxing_indicated(false, true, &vec![]));
    assert!(sandboxing_indicated(
        false,
        false,
        &vec!["Exec=firejail app\n".to_string()]
    ));
    assert!(!sandboxing_indicated(false, false, &vec!["Exec=app\n".to_string()]));
}

#[test]
fn signature_verification_needs_presence_and_policy() {
    let mut checker = SecurityChecker::new();
    assert!(!checker.should_verify_signature(true));
    checker.verify_signatures = true;
    assert!(checker.should_verify_signature(true));
    assert!(!checker.should_verify_signature(false));
}
