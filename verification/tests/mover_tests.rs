use appiman::mover::MoveReport;
use appiman::mover::Mover;
use appiman::mover::Scanner;
use appiman::mover::collision_candidate;

#[test]
fn move_report_counts_outcomes() {
    let mut report = MoveReport::new();
    assert_eq!(report.success_count(), 0);
    assert!(!report.has_errors());

    report.moved.push("/raw/A.AppImage".to_string());
    report.errors.push(("/home/x/B.AppImage".to_string(), "denied".to_string()));
    assert_eq!(report.success_count(), 1);
    assert_eq!(report.error_count(), 1);
    assert!(report.has_errors());
}

#[test]
fn mover_destination_is_the_file_name_under_dest() {
    let mover = Mover::new("/home".to_string(), "/opt/applications/raw".to_string());
    assert!(!mover.dry_run);
    let dest = mover
        .determine_destination("/home/alice/Downloads/Test.AppImage")
        .unwrap();
    assert_eq!(dest, "/opt/applications/raw/Test.AppImage");
}

#[test]
fn mover_dry_run_flag_is_kept() {
    let mover = Mover::new("/home".to_string(), "/raw".to_string()).with_dry_run(true);
    assert!(mover.dry_run);
}

#[test]
fn collision_candidates_count_upward() {
    assert_eq!(
        collision_candidate("/raw/Same.AppImage", 1).unwrap(),
        "/raw/Same-1.AppImage"
    );
    assert_eq!(
        collision_candidate("/raw/Same.AppImage", 2).unwrap(),
        "/raw/Same-2.AppImage"
    );
    assert_eq!(
        collision_candidate("/raw/Same.AppImage", 12).unwrap(),
        "/raw/Same-12.AppImage"
    );
    assert_eq!(collision_candidate("/raw/noext", 1).unwrap(), "/raw/noext-1");
}

#[test]
fn scanner_excludes_cache_and_local_share() {
    let scanner = Scanner::new("/home".to_string());
    assert!(scanner.is_excluded("/home/.cache/thing.AppImage"));
    assert!(scanner.is_excluded("/home/.local/share/app.AppImage"));
    assert!(scanner.is_excluded("/home/.cache"));
    assert!(!scanner.is_excluded("/home/.cachet/app.AppImage"));
    assert!(!scanner.is_excluded("/home/alice/Downloads/app.AppImage"));
}

#[test]
fn scanner_with_excludes_keeps_the_given_list() {
    let scanner = Scanner::with_excludes(
        "/home".to_string(),
        vec!["/home/tmp".to_string()],
    );
    assert!(scanner.is_excluded("/home/tmp/x"));
    assert!(!scanner.is_excluded("/home/.cache/x"));
}
