use appiman::icon::icon_destination;
use appiman::icon::pick_icon;

#[test]
fn extract_icon_finds_png() {
    let names = vec!["icon.png".to_string()];
    let pick = pick_icon(&names).unwrap();
    let dest = icon_destination("/opt/applications/icons", "testapp", &names[pick]);
    assert!(dest.ends_with("testapp.png"));
}

#[test]
fn extract_icon_finds_svg() {
    let names = vec!["icon.svg".to_string()];
    let pick = pick_icon(&names).unwrap();
    let dest = icon_destination("/opt/applications/icons", "testapp", &names[pick]);
    assert!(dest.ends_with("testapp.svg"));
}

#[test]
fn extract_icon_skips_non_image_files() {
    let names = vec!["readme.txt".to_string(), "binary".to_string()];
    assert!(pick_icon(&names).is_none());
}

#[test]
fn extract_icon_returns_none_for_empty_dir() {
    let names: Vec<String> = vec![];
    assert!(pick_icon(&names).is_none());
}

#[test]
fn icon_pick_takes_the_first_image() {
    let names = vec![
        "readme.txt".to_string(),
        "logo.PNG".to_string(),
        "other.svg".to_string(),
    ];
    assert_eq!(pick_icon(&names), Some(1));
    assert_eq!(
        icon_destination("/icons", "app", "logo.PNG"),
        "/icons/app.PNG"
    );
}
