use versi::update::{
    asset_name, evaluate_app_update, evaluate_backend_update, is_newer_version,
    GitHubAsset, GitHubRelease,
};

#[test]
fn test_version_comparison() {
    assert!(is_newer_version("1.0.1", "1.0.0"));
    assert!(is_newer_version("1.1.0", "1.0.0"));
    assert!(is_newer_version("2.0.0", "1.9.9"));
    assert!(!is_newer_version("1.0.0", "1.0.0"));
    assert!(!is_newer_version("1.0.0", "1.0.1"));
    assert!(!is_newer_version("0.9.0", "1.0.0"));
}

#[test]
fn missing_trailing_components_default_to_zero() {
    assert!(is_newer_version("2.0", "1.9.9"));
    assert!(is_newer_version("2", "1.9.9"));
    assert!(!is_newer_version("2.0", "2.0.0"));
    assert!(!is_newer_version("2", "2.0.0"));
}

#[test]
fn non_numeric_tags_compare_by_plain_inequality() {
    assert!(is_newer_version("nightly", "1.0.0"));
    assert!(!is_newer_version("nightly", "nightly"));
    assert!(is_newer_version("1.0.0", "nightly"));
}

#[test]
fn asset_name_matches_platform() {
    assert_eq!(
        asset_name("1.2.3", "linux", "x86_64").as_deref(),
        Some("versi-1.2.3-linux-x64.zip")
    );
    assert_eq!(
        asset_name("1.2.3", "windows", "x86_64").as_deref(),
        Some("versi-1.2.3-windows-x64.msi")
    );
    assert_eq!(asset_name("1.2.3", "freebsd", "x86_64"), None);
}

#[test]
fn app_update_offered_only_when_newer() {
    let release = GitHubRelease {
        tag_name: "v1.1.0".to_string(),
        html_url: "https://example.invalid/release".to_string(),
        body: Some("notes".to_string()),
        assets: vec![GitHubAsset {
            name: "versi-1.1.0-linux-x64.zip".to_string(),
            browser_download_url: "https://example.invalid/dl".to_string(),
            size: 42,
        }],
    };
    let update = evaluate_app_update(&release, "v1.0.0", "linux", "x86_64").unwrap();
    assert_eq!(update.latest_version, "1.1.0");
    assert_eq!(update.current_version, "1.0.0");
    assert_eq!(update.download_url.as_deref(), Some("https://example.invalid/dl"));
    assert_eq!(update.download_size, Some(42));

    assert!(evaluate_app_update(&release, "v1.1.0", "linux", "x86_64").is_none());
}

#[test]
fn backend_update_strips_v_from_both_sides() {
    let update =
        evaluate_backend_update("v1.38.1", "https://example.invalid/fnm", "1.37.0")
            .unwrap();
    assert_eq!(update.latest_version, "1.38.1");
    assert_eq!(update.current_version, "1.37.0");
    assert!(evaluate_backend_update("v1.37.0", "u", "v1.37.0").is_none());
}
