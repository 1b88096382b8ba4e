use versi::fnm::{parse_installed_versions, parse_remote_versions};

#[test]
fn test_parse_installed_versions_basic() {
    let output = "* v20.11.0 default\nv18.19.1\nv16.20.2";
    let versions = parse_installed_versions(output);
    assert_eq!(versions.len(), 3);
    assert!(versions[0].is_default);
    assert!(!versions[1].is_default);
    assert!(!versions[2].is_default);
}

#[test]
fn test_parse_installed_versions_empty() {
    let output = "";
    let versions = parse_installed_versions(output);
    assert!(versions.is_empty());
}

#[test]
fn test_parse_installed_versions_with_whitespace() {
    let output = "  v20.11.0  \n  v18.19.1  \n";
    let versions = parse_installed_versions(output);
    assert_eq!(versions.len(), 2);
}

#[test]
fn test_parse_installed_versions_skips_system() {
    let output = "system\n* system\nv20.11.0";
    let versions = parse_installed_versions(output);
    assert_eq!(versions.len(), 1);
    assert_eq!(versions[0].version.major, 20);
}

#[test]
fn test_parse_installed_versions_default_marker() {
    let output = "v20.11.0 default";
    let versions = parse_installed_versions(output);
    assert_eq!(versions.len(), 1);
    assert!(versions[0].is_default);
}

#[test]
fn test_parse_remote_versions_basic() {
    let output = "v22.0.0\nv21.7.3\nv20.18.0 (Iron)";
    let versions = parse_remote_versions(output);
    assert_eq!(versions.len(), 3);
    assert_eq!(versions[0].version.major, 22);
    assert!(versions[0].lts_codename.is_none());
    assert_eq!(versions[2].lts_codename, Some("Iron".to_string()));
}

#[test]
fn test_parse_remote_versions_empty() {
    let output = "";
    let versions = parse_remote_versions(output);
    assert!(versions.is_empty());
}

#[test]
fn test_parse_remote_versions_lts_codename() {
    let output = "v20.18.0 (Iron)\nv18.20.0 (Hydrogen)";
    let versions = parse_remote_versions(output);
    assert_eq!(versions.len(), 2);
    assert_eq!(versions[0].lts_codename, Some("Iron".to_string()));
    assert_eq!(versions[1].lts_codename, Some("Hydrogen".to_string()));
}

#[test]
fn test_parse_remote_versions_no_lts() {
    let output = "v23.0.0\nv22.5.0";
    let versions = parse_remote_versions(output);
    assert_eq!(versions.len(), 2);
    assert!(versions[0].lts_codename.is_none());
    assert!(versions[1].lts_codename.is_none());
}

#[test]
fn blank_lines_never_produce_entries() {
    let output = "\n\n   \nv20.11.0\n\n";
    let versions = parse_installed_versions(output);
    assert_eq!(versions.len(), 1);
}

#[test]
fn unparseable_lines_are_skipped_silently() {
    let output = "v20.11.0\ncompletely unrelated text\nv18.19.1";
    let versions = parse_installed_versions(output);
    assert_eq!(versions.len(), 2);
}

#[test]
fn remote_lts_annotation_must_be_parenthesized() {
    let output = "v20.18.0 Iron";
    let versions = parse_remote_versions(output);
    assert_eq!(versions.len(), 1);
    assert!(versions[0].lts_codename.is_none());
}
