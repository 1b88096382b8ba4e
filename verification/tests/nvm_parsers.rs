use versi::nvm::{
    clean_output, parse_unix_installed, parse_unix_remote, parse_windows_installed,
    parse_windows_remote,
};

#[test]
fn test_parse_unix_installed_basic() {
    let output = "->     v20.11.0\n       v18.19.1\ndefault -> 20 (-> v20.11.0)\n";
    let versions = parse_unix_installed(output);

    assert_eq!(versions.len(), 2);
    assert_eq!(versions[0].version.major, 20);
    assert_eq!(versions[0].version.minor, 11);
    assert!(versions[0].is_default);
    assert_eq!(versions[1].version.major, 18);
    assert!(!versions[1].is_default);
}

#[test]
fn test_parse_unix_installed_empty() {
    let output = "";
    let versions = parse_unix_installed(output);
    assert!(versions.is_empty());
}

#[test]
fn test_parse_unix_installed_skips_aliases() {
    let output = "->     v20.11.0\n       v18.19.1\ndefault -> 20 (-> v20.11.0)\nnode -> stable (-> v20.11.0) (default)\nstable -> 20.11 (-> v20.11.0)\nlts/* -> lts/iron (-> v20.11.0)\nlts/iron -> v20.11.0\n";
    let versions = parse_unix_installed(output);
    assert_eq!(versions.len(), 2);
}

#[test]
fn test_parse_windows_installed_basic() {
    let output = "  * 20.11.0 (Currently using 64-bit executable)\n    18.19.1\n";
    let versions = parse_windows_installed(output);

    assert_eq!(versions.len(), 2);
    assert_eq!(versions[0].version.major, 20);
    assert!(versions[0].is_default);
    assert_eq!(versions[1].version.major, 18);
    assert!(!versions[1].is_default);
}

#[test]
fn test_parse_unix_remote_basic() {
    let output = "        v20.10.0\n        v20.11.0   (Latest LTS: Iron)\n        v21.0.0\n";
    let versions = parse_unix_remote(output);

    assert_eq!(versions.len(), 3);
    assert_eq!(versions[0].version.major, 20);
    assert!(versions[0].lts_codename.is_none());
    assert_eq!(versions[1].version.major, 20);
    assert_eq!(versions[1].lts_codename.as_deref(), Some("Iron"));
    assert!(versions[1].is_latest);
    assert_eq!(versions[2].version.major, 21);
}

#[test]
fn test_parse_unix_remote_with_lts() {
    let output = "        v18.19.0   (LTS: Hydrogen)\n        v18.19.1   (Latest LTS: Hydrogen)\n";
    let versions = parse_unix_remote(output);

    assert_eq!(versions.len(), 2);
    assert_eq!(versions[0].lts_codename.as_deref(), Some("Hydrogen"));
    assert!(!versions[0].is_latest);
    assert_eq!(versions[1].lts_codename.as_deref(), Some("Hydrogen"));
    assert!(versions[1].is_latest);
}

#[test]
fn test_clean_output_strips_ansi() {
    let input = "\x1b[32m->     v20.11.0\x1b[0m";
    let cleaned = clean_output(input);
    assert_eq!(cleaned, "->     v20.11.0");
}

#[test]
fn test_clean_output_no_ansi() {
    let input = "v20.11.0";
    let cleaned = clean_output(input);
    assert_eq!(cleaned, "v20.11.0");
}

#[test]
fn test_parse_windows_remote_table() {
    let output = "|   CURRENT    |     LTS      |  OLD STABLE  | OLD UNSTABLE |\n|--------------|--------------|--------------|              |\n|    21.6.1    |   20.11.1    |   18.19.1    |              |\n|    21.6.0    |   20.11.0    |   18.19.0    |              |\n";
    let versions = parse_windows_remote(output);

    assert!(!versions.is_empty());
    let majors: Vec<u32> = versions.iter().map(|v| v.version.major).collect();
    assert!(majors.contains(&21));
    assert!(majors.contains(&20));
    assert!(majors.contains(&18));
}

#[test]
fn last_default_alias_line_wins() {
    let output = "default -> 18 (-> v18.19.1)\n       v18.19.1\n       v20.11.0\ndefault -> 20 (-> v20.11.0)\n";
    let versions = parse_unix_installed(output);
    assert_eq!(versions.len(), 2);
    assert!(!versions[0].is_default);
    assert!(versions[1].is_default);
}

#[test]
fn windows_rows_before_header_are_ignored() {
    let output = "nvm list available\n|    21.6.1    |\n|   CURRENT    |\n|    20.11.1   |\n";
    let versions = parse_windows_remote(output);
    assert_eq!(versions.len(), 1);
    assert_eq!(versions[0].version.major, 20);
}

#[test]
fn escape_without_bracket_drops_one_character() {
    let input = "a\x1bxb";
    assert_eq!(clean_output(input), "ab");
}
