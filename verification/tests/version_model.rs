use versi::model::{InstalledVersion, VersionGroup};
use versi::version::NodeVersion;

#[test]
fn test_parse_version_with_v_prefix() {
    let v: NodeVersion = "v20.11.0".parse().unwrap();
    assert_eq!(v.major, 20);
    assert_eq!(v.minor, 11);
    assert_eq!(v.patch, 0);
}

#[test]
fn test_parse_version_without_v_prefix() {
    let v: NodeVersion = "20.11.0".parse().unwrap();
    assert_eq!(v.major, 20);
    assert_eq!(v.minor, 11);
    assert_eq!(v.patch, 0);
}

#[test]
fn test_parse_version_with_whitespace() {
    let v: NodeVersion = "  v20.11.0  ".parse().unwrap();
    assert_eq!(v.major, 20);
}

#[test]
fn test_parse_version_invalid_format() {
    let result: Result<NodeVersion, _> = "v20.11".parse();
    assert!(result.is_err());
}

#[test]
fn test_parse_version_invalid_major() {
    let result: Result<NodeVersion, _> = "vXX.11.0".parse();
    assert!(result.is_err());
}

#[test]
fn test_version_display() {
    let v = NodeVersion::new(20, 11, 0);
    assert_eq!(v.to_version_string(), "v20.11.0");
}

#[test]
fn test_version_ordering_by_major() {
    let v1: NodeVersion = "v18.0.0".parse().unwrap();
    let v2: NodeVersion = "v20.0.0".parse().unwrap();
    assert!(v2 > v1);
}

#[test]
fn test_version_ordering_by_minor() {
    let v1: NodeVersion = "v20.10.0".parse().unwrap();
    let v2: NodeVersion = "v20.11.0".parse().unwrap();
    assert!(v2 > v1);
}

#[test]
fn test_version_ordering_by_patch() {
    let v1: NodeVersion = "v20.11.0".parse().unwrap();
    let v2: NodeVersion = "v20.11.1".parse().unwrap();
    assert!(v2 > v1);
}

#[test]
fn test_version_equality() {
    let v1: NodeVersion = "v20.11.0".parse().unwrap();
    let v2: NodeVersion = "v20.11.0".parse().unwrap();
    assert_eq!(v1, v2);
}

#[test]
fn test_version_major_group() {
    let v = NodeVersion::new(20, 11, 0);
    assert_eq!(v.major_group(), 20);
}

#[test]
fn test_version_group_from_versions() {
    let versions = vec![
        InstalledVersion {
            version: NodeVersion::new(20, 11, 0),
            is_default: true,
            lts_codename: None,
            install_date: None,
            disk_size: None,
        },
        InstalledVersion {
            version: NodeVersion::new(20, 10, 0),
            is_default: false,
            lts_codename: None,
            install_date: None,
            disk_size: None,
        },
        InstalledVersion {
            version: NodeVersion::new(18, 19, 0),
            is_default: false,
            lts_codename: None,
            install_date: None,
            disk_size: None,
        },
    ];

    let groups = VersionGroup::from_versions(versions);

    assert_eq!(groups.len(), 2);
    assert_eq!(groups[0].major, 20);
    assert_eq!(groups[1].major, 18);
    assert_eq!(groups[0].versions.len(), 2);
    assert_eq!(groups[1].versions.len(), 1);
}

#[test]
fn test_version_group_sorted_descending() {
    let versions = vec![
        InstalledVersion {
            version: NodeVersion::new(20, 10, 0),
            is_default: false,
            lts_codename: None,
            install_date: None,
            disk_size: None,
        },
        InstalledVersion {
            version: NodeVersion::new(20, 11, 0),
            is_default: false,
            lts_codename: None,
            install_date: None,
            disk_size: None,
        },
    ];

    let groups = VersionGroup::from_versions(versions);

    assert_eq!(groups[0].versions[0].version.minor, 11);
    assert_eq!(groups[0].versions[1].version.minor, 10);
}

#[test]
fn test_version_group_empty() {
    let versions: Vec<InstalledVersion> = vec![];
    let groups = VersionGroup::from_versions(versions);
    assert!(groups.is_empty());
}

#[test]
fn test_version_group_is_expanded_default() {
    let versions = vec![InstalledVersion {
        version: NodeVersion::new(20, 11, 0),
        is_default: false,
        lts_codename: None,
        install_date: None,
        disk_size: None,
    }];

    let groups = VersionGroup::from_versions(versions);
    assert!(groups[0].is_expanded);
}

#[test]
fn round_trip_holds_on_concrete_versions() {
    for (maj, min, pat) in [(0u32, 0u32, 0u32), (20, 11, 0), (4294967295, 1, 2)] {
        let v = NodeVersion::new(maj, min, pat);
        let text = v.to_version_string();
        let back: NodeVersion = text.parse().unwrap();
        assert_eq!(back, v);
    }
}

#[test]
fn parse_rejects_component_overflow() {
    let result: Result<NodeVersion, _> = "v4294967296.0.0".parse();
    assert!(result.is_err());
}

#[test]
fn parse_ignores_extra_components() {
    let v: NodeVersion = "v20.11.0.7".parse().unwrap();
    assert_eq!(v, NodeVersion::new(20, 11, 0));
}

#[test]
fn parse_error_names_first_bad_component() {
    let err = match "20.x.0".parse::<NodeVersion>() {
        Err(e) => e,
        Ok(_) => panic!("expected a parse failure"),
    };
    assert!(err.0.contains("minor"));
}

#[test]
fn order_is_transitive_on_concrete_versions() {
    let a = NodeVersion::new(18, 19, 1);
    let b = NodeVersion::new(20, 10, 0);
    let c = NodeVersion::new(20, 11, 0);
    assert!(a < b && b < c && a < c);
}

#[test]
fn grouping_keeps_every_entry() {
    let versions: Vec<InstalledVersion> = [
        (22, 1, 0),
        (20, 11, 1),
        (20, 11, 0),
        (18, 19, 1),
        (22, 0, 0),
    ]
    .iter()
    .map(|&(a, b, c)| InstalledVersion {
        version: NodeVersion::new(a, b, c),
        is_default: false,
        lts_codename: None,
        install_date: None,
        disk_size: None,
    })
    .collect();

    let groups = VersionGroup::from_versions(versions);
    let total: usize = groups.iter().map(|g| g.versions.len()).sum();
    assert_eq!(total, 5);
    let majors: Vec<u32> = groups.iter().map(|g| g.major).collect();
    assert_eq!(majors, vec![22, 20, 18]);
    for g in &groups {
        for w in g.versions.windows(2) {
            assert!(w[0].version >= w[1].version);
        }
        for m in &g.versions {
            assert_eq!(m.version.major, g.major);
        }
    }
}
