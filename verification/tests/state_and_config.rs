use versi::backend::{BackendDetection, FnmBackend, FnmProvider};
use versi::filters::{
    filter_available_versions, filter_group, filter_latest_patches,
    filter_version, format_bytes, get_recommended_versions, resolve_alias,
    to_lower,
};
use versi::model::{InstalledVersion, RemoteVersion, VersionGroup};
use versi::nvm_backend::{NvmClient, NvmProvider};
use versi::settings::{AppSettings, ShellOptions};
use versi::state::{
    full_step_index, EnvironmentId, EnvironmentState, NetworkStatus,
    OnboardingStep, Toast, VersionCache,
};
use versi::version::NodeVersion;

fn installed(maj: u32, min: u32, pat: u32, dflt: bool) -> InstalledVersion {
    InstalledVersion {
        version: NodeVersion::new(maj, min, pat),
        is_default: dflt,
        lts_codename: None,
        install_date: None,
        disk_size: None,
    }
}

fn remote(maj: u32, min: u32, pat: u32, lts: Option<&str>) -> RemoteVersion {
    RemoteVersion {
        version: NodeVersion::new(maj, min, pat),
        lts_codename: lts.map(|s| s.to_string()),
        is_latest: false,
    }
}

#[test]
fn update_versions_refreshes_everything() {
    let mut env = EnvironmentState::new(EnvironmentId::Native, "fnm", None);
    env.update_versions(vec![
        installed(20, 11, 0, false),
        installed(20, 10, 0, true),
        installed(18, 19, 1, false),
    ]);
    assert_eq!(env.default_version, Some(NodeVersion::new(20, 10, 0)));
    assert_eq!(env.installed_versions.len(), 3);
    assert_eq!(env.version_groups.len(), 2);
    assert!(!env.loading);
    assert!(env.error.is_none());
}

#[test]
fn unavailable_environment_keeps_its_reason() {
    let env = EnvironmentState::unavailable(
        EnvironmentId::Wsl {
            distro: "Ubuntu".to_string(),
        },
        "nvm",
        "backend not found",
    );
    assert!(!env.available);
    assert_eq!(env.error.as_deref(), Some("backend not found"));
    assert_eq!(env.name, "WSL: Ubuntu");
}

#[test]
fn network_status_follows_cache_state() {
    let mut cache = VersionCache::new();
    assert!(matches!(cache.network_status(), NetworkStatus::Online));
    cache.loading = true;
    assert!(matches!(cache.network_status(), NetworkStatus::Fetching));
    cache.loading = false;
    cache.error = Some("offline".to_string());
    assert!(matches!(cache.network_status(), NetworkStatus::Offline));
    cache.versions.push(remote(20, 11, 0, None));
    assert!(matches!(cache.network_status(), NetworkStatus::Stale));
}

#[test]
fn toast_expires_after_timeout() {
    let toast = Toast::error(1, "failed".to_string(), 100);
    assert!(!toast.is_expired(100, 5));
    assert!(!toast.is_expired(105, 5));
    assert!(toast.is_expired(106, 5));
}

#[test]
fn step_indicator_shifts_without_backend_choice() {
    assert_eq!(full_step_index(&OnboardingStep::Welcome, true), 0);
    assert_eq!(full_step_index(&OnboardingStep::InstallBackend, true), 2);
    assert_eq!(full_step_index(&OnboardingStep::InstallBackend, false), 1);
    assert_eq!(full_step_index(&OnboardingStep::ConfigureShell, false), 2);
}

#[test]
fn settings_defaults_match_documented_policy() {
    let s = AppSettings::default();
    assert_eq!(s.install_timeout_secs, 600);
    assert_eq!(s.uninstall_timeout_secs, 60);
    assert_eq!(s.set_default_timeout_secs, 60);
    assert_eq!(s.fetch_timeout_secs, 30);
    assert_eq!(s.retry_delays_secs, vec![0, 2, 5, 15]);
    let opts = s.shell_options_for("fnm");
    assert!(opts.use_on_cd && !opts.resolve_engines && !opts.corepack_enabled);
}

#[test]
fn shell_options_lookup_prefers_stored_entry() {
    let mut s = AppSettings::default();
    s.backend_shell_options.push((
        "fnm".to_string(),
        ShellOptions {
            use_on_cd: false,
            resolve_engines: true,
            corepack_enabled: false,
        },
    ));
    let opts = s.shell_options_for("fnm");
    assert!(!opts.use_on_cd && opts.resolve_engines);
    let other = s.shell_options_for("nvm");
    assert!(other.use_on_cd);
}

#[test]
fn fnm_native_command_carries_env_overrides() {
    let backend = FnmBackend::new("/usr/bin/fnm".to_string(), None, None)
        .with_fnm_dir("/data/fnm".to_string())
        .with_node_dist_mirror("https://mirror.invalid".to_string());
    let cmd = backend.build_command(&vec!["list".to_string()]);
    assert_eq!(cmd.program, "/usr/bin/fnm");
    assert_eq!(cmd.args, vec!["list"]);
    assert_eq!(
        cmd.envs,
        vec![
            ("FNM_DIR".to_string(), "/data/fnm".to_string()),
            (
                "FNM_NODE_DIST_MIRROR".to_string(),
                "https://mirror.invalid".to_string()
            ),
        ]
    );
}

#[test]
fn fnm_bridged_command_goes_through_the_bridge() {
    let backend = FnmBackend::with_wsl(
        "Ubuntu".to_string(),
        "/usr/bin/fnm".to_string(),
    );
    let cmd = backend.build_command(&vec!["list".to_string()]);
    assert_eq!(cmd.program, "wsl.exe");
    assert_eq!(cmd.args, vec!["-d", "Ubuntu", "--", "/usr/bin/fnm", "list"]);
    assert!(cmd.envs.is_empty());
}

#[test]
fn fnm_provider_binds_detection() {
    let provider = FnmProvider::new();
    let detection = BackendDetection {
        found: true,
        path: Some("/usr/bin/fnm".to_string()),
        version: Some("1.38.1".to_string()),
        in_path: true,
        data_dir: Some("/data/fnm".to_string()),
    };
    let backend = provider.create_manager(&detection);
    assert_eq!(backend.info.path, "/usr/bin/fnm");
    assert_eq!(backend.fnm_dir.as_deref(), Some("/data/fnm"));
    assert_eq!(provider.wsl_search_paths().len(), 5);
}

#[test]
fn nvm_unix_command_sources_the_script() {
    let client = NvmClient::unix("/home/user/.nvm".to_string());
    let cmd = client.command_for(&vec!["ls".to_string(), "--no-colors".to_string()]);
    assert_eq!(cmd.program, "bash");
    assert_eq!(
        cmd.args,
        vec!["-c", ". /home/user/.nvm/nvm.sh && nvm ls --no-colors"]
    );
}

#[test]
fn nvm_provider_cuts_script_suffix_for_bridged_path() {
    let provider = NvmProvider::new();
    let backend = provider.create_manager_for_wsl(
        "Ubuntu".to_string(),
        "/home/user/.nvm/nvm.sh".to_string(),
    );
    assert_eq!(backend.info.path, "/home/user/.nvm/nvm.sh");
    let init = backend.shell_init_command().unwrap();
    assert!(init.contains("NVM_DIR=\"/home/user/.nvm\""));
}

#[test]
fn filters_match_on_version_text_and_codename() {
    let group = VersionGroup {
        major: 20,
        versions: vec![InstalledVersion {
            version: NodeVersion::new(20, 11, 0),
            is_default: false,
            lts_codename: Some("Iron".to_string()),
            install_date: None,
            disk_size: None,
        }],
        is_expanded: true,
    };
    assert!(filter_group(&group, ""));
    assert!(filter_group(&group, "20.11"));
    assert!(filter_group(&group, "iron"));
    assert!(filter_group(&group, "lts"));
    assert!(!filter_group(&group, "22"));
    assert!(filter_version(&group.versions[0], "Iron"));
    assert!(!filter_version(&group.versions[0], "Hydrogen"));
}

#[test]
fn latest_patches_keep_one_entry_per_minor_line() {
    let versions = vec![
        remote(20, 11, 0, None),
        remote(20, 11, 1, None),
        remote(20, 10, 0, None),
        remote(22, 0, 0, None),
    ];
    let result = filter_latest_patches(&versions);
    let triples: Vec<(u32, u32, u32)> = result
        .iter()
        .map(|v| (v.version.major, v.version.minor, v.version.patch))
        .collect();
    assert_eq!(triples, vec![(22, 0, 0), (20, 11, 1), (20, 10, 0)]);
}

#[test]
fn alias_queries_resolve_to_the_newest_candidate() {
    let versions = vec![
        remote(22, 0, 0, None),
        remote(20, 18, 0, Some("Iron")),
        remote(18, 20, 4, Some("Hydrogen")),
    ];
    let latest = resolve_alias(&versions, "latest").unwrap();
    assert_eq!(latest.version, NodeVersion::new(22, 0, 0));
    let lts = resolve_alias(&versions, "lts/*").unwrap();
    assert_eq!(lts.version, NodeVersion::new(20, 18, 0));
    let named = resolve_alias(&versions, "lts/hydrogen").unwrap();
    assert_eq!(named.version, NodeVersion::new(18, 20, 4));
    assert!(resolve_alias(&versions, "20").is_none());
}

#[test]
fn byte_sizes_render_with_one_decimal() {
    assert_eq!(format_bytes(512), "512 B");
    assert_eq!(format_bytes(1024), "1.0 KB");
    assert_eq!(format_bytes(1536), "1.5 KB");
    assert_eq!(format_bytes(5 * 1024 * 1024), "5.0 MB");
    assert_eq!(format_bytes(3 * 1024 * 1024 * 1024), "3.0 GB");
}

#[test]
fn lowercasing_is_ascii_only() {
    assert_eq!(to_lower("LTS/Iron"), "lts/iron");
}

#[test]
fn recommended_versions_cover_the_newest_majors() {
    let versions = vec![
        remote(18, 19, 1, None),
        remote(20, 11, 0, Some("Iron")),
        remote(20, 11, 1, Some("Iron")),
        remote(22, 0, 0, None),
    ];
    let recommended = get_recommended_versions(&versions);
    let triples: Vec<(u32, u32, u32)> = recommended
        .iter()
        .map(|v| (v.version.major, v.version.minor, v.version.patch))
        .collect();
    assert_eq!(triples, vec![(22, 0, 0), (20, 11, 1), (18, 19, 1)]);
}

#[test]
fn available_search_resolves_aliases_and_filters_text() {
    let versions = vec![
        remote(22, 0, 0, None),
        remote(20, 18, 0, Some("Iron")),
        remote(20, 17, 0, Some("Iron")),
        remote(18, 20, 4, Some("Hydrogen")),
    ];
    let latest = filter_available_versions(&versions, "latest");
    assert_eq!(latest.len(), 1);
    assert_eq!(latest[0].version, NodeVersion::new(22, 0, 0));

    let lts = filter_available_versions(&versions, "lts");
    assert!(lts.iter().all(|v| v.lts_codename.is_some()));
    let majors: Vec<u32> = lts.iter().map(|v| v.version.major).collect();
    assert_eq!(majors, vec![20, 18]);

    let text = filter_available_versions(&versions, "iron");
    assert_eq!(text.len(), 2);
    assert!(text.iter().all(|v| v.lts_codename.as_deref() == Some("Iron")));
}
