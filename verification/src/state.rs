//! In-memory application state around the core: per-environment
//! version lists, the remote-version cache, notifications, onboarding
//! progress, and the messages initialization hands over.  Everything
//! here is a cache of backend truth, refreshed wholesale after every
//! completed operation.

use vstd::prelude::*;

use crate::model::{flatten_groups, groups_wf, InstalledVersion,
    InstalledVersionView, RemoteVersion, VersionGroup, clone_installed};
use crate::shell::ShellType;
use crate::update::{AppUpdate, BackendUpdate};
use crate::version::NodeVersion;

verus! {

/// Where a backend's commands execute: the native host, or a bridged
/// Linux distribution.
#[derive(Debug, Clone, PartialEq, Eq, Hash)]
pub enum EnvironmentId {
    Native,
    Wsl { distro: String },
}

impl EnvironmentId {
    pub fn display_name(&self) -> (r: String)
        ensures
            match self {
                EnvironmentId::Native => r@ == "Native"@,
                EnvironmentId::Wsl { distro } => r@ == "WSL: "@ + distro@,
            },
    {
        match self {
            EnvironmentId::Native => String::from_str("Native"),
            EnvironmentId::Wsl { distro } => {
                let mut s = String::from_str("WSL: ");
                s.append(distro.as_str());
                s
            },
        }
    }
}

/// First entry marked as the default, if the listing has one.
pub open spec fn first_default_spec(vs: Seq<InstalledVersionView>) -> Option<
    NodeVersion,
>
    decreases vs.len(),
{
    if vs.len() == 0 {
        None
    } else if vs[0].is_default {
        Some(vs[0].version)
    } else {
        first_default_spec(vs.drop_first())
    }
}

proof fn lemma_first_default_at(vs: Seq<InstalledVersionView>, i: int)
    requires
        0 <= i < vs.len(),
        vs[i].is_default,
        forall|j: int| 0 <= j < i ==> !(#[trigger] vs[j]).is_default,
    ensures
        first_default_spec(vs) == Some(vs[i].version),
    decreases i,
{
    if i > 0 {
        lemma_first_default_at(vs.drop_first(), i - 1);
    }
}

proof fn lemma_first_default_none(vs: Seq<InstalledVersionView>)
    requires
        forall|j: int| 0 <= j < vs.len() ==> !(#[trigger] vs[j]).is_default,
    ensures
        first_default_spec(vs) is None,
    decreases vs.len(),
{
    if vs.len() > 0 {
        lemma_first_default_none(vs.drop_first());
    }
}

/// The state of one backend environment: its installed versions, the
/// grouping derived from them, and the default.
#[derive(Debug)]
pub struct EnvironmentState {
    pub id: EnvironmentId,
    pub name: String,
    pub installed_versions: Vec<InstalledVersion>,
    pub version_groups: Vec<VersionGroup>,
    pub default_version: Option<NodeVersion>,
    pub backend_name: &'static str,
    pub backend_version: Option<String>,
    pub loading: bool,
    pub error: Option<String>,
    pub available: bool,
}

impl EnvironmentState {
    pub fn new(
        id: EnvironmentId,
        backend_name: &'static str,
        backend_version: Option<String>,
    ) -> (r: Self)
        ensures
            r.id == id,
            r.installed_versions@.len() == 0,
            r.version_groups@.len() == 0,
            r.default_version is None,
            r.backend_name == backend_name,
            r.backend_version.deep_view() == backend_version.deep_view(),
            r.loading,
            r.error is None,
            r.available,
    {
        let name = id.display_name();
        Self {
            id,
            name,
            installed_versions: Vec::new(),
            version_groups: Vec::new(),
            default_version: None,
            backend_name,
            backend_version,
            loading: true,
            error: None,
            available: true,
        }
    }

    /// An environment that exists but cannot be served, with the reason.
    pub fn unavailable(
        id: EnvironmentId,
        backend_name: &'static str,
        reason: &str,
    ) -> (r: Self)
        ensures
            r.id == id,
            r.installed_versions@.len() == 0,
            r.version_groups@.len() == 0,
            r.default_version is None,
            r.backend_name == backend_name,
            r.backend_version is None,
            !r.loading,
            r.error.deep_view() == Some(reason@),
            !r.available,
    {
        let name = id.display_name();
        Self {
            id,
            name,
            installed_versions: Vec::new(),
            version_groups: Vec::new(),
            default_version: None,
            backend_name,
            backend_version: None,
            loading: false,
            error: Some(reason.to_owned()),
            available: false,
        }
    }

    /// Replaces the whole version state from a fresh listing: the
    /// default is the first marked entry, the groups are rebuilt in
    /// full, and any error is cleared.
    pub fn update_versions(&mut self, versions: Vec<InstalledVersion>)
        ensures
            final(self).installed_versions.deep_view() == versions.deep_view(),
            final(self).default_version == first_default_spec(versions.deep_view()),
            groups_wf(final(self).version_groups.deep_view()),
            flatten_groups(final(self).version_groups.deep_view()).to_multiset()
                == versions.deep_view().to_multiset(),
            !final(self).loading,
            final(self).error is None,
            final(self).id == old(self).id,
            final(self).backend_name == old(self).backend_name,
    {
        let n = versions.len();
        let mut dflt: Option<NodeVersion> = None;
        let mut i: usize = 0;
        let mut copy: Vec<InstalledVersion> = Vec::new();
        proof {
            assert(copy.deep_view() =~= versions.deep_view().take(0));
        }
        while i < n
            invariant
                0 <= i <= n,
                n == versions@.len(),
                copy.deep_view() == versions.deep_view().take(i as int),
                dflt is None ==> forall|j: int|
                    0 <= j < i ==> !(#[trigger] versions.deep_view()[j]).is_default,
                dflt matches Some(d) ==> exists|j: int|
                    0 <= j < i && (#[trigger] versions.deep_view()[j]).is_default
                        && versions.deep_view()[j].version == d && forall|k: int|
                        0 <= k < j ==> !(#[trigger] versions.deep_view()[k])
                            .is_default,
            decreases n - i,
        {
            let ghost before = copy.deep_view();
            let v = clone_installed(&versions[i]);
            if v.is_default && dflt.is_none() {
                dflt = Some(v.version);
                proof {
                    assert(versions.deep_view()[i as int].is_default);
                }
            }
            copy.push(v);
            proof {
                assert(copy.deep_view() =~= before.push(versions.deep_view()[
                    i as int
                ]));
                assert(versions.deep_view().take(i + 1) =~= versions.deep_view()
                    .take(i as int).push(versions.deep_view()[i as int]));
            }
            i = i + 1;
        }
        proof {
            assert(versions.deep_view().take(n as int) =~= versions.deep_view());
            match dflt {
                Some(d) => {
                    let j = choose|j: int|
                        0 <= j < n && (#[trigger] versions.deep_view()[j])
                            .is_default && versions.deep_view()[j].version == d
                            && forall|k: int|
                            0 <= k < j ==> !(#[trigger] versions.deep_view()[k])
                                .is_default;
                    lemma_first_default_at(versions.deep_view(), j);
                },
                None => {
                    lemma_first_default_none(versions.deep_view());
                },
            }
        }
        self.default_version = dflt;
        self.version_groups = VersionGroup::from_versions(copy);
        self.installed_versions = versions;
        self.loading = false;
        self.error = None;
    }
}

/// A backend environment as initialization reports it.
#[derive(Debug, Clone)]
pub struct EnvironmentInfo {
    pub id: EnvironmentId,
    pub backend_name: &'static str,
    pub backend_version: Option<String>,
    pub available: bool,
    pub unavailable_reason: Option<String>,
}

/// Everything startup detection hands the application.
#[derive(Debug, Clone)]
pub struct InitResult {
    pub backend_found: bool,
    pub backend_path: Option<String>,
    pub backend_dir: Option<String>,
    pub backend_version: Option<String>,
    pub environments: Vec<EnvironmentInfo>,
    pub detected_backends: Vec<&'static str>,
}

/// The cached remote-version listing and how fresh it is.
#[derive(Debug)]
pub struct VersionCache {
    pub versions: Vec<RemoteVersion>,
    /// Seconds since the Unix epoch of the last successful fetch.
    pub fetched_at: Option<u64>,
    pub loading: bool,
    pub error: Option<String>,
    pub loaded_from_disk: bool,
    pub disk_cached_at: Option<i64>,
}

#[derive(Debug, Clone, PartialEq, Eq, Structural)]
pub enum NetworkStatus {
    Online,
    Fetching,
    Offline,
    Stale,
}

impl VersionCache {
    pub fn new() -> (r: Self)
        ensures
            r.versions@.len() == 0,
            r.fetched_at is None,
            !r.loading,
            r.error is None,
            !r.loaded_from_disk,
            r.disk_cached_at is None,
    {
        Self {
            versions: Vec::new(),
            fetched_at: None,
            loading: false,
            error: None,
            loaded_from_disk: false,
            disk_cached_at: None,
        }
    }

    /// Fetching wins over everything; an error means offline with no
    /// data and stale with old data; otherwise the cache is current.
    pub fn network_status(&self) -> (r: NetworkStatus)
        ensures
            r == (if self.loading {
                NetworkStatus::Fetching
            } else if self.error is Some {
                if self.versions@.len() == 0 {
                    NetworkStatus::Offline
                } else {
                    NetworkStatus::Stale
                }
            } else {
                NetworkStatus::Online
            }),
    {
        if self.loading {
            return NetworkStatus::Fetching;
        }
        if self.error.is_some() {
            if self.versions.is_empty() {
                return NetworkStatus::Offline;
            }
            return NetworkStatus::Stale;
        }
        NetworkStatus::Online
    }
}

/// A dismissible notification.
#[derive(Debug, Clone)]
pub struct Toast {
    pub id: usize,
    pub message: String,
    /// Seconds since the Unix epoch at creation, supplied by the caller
    /// because the clock lives outside.
    pub created_at: u64,
}

impl Toast {
    pub fn error(id: usize, message: String, now_secs: u64) -> (r: Self)
        ensures
            r.id == id,
            r.message@ == message@,
            r.created_at == now_secs,
    {
        Self { id, message, created_at: now_secs }
    }

    /// Expired strictly after the timeout has fully elapsed.
    pub fn is_expired(&self, now_secs: u64, timeout_secs: u64) -> (r: bool)
        ensures
            r == (now_secs > self.created_at && now_secs - self.created_at
                > timeout_secs),
    {
        now_secs > self.created_at && now_secs - self.created_at > timeout_secs
    }
}

/// Outcome of applying a downloaded application update.
#[derive(Debug, Clone, PartialEq, Eq, Structural)]
pub enum ApplyResult {
    RestartRequired,
    ExitForInstaller,
}

/// Progress of an application self-update.
#[derive(Debug, Clone)]
pub enum UpdateProgress {
    Downloading { downloaded: u64, total: u64 },
    Extracting,
    Applying,
    Complete(ApplyResult),
    Failed(String),
}

/// Where the in-app update flow stands.
#[derive(Debug, Clone)]
pub enum AppUpdateState {
    Idle,
    Downloading { downloaded: u64, total: u64 },
    Extracting,
    Applying,
    RestartRequired,
    Failed(String),
}

/// A confirmation dialog over a bulk action.
#[derive(Debug, Clone)]
pub enum Modal {
    ConfirmBulkUpdateMajors { versions: Vec<(String, String)> },
    ConfirmBulkUninstallEOL { versions: Vec<String> },
    ConfirmBulkUninstallMajor { major: u32, versions: Vec<String> },
    ConfirmBulkUninstallMajorExceptLatest {
        major: u32,
        versions: Vec<String>,
        keeping: String,
    },
}

/// One shell's setup state in the settings dialog.
#[derive(Debug, Clone)]
pub struct ShellSetupStatus {
    pub shell_type: ShellType,
    pub shell_name: String,
    pub status: ShellVerificationStatus,
    pub configuring: bool,
}

#[derive(Debug, Clone, PartialEq, Eq, Structural)]
pub enum ShellVerificationStatus {
    Configured,
    NotConfigured,
    NoConfigFile,
    FunctionalButNotInConfig,
    Error,
}

/// State behind the settings dialog.
#[derive(Debug, Clone)]
pub struct SettingsModalState {
    pub shell_statuses: Vec<ShellSetupStatus>,
    pub checking_shells: bool,
    pub log_file_size: Option<u64>,
}

impl SettingsModalState {
    pub fn new() -> (r: Self)
        ensures
            r.shell_statuses@.len() == 0,
            !r.checking_shells,
            r.log_file_size is None,
    {
        Self { shell_statuses: Vec::new(), checking_shells: false, log_file_size: None }
    }
}

/// The onboarding wizard's steps, in order.
#[derive(Debug, Clone, PartialEq, Eq, Structural)]
pub enum OnboardingStep {
    Welcome,
    SelectBackend,
    InstallBackend,
    ConfigureShell,
}

/// One shell's configuration state during onboarding.
#[derive(Debug, Clone)]
pub struct ShellConfigStatus {
    pub shell_type: ShellType,
    pub shell_name: String,
    pub configured: bool,
    pub config_path: Option<String>,
    pub configuring: bool,
    pub error: Option<String>,
}

/// A backend the wizard offers.
#[derive(Debug, Clone)]
pub struct BackendOption {
    pub name: &'static str,
    pub display_name: &'static str,
    pub detected: bool,
}

/// Where the onboarding wizard stands.
#[derive(Debug)]
pub struct OnboardingState {
    pub step: OnboardingStep,
    pub backend_installing: bool,
    pub install_error: Option<String>,
    pub detected_shells: Vec<ShellConfigStatus>,
    pub available_backends: Vec<BackendOption>,
    pub selected_backend: Option<String>,
}

impl OnboardingState {
    pub fn new() -> (r: Self)
        ensures
            r.step == OnboardingStep::Welcome,
            !r.backend_installing,
            r.install_error is None,
            r.detected_shells@.len() == 0,
            r.available_backends@.len() == 0,
            r.selected_backend is None,
    {
        Self {
            step: OnboardingStep::Welcome,
            backend_installing: false,
            install_error: None,
            detected_shells: Vec::new(),
            available_backends: Vec::new(),
            selected_backend: None,
        }
    }
}

/// The wizard's step indicator: positions shift down by one when no
/// backend choice is offered.
pub fn full_step_index(step: &OnboardingStep, has_select: bool) -> (r: usize)
    ensures
        r == (match step {
            OnboardingStep::Welcome => 0int,
            OnboardingStep::SelectBackend => 1int,
            OnboardingStep::InstallBackend => if has_select {
                2int
            } else {
                1int
            },
            OnboardingStep::ConfigureShell => if has_select {
                3int
            } else {
                2int
            },
        }),
{
    match step {
        OnboardingStep::Welcome => 0,
        OnboardingStep::SelectBackend => 1,
        OnboardingStep::InstallBackend => if has_select {
            2
        } else {
            1
        },
        OnboardingStep::ConfigureShell => if has_select {
            3
        } else {
            2
        },
    }
}

/// An update offer for either the application or the backend.
#[derive(Debug, Clone)]
pub enum UpdateOffer {
    App(AppUpdate),
    Backend(BackendUpdate),
}

} // verus!
