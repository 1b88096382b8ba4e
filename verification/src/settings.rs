//! The read-only configuration this core is handed: timeouts, the
//! retry ladder, per-backend shell options, and presentation knobs.
//! Loading and saving the file live outside; the defaults and lookups
//! are owned here.

use vstd::prelude::*;

use crate::text::str_eq;

verus! {

#[derive(Debug, Clone, Copy, PartialEq, Eq, Structural)]
pub enum ThemeSetting {
    System,
    Light,
    Dark,
}

#[derive(Debug, Clone, Copy, PartialEq, Eq, Structural)]
pub enum TrayBehavior {
    WhenWindowOpen,
    AlwaysRunning,
    Disabled,
}

/// Per-backend shell-activation options.
#[derive(Debug, Clone, Copy, PartialEq, Eq, Structural)]
pub struct ShellOptions {
    pub use_on_cd: bool,
    pub resolve_engines: bool,
    pub corepack_enabled: bool,
}

impl DeepView for ShellOptions {
    type V = ShellOptions;

    open spec fn deep_view(&self) -> ShellOptions {
        *self
    }
}

impl Default for ShellOptions {
    fn default() -> (r: Self)
        ensures
            r.use_on_cd && !r.resolve_engines && !r.corepack_enabled,
    {
        Self { use_on_cd: true, resolve_engines: false, corepack_enabled: false }
    }
}

pub fn default_true() -> (r: bool)
    ensures
        r,
{
    true
}

pub fn default_cache_ttl() -> (r: u64)
    ensures
        r == 1,
{
    1
}

pub fn default_install_timeout() -> (r: u64)
    ensures
        r == 600,
{
    600
}

pub fn default_operation_timeout() -> (r: u64)
    ensures
        r == 60,
{
    60
}

pub fn default_fetch_timeout() -> (r: u64)
    ensures
        r == 30,
{
    30
}

pub fn default_http_timeout() -> (r: u64)
    ensures
        r == 10,
{
    10
}

pub fn default_toast_timeout() -> (r: u64)
    ensures
        r == 5,
{
    5
}

pub fn default_max_visible_toasts() -> (r: usize)
    ensures
        r == 3,
{
    3
}

pub fn default_search_results_limit() -> (r: usize)
    ensures
        r == 20,
{
    20
}

pub fn default_modal_preview_limit() -> (r: usize)
    ensures
        r == 10,
{
    10
}

pub fn default_max_log_size_bytes() -> (r: u64)
    ensures
        r == 5 * 1024 * 1024,
{
    5 * 1024 * 1024
}

/// The fixed backoff ladder of bulk fetches: immediate, then 2, 5 and
/// 15 seconds, across up to four attempts.
pub fn default_retry_delays() -> (r: Vec<u64>)
    ensures
        r@ == seq![0u64, 2u64, 5u64, 15u64],
{
    let mut v: Vec<u64> = Vec::new();
    v.push(0);
    v.push(2);
    v.push(5);
    v.push(15);
    proof {
        assert(v@ =~= seq![0u64, 2u64, 5u64, 15u64]);
    }
    v
}

/// Application settings as the core reads them.
#[derive(Debug, Clone)]
pub struct AppSettings {
    pub theme: ThemeSetting,
    pub cache_ttl_hours: u64,
    pub tray_behavior: TrayBehavior,
    pub start_minimized: bool,
    pub fnm_dir: Option<String>,
    pub node_dist_mirror: Option<String>,
    pub backend_shell_options: Vec<(String, ShellOptions)>,
    pub preferred_backend: Option<String>,
    pub debug_logging: bool,
    pub install_timeout_secs: u64,
    pub uninstall_timeout_secs: u64,
    pub set_default_timeout_secs: u64,
    pub fetch_timeout_secs: u64,
    pub http_timeout_secs: u64,
    pub toast_timeout_secs: u64,
    pub max_visible_toasts: usize,
    pub search_results_limit: usize,
    pub modal_preview_limit: usize,
    pub max_log_size_bytes: u64,
    pub retry_delays_secs: Vec<u64>,
}

impl Default for AppSettings {
    fn default() -> (r: Self)
        ensures
            r.theme == ThemeSetting::System,
            r.cache_ttl_hours == 1,
            r.tray_behavior == TrayBehavior::WhenWindowOpen,
            !r.start_minimized,
            r.fnm_dir is None,
            r.node_dist_mirror is None,
            r.backend_shell_options@.len() == 0,
            r.preferred_backend is None,
            !r.debug_logging,
            r.install_timeout_secs == 600,
            r.uninstall_timeout_secs == 60,
            r.set_default_timeout_secs == 60,
            r.fetch_timeout_secs == 30,
            r.http_timeout_secs == 10,
            r.toast_timeout_secs == 5,
            r.max_visible_toasts == 3,
            r.search_results_limit == 20,
            r.modal_preview_limit == 10,
            r.max_log_size_bytes == 5 * 1024 * 1024,
            r.retry_delays_secs@ == seq![0u64, 2u64, 5u64, 15u64],
    {
        Self {
            theme: ThemeSetting::System,
            cache_ttl_hours: default_cache_ttl(),
            tray_behavior: TrayBehavior::WhenWindowOpen,
            start_minimized: false,
            fnm_dir: None,
            node_dist_mirror: None,
            backend_shell_options: Vec::new(),
            preferred_backend: None,
            debug_logging: false,
            install_timeout_secs: default_install_timeout(),
            uninstall_timeout_secs: default_operation_timeout(),
            set_default_timeout_secs: default_operation_timeout(),
            fetch_timeout_secs: default_fetch_timeout(),
            http_timeout_secs: default_http_timeout(),
            toast_timeout_secs: default_toast_timeout(),
            max_visible_toasts: default_max_visible_toasts(),
            search_results_limit: default_search_results_limit(),
            modal_preview_limit: default_modal_preview_limit(),
            max_log_size_bytes: default_max_log_size_bytes(),
            retry_delays_secs: default_retry_delays(),
        }
    }
}

/// First options stored under this backend name.
pub open spec fn shell_options_lookup(
    entries: Seq<(Seq<char>, ShellOptions)>,
    backend: Seq<char>,
) -> Option<ShellOptions>
    decreases entries.len(),
{
    if entries.len() == 0 {
        None
    } else if entries[0].0 == backend {
        Some(entries[0].1)
    } else {
        shell_options_lookup(entries.drop_first(), backend)
    }
}

proof fn lemma_shell_options_lookup_at(
    entries: Seq<(Seq<char>, ShellOptions)>,
    backend: Seq<char>,
    i: int,
)
    requires
        0 <= i < entries.len(),
        entries[i].0 == backend,
        forall|j: int| 0 <= j < i ==> (#[trigger] entries[j]).0 != backend,
    ensures
        shell_options_lookup(entries, backend) == Some(entries[i].1),
    decreases i,
{
    if i > 0 {
        lemma_shell_options_lookup_at(entries.drop_first(), backend, i - 1);
    }
}

proof fn lemma_shell_options_lookup_none(
    entries: Seq<(Seq<char>, ShellOptions)>,
    backend: Seq<char>,
)
    requires
        forall|j: int| 0 <= j < entries.len() ==> (#[trigger] entries[j]).0
            != backend,
    ensures
        shell_options_lookup(entries, backend) is None,
    decreases entries.len(),
{
    if entries.len() > 0 {
        lemma_shell_options_lookup_none(entries.drop_first(), backend);
    }
}

impl AppSettings {
    /// The options stored for a backend, or the defaults where none
    /// were stored yet.
    pub fn shell_options_for(&self, backend: &str) -> (r: ShellOptions)
        ensures
            r == (match shell_options_lookup(
                self.backend_shell_options.deep_view(),
                backend@,
            ) {
                Some(o) => o,
                None => ShellOptions {
                    use_on_cd: true,
                    resolve_engines: false,
                    corepack_enabled: false,
                },
            }),
    {
        let n = self.backend_shell_options.len();
        let mut i: usize = 0;
        while i < n
            invariant
                0 <= i <= n,
                n == self.backend_shell_options@.len(),
                forall|j: int|
                    0 <= j < i ==> (#[trigger] self.backend_shell_options
                        .deep_view()[j]).0 != backend@,
            decreases n - i,
        {
            if str_eq(self.backend_shell_options[i].0.as_str(), backend) {
                proof {
                    lemma_shell_options_lookup_at(
                        self.backend_shell_options.deep_view(),
                        backend@,
                        i as int,
                    );
                }
                return self.backend_shell_options[i].1;
            }
            i = i + 1;
        }
        proof {
            lemma_shell_options_lookup_none(
                self.backend_shell_options.deep_view(),
                backend@,
            );
        }
        ShellOptions { use_on_cd: true, resolve_engines: false, corepack_enabled: false }
    }
}

} // verus!
