//! The backend abstraction: what a version-manager CLI looks like to
//! the rest of the system, and the fnm-style backend's side of it.  A
//! backend bound to a bridged environment wraps every invocation in a
//! bridge-launch command; that is the one mechanism letting a single
//! implementation serve the native install and any bridged one.

use vstd::prelude::*;

use crate::text::str_eq;

verus! {

/// Failure of a backend call, per the taxonomy the callers rely on:
/// subprocess exits nonzero, a single-value parse fails, or backend
/// bootstrap fails (kept apart from ordinary command failure).
#[derive(Debug, Clone)]
pub enum BackendError {
    ParseError(String),
    CommandFailed { stderr: String },
    InstallFailed(String),
    Io(String),
}

/// What detection learned about a backend executable.
#[derive(Debug, Clone)]
pub struct BackendDetection {
    pub found: bool,
    pub path: Option<String>,
    pub version: Option<String>,
    pub in_path: bool,
    pub data_dir: Option<String>,
}

/// Identity and location of one backend binary.
#[derive(Debug, Clone)]
pub struct BackendInfo {
    pub name: &'static str,
    pub path: String,
    pub version: Option<String>,
    pub data_dir: Option<String>,
    pub in_path: bool,
}

/// Static per-backend abilities; the CLIs expose no discovery, so these
/// are fixed by backend and environment, never probed.
#[derive(Debug, Clone, Copy, PartialEq, Eq, Structural)]
pub struct ManagerCapabilities {
    pub supports_lts_filter: bool,
    pub supports_use_version: bool,
    pub supports_shell_integration: bool,
    pub supports_auto_switch: bool,
    pub supports_corepack: bool,
    pub supports_resolve_engines: bool,
}

/// Options a rendered shell activation snippet honours.
#[derive(Debug, Clone, Copy, PartialEq, Eq, Structural)]
pub struct ShellInitOptions {
    pub use_on_cd: bool,
    pub resolve_engines: bool,
    pub corepack_enabled: bool,
}

/// A fully decided subprocess invocation: program, arguments and extra
/// environment variables.  Something outside runs it.
#[derive(Debug, Clone)]
pub struct CommandSpec {
    pub program: String,
    pub args: Vec<String>,
    pub envs: Vec<(String, String)>,
}

/// Where an fnm-style backend's commands execute.
#[derive(Debug, Clone)]
pub enum Environment {
    Native,
    Wsl { distro: String, fnm_path: String },
}

pub ghost enum EnvironmentView {
    Native,
    Wsl { distro: Seq<char>, fnm_path: Seq<char> },
}

impl View for Environment {
    type V = EnvironmentView;

    open spec fn view(&self) -> EnvironmentView {
        match self {
            Environment::Native => EnvironmentView::Native,
            Environment::Wsl { distro, fnm_path } => EnvironmentView::Wsl {
                distro: distro@,
                fnm_path: fnm_path@,
            },
        }
    }
}

/// The fnm-style backend, bound to one environment.
#[derive(Clone)]
pub struct FnmBackend {
    pub info: BackendInfo,
    pub fnm_dir: Option<String>,
    pub node_dist_mirror: Option<String>,
    pub environment: Environment,
}

/// The flag suffix the activation snippet carries for these options.
pub open spec fn fnm_flags_spec(options: ShellInitOptions) -> Seq<char> {
    (if options.use_on_cd {
        " --use-on-cd"@
    } else {
        Seq::<char>::empty()
    }) + (if options.resolve_engines {
        " --resolve-engines"@
    } else {
        Seq::<char>::empty()
    }) + (if options.corepack_enabled {
        " --corepack-enabled"@
    } else {
        Seq::<char>::empty()
    })
}

/// The exact activation snippet per shell dialect: POSIX shells eval,
/// fish pipes to source, PowerShell invokes the rendered expression;
/// other shells have no activation mechanism.
pub open spec fn fnm_shell_init_spec(
    shell: Seq<char>,
    options: ShellInitOptions,
) -> Option<Seq<char>> {
    let flags = fnm_flags_spec(options);
    if shell == "bash"@ || shell == "zsh"@ {
        Some("eval \"$(fnm env"@ + flags + ")\""@)
    } else if shell == "fish"@ {
        Some("fnm env"@ + flags + " | source"@)
    } else if shell == "powershell"@ || shell == "pwsh"@ {
        Some("fnm env"@ + flags + " | Out-String | Invoke-Expression"@)
    } else {
        None
    }
}

impl FnmBackend {
    pub fn new(path: String, version: Option<String>, fnm_dir: Option<String>) -> (r:
        Self)
        ensures
            r.info.path@ == path@,
            r.info.version.deep_view() == version.deep_view(),
            r.info.data_dir.deep_view() == fnm_dir.deep_view(),
            r.info.in_path,
            r.fnm_dir.deep_view() == fnm_dir.deep_view(),
            r.node_dist_mirror is None,
            r.environment@ is Native,
    {
        let data_dir = clone_opt_string(&fnm_dir);
        Self {
            info: BackendInfo {
                name: "fnm",
                path,
                version,
                data_dir,
                in_path: true,
            },
            fnm_dir,
            node_dist_mirror: None,
            environment: Environment::Native,
        }
    }

    pub fn with_fnm_dir(self, dir: String) -> (r: Self)
        ensures
            r.fnm_dir.deep_view() == Some(dir@),
            r.info.data_dir.deep_view() == Some(dir@),
            r.info.path@ == self.info.path@,
            r.info.version.deep_view() == self.info.version.deep_view(),
            r.node_dist_mirror.deep_view() == self.node_dist_mirror.deep_view(),
            r.environment@ == self.environment@,
    {
        let dir2 = dir.clone();
        Self {
            info: BackendInfo { data_dir: Some(dir2), ..self.info },
            fnm_dir: Some(dir),
            ..self
        }
    }

    pub fn with_node_dist_mirror(self, mirror: String) -> (r: Self)
        ensures
            r.node_dist_mirror.deep_view() == Some(mirror@),
            r.info.path@ == self.info.path@,
            r.fnm_dir.deep_view() == self.fnm_dir.deep_view(),
            r.environment@ == self.environment@,
    {
        Self { node_dist_mirror: Some(mirror), ..self }
    }

    /// A backend reached through the bridge into a distribution.
    pub fn with_wsl(distro: String, fnm_path: String) -> (r: Self)
        ensures
            r.info.path@ == fnm_path@,
            r.info.version is None,
            r.info.data_dir is None,
            r.fnm_dir is None,
            r.node_dist_mirror is None,
            r.environment@ == (EnvironmentView::Wsl {
                distro: distro@,
                fnm_path: fnm_path@,
            }),
    {
        let path = fnm_path.clone();
        Self {
            info: BackendInfo {
                name: "fnm",
                path,
                version: None,
                data_dir: None,
                in_path: true,
            },
            fnm_dir: None,
            node_dist_mirror: None,
            environment: Environment::Wsl { distro, fnm_path },
        }
    }

    pub fn name(&self) -> (r: &'static str)
        ensures
            r@ == "fnm"@,
    {
        "fnm"
    }

    pub fn capabilities(&self) -> (r: ManagerCapabilities)
        ensures
            r == (ManagerCapabilities {
                supports_lts_filter: true,
                supports_use_version: true,
                supports_shell_integration: true,
                supports_auto_switch: true,
                supports_corepack: true,
                supports_resolve_engines: true,
            }),
    {
        ManagerCapabilities {
            supports_lts_filter: true,
            supports_use_version: true,
            supports_shell_integration: true,
            supports_auto_switch: true,
            supports_corepack: true,
            supports_resolve_engines: true,
        }
    }

    pub fn backend_info(&self) -> (r: &BackendInfo)
        ensures
            r == &self.info,
    {
        &self.info
    }

    /// The invocation for one subcommand: native runs the binary with
    /// the data-directory and mirror overrides in its environment; a
    /// bridged backend is launched through the bridge tool instead.
    pub fn build_command(&self, args: &Vec<String>) -> (r: CommandSpec)
        ensures
            match self.environment@ {
                EnvironmentView::Native => {
                    &&& r.program@ == self.info.path@
                    &&& r.args.deep_view() == args.deep_view()
                    &&& r.envs.deep_view() == (match (
                        self.fnm_dir.deep_view(),
                        self.node_dist_mirror.deep_view(),
                    ) {
                        (Some(d), Some(m)) => seq![
                            ("FNM_DIR"@, d),
                            ("FNM_NODE_DIST_MIRROR"@, m),
                        ],
                        (Some(d), None) => seq![("FNM_DIR"@, d)],
                        (None, Some(m)) => seq![("FNM_NODE_DIST_MIRROR"@, m)],
                        (None, None) => Seq::empty(),
                    })
                },
                EnvironmentView::Wsl { distro, fnm_path } => {
                    &&& r.program@ == "wsl.exe"@
                    &&& r.args.deep_view() == seq!["-d"@, distro, "--"@, fnm_path]
                        + args.deep_view()
                    &&& r.envs.deep_view() == Seq::<(Seq<char>, Seq<char>)>::empty()
                },
            },
    {
        match &self.environment {
            Environment::Native => {
                let mut envs: Vec<(String, String)> = Vec::new();
                match &self.fnm_dir {
                    Some(d) => {
                        envs.push((String::from_str("FNM_DIR"), d.clone()));
                    },
                    None => {},
                }
                match &self.node_dist_mirror {
                    Some(m) => {
                        envs.push((
                            String::from_str("FNM_NODE_DIST_MIRROR"),
                            m.clone(),
                        ));
                    },
                    None => {},
                }
                let r = CommandSpec {
                    program: self.info.path.clone(),
                    args: clone_string_vec(args),
                    envs,
                };
                proof {
                    assert(r.envs.deep_view() =~= (match (
                        self.fnm_dir.deep_view(),
                        self.node_dist_mirror.deep_view(),
                    ) {
                        (Some(d), Some(m)) => seq![
                            ("FNM_DIR"@, d),
                            ("FNM_NODE_DIST_MIRROR"@, m),
                        ],
                        (Some(d), None) => seq![("FNM_DIR"@, d)],
                        (None, Some(m)) => seq![("FNM_NODE_DIST_MIRROR"@, m)],
                        (None, None) => Seq::empty(),
                    }));
                }
                r
            },
            Environment::Wsl { distro, fnm_path } => {
                let mut full: Vec<String> = Vec::new();
                full.push(String::from_str("-d"));
                full.push(distro.clone());
                full.push(String::from_str("--"));
                full.push(fnm_path.clone());
                let mut k: usize = 0;
                while k < args.len()
                    invariant
                        0 <= k <= args@.len(),
                        full.deep_view() == seq![
                            "-d"@,
                            self.environment@->Wsl_distro,
                            "--"@,
                            self.environment@->Wsl_fnm_path,
                        ] + args.deep_view().take(k as int),
                        self.environment@ is Wsl,
                    decreases args@.len() - k,
                {
                    let ghost before = full.deep_view();
                    full.push(args[k].clone());
                    proof {
                        assert(full.deep_view() =~= before.push(args.deep_view()[
                            k as int
                        ]));
                        assert(args.deep_view().take(k + 1) =~= args.deep_view()
                            .take(k as int).push(args.deep_view()[k as int]));
                        assert(before.push(args.deep_view()[k as int]) =~= seq![
                            "-d"@,
                            self.environment@->Wsl_distro,
                            "--"@,
                            self.environment@->Wsl_fnm_path,
                        ] + args.deep_view().take(k + 1));
                    }
                    k = k + 1;
                }
                proof {
                    assert(args.deep_view().take(args@.len() as int) =~= args
                        .deep_view());
                    assert(full.deep_view() =~= seq![
                        "-d"@,
                        self.environment@->Wsl_distro,
                        "--"@,
                        self.environment@->Wsl_fnm_path,
                    ] + args.deep_view());
                }
                let r = CommandSpec {
                    program: String::from_str("wsl.exe"),
                    args: full,
                    envs: Vec::new(),
                };
                proof {
                    assert(r.envs.deep_view() =~= Seq::<
                        (Seq<char>, Seq<char>),
                    >::empty());
                }
                r
            },
        }
    }

    /// Renders the activation snippet for a shell dialect, exactly as
    /// `fnm_shell_init_spec` lays it out.
    pub fn shell_init_command(&self, shell: &str, options: &ShellInitOptions) -> (r:
        Option<String>)
        ensures
            r.deep_view() == fnm_shell_init_spec(shell@, *options),
    {
        let mut flags = String::new();
        if options.use_on_cd {
            flags.append(" --use-on-cd");
        }
        if options.resolve_engines {
            flags.append(" --resolve-engines");
        }
        if options.corepack_enabled {
            flags.append(" --corepack-enabled");
        }
        proof {
            assert(flags@ =~= fnm_flags_spec(*options));
        }
        if str_eq(shell, "bash") || str_eq(shell, "zsh") {
            let mut s = String::from_str("eval \"$(fnm env");
            s.append(flags.as_str());
            s.append(")\"");
            proof {
                assert(s@ =~= "eval \"$(fnm env"@ + fnm_flags_spec(*options)
                    + ")\""@);
            }
            Some(s)
        } else if str_eq(shell, "fish") {
            let mut s = String::from_str("fnm env");
            s.append(flags.as_str());
            s.append(" | source");
            proof {
                assert(s@ =~= "fnm env"@ + fnm_flags_spec(*options) + " | source"@);
            }
            Some(s)
        } else if str_eq(shell, "powershell") || str_eq(shell, "pwsh") {
            let mut s = String::from_str("fnm env");
            s.append(flags.as_str());
            s.append(" | Out-String | Invoke-Expression");
            proof {
                assert(s@ =~= "fnm env"@ + fnm_flags_spec(*options)
                    + " | Out-String | Invoke-Expression"@);
            }
            Some(s)
        } else {
            None
        }
    }
}

/// The fnm backend family: naming, shell-config markers, bridged
/// search paths, and construction of bound backends.
#[derive(Debug, Clone, Default)]
pub struct FnmProvider;

impl FnmProvider {
    pub fn new() -> (r: Self) {
        Self
    }

    pub fn name(&self) -> (r: &'static str)
        ensures
            r@ == "fnm"@,
    {
        "fnm"
    }

    pub fn display_name(&self) -> (r: &'static str)
        ensures
            r@ == "fnm (Fast Node Manager)"@,
    {
        "fnm (Fast Node Manager)"
    }

    /// The marker a shell config file carries once activation is set up.
    pub fn shell_config_marker(&self) -> (r: &'static str)
        ensures
            r@ == "fnm env"@,
    {
        "fnm env"
    }

    pub fn shell_config_label(&self) -> (r: &'static str)
        ensures
            r@ == "fnm (Fast Node Manager)"@,
    {
        "fnm (Fast Node Manager)"
    }

    /// Binds a backend to what detection found; an undetected path
    /// falls back to the bare program name on the search path.
    pub fn create_manager(&self, detection: &BackendDetection) -> (r: FnmBackend)
        ensures
            r.info.path@ == (match detection.path.deep_view() {
                Some(p) => p,
                None => "fnm"@,
            }),
            r.info.version.deep_view() == detection.version.deep_view(),
            r.fnm_dir.deep_view() == detection.data_dir.deep_view(),
            r.info.data_dir.deep_view() == detection.data_dir.deep_view(),
            r.environment@ is Native,
    {
        let path = match &detection.path {
            Some(p) => p.clone(),
            None => String::from_str("fnm"),
        };
        let version = clone_opt_string(&detection.version);
        let data_dir = clone_opt_string(&detection.data_dir);
        let backend = FnmBackend::new(path, version, data_dir);
        match &detection.data_dir {
            Some(d) => backend.with_fnm_dir(d.clone()),
            None => backend,
        }
    }

    pub fn create_manager_for_wsl(&self, distro: String, backend_path: String) -> (r:
        FnmBackend)
        ensures
            r.environment@ == (EnvironmentView::Wsl {
                distro: distro@,
                fnm_path: backend_path@,
            }),
            r.info.path@ == backend_path@,
    {
        FnmBackend::with_wsl(distro, backend_path)
    }

    /// Candidate paths inside a bridged distribution, searched in order
    /// because the bridge does not inherit the distribution's PATH.
    pub fn wsl_search_paths(&self) -> (r: Vec<&'static str>)
        ensures
            r.deep_view() == seq![
                "$HOME/.local/share/fnm/fnm"@,
                "$HOME/.cargo/bin/fnm"@,
                "/usr/local/bin/fnm"@,
                "/usr/bin/fnm"@,
                "$HOME/.fnm/fnm"@,
            ],
    {
        let mut v: Vec<&'static str> = Vec::new();
        v.push("$HOME/.local/share/fnm/fnm");
        v.push("$HOME/.cargo/bin/fnm");
        v.push("/usr/local/bin/fnm");
        v.push("/usr/bin/fnm");
        v.push("$HOME/.fnm/fnm");
        proof {
            assert(v.deep_view() =~= seq![
                "$HOME/.local/share/fnm/fnm"@,
                "$HOME/.cargo/bin/fnm"@,
                "/usr/local/bin/fnm"@,
                "/usr/bin/fnm"@,
                "$HOME/.fnm/fnm"@,
            ]);
        }
        v
    }
}

pub fn clone_opt_string(s: &Option<String>) -> (r: Option<String>)
    ensures
        r.deep_view() == s.deep_view(),
{
    match s {
        Some(x) => Some(x.clone()),
        None => None,
    }
}

pub fn clone_string_vec(v: &Vec<String>) -> (r: Vec<String>)
    ensures
        r.deep_view() == v.deep_view(),
{
    let n = v.len();
    let mut out: Vec<String> = Vec::new();
    let mut i: usize = 0;
    proof {
        assert(out.deep_view() =~= v.deep_view().take(0));
    }
    while i < n
        invariant
            0 <= i <= n,
            n == v@.len(),
            out.deep_view() == v.deep_view().take(i as int),
        decreases n - i,
    {
        let ghost before = out.deep_view();
        out.push(v[i].clone());
        proof {
            assert(out.deep_view() =~= before.push(v.deep_view()[i as int]));
            assert(v.deep_view().take(i + 1) =~= v.deep_view().take(i as int).push(
                v.deep_view()[i as int],
            ));
        }
        i = i + 1;
    }
    proof {
        assert(v.deep_view().take(n as int) =~= v.deep_view());
    }
    out
}

} // verus!
