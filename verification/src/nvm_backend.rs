//! The nvm-style backend: its three environments (a Unix shell
//! function, a Windows executable, a bridged distribution), the command
//! each one needs, and the binding of detection results to a backend.

use vstd::prelude::*;

use crate::backend::{clone_opt_string, BackendDetection, BackendInfo,
    CommandSpec, ManagerCapabilities};
use crate::model::{InstalledVersion, RemoteVersion};
use crate::nvm::{clean_output, nvm_installed_spec, nvm_default_spec,
    nvm_remote_spec, nvm_win_installed_spec, nvm_win_remote_spec, parse_unix_installed,
    parse_unix_remote, parse_windows_installed, parse_windows_remote,
    strip_ansi_spec};
use crate::text::{ends_with, has_suffix, join_space, join_space_spec, lines_spec,
    parent_dir, parent_dir_spec};

verus! {

/// Which face of the backend detection found.
#[derive(Debug, Clone, Copy, PartialEq, Eq, Structural)]
pub enum NvmVariant {
    Unix,
    Windows,
    NotFound,
}

/// What detection learned: a shell-function install has a directory, a
/// Windows install has an executable.
#[derive(Debug, Clone)]
pub struct NvmDetection {
    pub found: bool,
    pub nvm_dir: Option<String>,
    pub nvm_exe: Option<String>,
    pub version: Option<String>,
    pub variant: NvmVariant,
}

/// Where this backend's commands execute.
#[derive(Debug, Clone)]
pub enum NvmEnvironment {
    Unix { nvm_dir: String },
    Windows { nvm_exe: String },
    Wsl { distro: String, nvm_dir: String },
}

pub ghost enum NvmEnvironmentView {
    Unix { nvm_dir: Seq<char> },
    Windows { nvm_exe: Seq<char> },
    Wsl { distro: Seq<char>, nvm_dir: Seq<char> },
}

impl DeepView for NvmEnvironment {
    type V = NvmEnvironmentView;

    open spec fn deep_view(&self) -> NvmEnvironmentView {
        self.view()
    }
}

impl View for NvmEnvironment {
    type V = NvmEnvironmentView;

    open spec fn view(&self) -> NvmEnvironmentView {
        match self {
            NvmEnvironment::Unix { nvm_dir } => NvmEnvironmentView::Unix {
                nvm_dir: nvm_dir@,
            },
            NvmEnvironment::Windows { nvm_exe } => NvmEnvironmentView::Windows {
                nvm_exe: nvm_exe@,
            },
            NvmEnvironment::Wsl { distro, nvm_dir } => NvmEnvironmentView::Wsl {
                distro: distro@,
                nvm_dir: nvm_dir@,
            },
        }
    }
}

/// Maps a detection onto an environment; nothing found maps to nothing.
pub fn detect_nvm_environment(detection: &NvmDetection) -> (r: Option<
    NvmEnvironment,
>)
    ensures
        r.deep_view() == (match detection.variant {
            NvmVariant::Unix => match detection.nvm_dir.deep_view() {
                Some(dir) => Some(NvmEnvironmentView::Unix { nvm_dir: dir }),
                None => None,
            },
            NvmVariant::Windows => match detection.nvm_exe.deep_view() {
                Some(exe) => Some(NvmEnvironmentView::Windows { nvm_exe: exe }),
                None => None,
            },
            NvmVariant::NotFound => None,
        }),
{
    match detection.variant {
        NvmVariant::Unix => match &detection.nvm_dir {
            Some(dir) => Some(NvmEnvironment::Unix { nvm_dir: dir.clone() }),
            None => None,
        },
        NvmVariant::Windows => match &detection.nvm_exe {
            Some(exe) => Some(NvmEnvironment::Windows { nvm_exe: exe.clone() }),
            None => None,
        },
        NvmVariant::NotFound => None,
    }
}

/// Renders the command for one nvm subcommand in one environment.  On
/// Unix the shell function must be sourced first; through the bridge
/// the same line runs inside the distribution; on Windows the
/// executable takes the arguments directly.
pub open spec fn nvm_command_spec(
    env: NvmEnvironmentView,
    args: Seq<Seq<char>>,
) -> (Seq<char>, Seq<Seq<char>>) {
    match env {
        NvmEnvironmentView::Unix { nvm_dir } => (
            "bash"@,
            seq![
                "-c"@,
                ". "@ + nvm_dir + "/nvm.sh && nvm "@ + join_space_spec(args),
            ],
        ),
        NvmEnvironmentView::Wsl { distro, nvm_dir } => (
            "wsl.exe"@,
            seq![
                "-d"@,
                distro,
                "--"@,
                "bash"@,
                "-c"@,
                ". "@ + nvm_dir + "/nvm.sh && nvm "@ + join_space_spec(args),
            ],
        ),
        NvmEnvironmentView::Windows { nvm_exe } => (nvm_exe, args),
    }
}

/// Runs nvm subcommands in one environment.
#[derive(Debug, Clone)]
pub struct NvmClient {
    pub environment: NvmEnvironment,
}

impl NvmClient {
    pub fn unix(nvm_dir: String) -> (r: Self)
        ensures
            r.environment@ == (NvmEnvironmentView::Unix { nvm_dir: nvm_dir@ }),
    {
        Self { environment: NvmEnvironment::Unix { nvm_dir } }
    }

    pub fn wsl(distro: String, nvm_dir: String) -> (r: Self)
        ensures
            r.environment@ == (NvmEnvironmentView::Wsl {
                distro: distro@,
                nvm_dir: nvm_dir@,
            }),
    {
        Self { environment: NvmEnvironment::Wsl { distro, nvm_dir } }
    }

    pub fn is_windows(&self) -> (r: bool)
        ensures
            r == (self.environment@ is Windows),
    {
        matches!(self.environment, NvmEnvironment::Windows { .. })
    }

    /// The invocation for one subcommand, as `nvm_command_spec` lays it
    /// out; no extra environment variables are needed.
    pub fn command_for(&self, args: &Vec<String>) -> (r: CommandSpec)
        ensures
            r.program@ == nvm_command_spec(self.environment@, args.deep_view()).0,
            r.args.deep_view() == nvm_command_spec(
                self.environment@,
                args.deep_view(),
            ).1,
            r.envs.deep_view() == Seq::<(Seq<char>, Seq<char>)>::empty(),
    {
        let r = match &self.environment {
            NvmEnvironment::Unix { nvm_dir } => {
                let mut line = String::from_str(". ");
                line.append(nvm_dir.as_str());
                line.append("/nvm.sh && nvm ");
                let joined = join_space(args);
                line.append(joined.as_str());
                let mut argv: Vec<String> = Vec::new();
                argv.push(String::from_str("-c"));
                argv.push(line);
                proof {
                    assert(argv.deep_view() =~= nvm_command_spec(
                        self.environment@,
                        args.deep_view(),
                    ).1);
                }
                CommandSpec {
                    program: String::from_str("bash"),
                    args: argv,
                    envs: Vec::new(),
                }
            },
            NvmEnvironment::Wsl { distro, nvm_dir } => {
                let mut line = String::from_str(". ");
                line.append(nvm_dir.as_str());
                line.append("/nvm.sh && nvm ");
                let joined = join_space(args);
                line.append(joined.as_str());
                let mut argv: Vec<String> = Vec::new();
                argv.push(String::from_str("-d"));
                argv.push(distro.clone());
                argv.push(String::from_str("--"));
                argv.push(String::from_str("bash"));
                argv.push(String::from_str("-c"));
                argv.push(line);
                proof {
                    assert(argv.deep_view() =~= nvm_command_spec(
                        self.environment@,
                        args.deep_view(),
                    ).1);
                }
                CommandSpec {
                    program: String::from_str("wsl.exe"),
                    args: argv,
                    envs: Vec::new(),
                }
            },
            NvmEnvironment::Windows { nvm_exe } => CommandSpec {
                program: nvm_exe.clone(),
                args: crate::backend::clone_string_vec(args),
                envs: Vec::new(),
            },
        };
        proof {
            assert(r.envs.deep_view() =~= Seq::<(Seq<char>, Seq<char>)>::empty());
        }
        r
    }
}

/// The nvm-style backend bound to one environment.
#[derive(Debug, Clone)]
pub struct NvmBackend {
    pub info: BackendInfo,
    pub client: NvmClient,
}

impl NvmBackend {
    /// Binds the backend: the script path and data directory follow
    /// from the environment.
    pub fn new(client: NvmClient, version: Option<String>) -> (r: Self)
        ensures
            r.client.environment@ == client.environment@,
            r.info.version.deep_view() == version.deep_view(),
            r.info.in_path,
            match client.environment@ {
                NvmEnvironmentView::Unix { nvm_dir } => r.info.path@ == nvm_dir
                    + "/nvm.sh"@ && r.info.data_dir.deep_view() == Some(nvm_dir),
                NvmEnvironmentView::Windows { nvm_exe } => r.info.path@ == nvm_exe
                    && r.info.data_dir.deep_view() == parent_dir_spec(nvm_exe),
                NvmEnvironmentView::Wsl { distro, nvm_dir } => r.info.path@
                    == nvm_dir + "/nvm.sh"@ && r.info.data_dir.deep_view() == Some(
                    nvm_dir,
                ),
            },
    {
        let (path, data_dir) = match &client.environment {
            NvmEnvironment::Unix { nvm_dir } => {
                let mut p = nvm_dir.clone();
                p.append("/nvm.sh");
                (p, Some(nvm_dir.clone()))
            },
            NvmEnvironment::Windows { nvm_exe } => (
                nvm_exe.clone(),
                parent_dir(nvm_exe.as_str()),
            ),
            NvmEnvironment::Wsl { nvm_dir, .. } => {
                let mut p = nvm_dir.clone();
                p.append("/nvm.sh");
                (p, Some(nvm_dir.clone()))
            },
        };
        Self {
            info: BackendInfo {
                name: "nvm",
                path,
                version,
                data_dir,
                in_path: true,
            },
            client,
        }
    }

    pub fn name(&self) -> (r: &'static str)
        ensures
            r@ == "nvm"@,
    {
        "nvm"
    }

    /// Shell integration exists only where a shell sources the script.
    pub fn capabilities(&self) -> (r: ManagerCapabilities)
        ensures
            r == (ManagerCapabilities {
                supports_lts_filter: true,
                supports_use_version: true,
                supports_shell_integration: !(self.client.environment@ is Windows),
                supports_auto_switch: false,
                supports_corepack: false,
                supports_resolve_engines: false,
            }),
    {
        let supports_shell = !self.client.is_windows();
        ManagerCapabilities {
            supports_lts_filter: true,
            supports_use_version: true,
            supports_shell_integration: supports_shell,
            supports_auto_switch: false,
            supports_corepack: false,
            supports_resolve_engines: false,
        }
    }

    pub fn backend_info(&self) -> (r: &BackendInfo)
        ensures
            r == &self.info,
    {
        &self.info
    }

    /// Reads a raw installed listing in this environment's format,
    /// ANSI colour stripped first on Unix-style hosts.
    pub fn parse_installed(&self, output: &str) -> (r: Vec<InstalledVersion>)
        ensures
            self.client.environment@ is Windows ==> r.deep_view()
                == nvm_win_installed_spec(lines_spec(output@)),
            !(self.client.environment@ is Windows) ==> r.deep_view()
                == nvm_installed_spec(
                lines_spec(strip_ansi_spec(output@)),
                nvm_default_spec(lines_spec(strip_ansi_spec(output@))),
            ),
    {
        if self.client.is_windows() {
            parse_windows_installed(output)
        } else {
            let cleaned = clean_output(output);
            parse_unix_installed(cleaned.as_str())
        }
    }

    /// Reads a raw remote listing in this environment's format.
    pub fn parse_remote(&self, output: &str) -> (r: Vec<RemoteVersion>)
        ensures
            self.client.environment@ is Windows ==> r.deep_view()
                == nvm_win_remote_spec(lines_spec(output@), false),
            !(self.client.environment@ is Windows) ==> r.deep_view()
                == nvm_remote_spec(lines_spec(strip_ansi_spec(output@))),
    {
        if self.client.is_windows() {
            parse_windows_remote(output)
        } else {
            let cleaned = clean_output(output);
            parse_unix_remote(cleaned.as_str())
        }
    }

    /// The activation line a Unix shell needs; Windows needs none.
    pub fn shell_init_command(&self) -> (r: Option<String>)
        ensures
            r.deep_view() == (match self.client.environment@ {
                NvmEnvironmentView::Unix { nvm_dir } => Some(
                    "export NVM_DIR=\""@ + nvm_dir
                        + "\" && [ -s \"$NVM_DIR/nvm.sh\" ] && \\. \"$NVM_DIR/nvm.sh\""@,
                ),
                NvmEnvironmentView::Wsl { distro, nvm_dir } => Some(
                    "export NVM_DIR=\""@ + nvm_dir
                        + "\" && [ -s \"$NVM_DIR/nvm.sh\" ] && \\. \"$NVM_DIR/nvm.sh\""@,
                ),
                NvmEnvironmentView::Windows { nvm_exe } => None,
            }),
    {
        match &self.client.environment {
            NvmEnvironment::Unix { nvm_dir } => {
                let mut s = String::from_str("export NVM_DIR=\"");
                s.append(nvm_dir.as_str());
                s.append("\" && [ -s \"$NVM_DIR/nvm.sh\" ] && \\. \"$NVM_DIR/nvm.sh\"");
                Some(s)
            },
            NvmEnvironment::Wsl { nvm_dir, .. } => {
                let mut s = String::from_str("export NVM_DIR=\"");
                s.append(nvm_dir.as_str());
                s.append("\" && [ -s \"$NVM_DIR/nvm.sh\" ] && \\. \"$NVM_DIR/nvm.sh\"");
                Some(s)
            },
            NvmEnvironment::Windows { .. } => None,
        }
    }
}

/// The nvm backend family; it remembers which variant detection found,
/// because update checks and manager construction depend on it.
#[derive(Debug, Clone)]
pub struct NvmProvider {
    pub variant: NvmVariant,
}

impl NvmProvider {
    pub fn new() -> (r: Self)
        ensures
            r.variant == NvmVariant::NotFound,
    {
        Self { variant: NvmVariant::NotFound }
    }

    /// Records what detection found; detection itself runs outside.
    pub fn set_variant(&mut self, variant: NvmVariant)
        ensures
            final(self).variant == variant,
    {
        self.variant = variant;
    }

    pub fn name(&self) -> (r: &'static str)
        ensures
            r@ == "nvm"@,
    {
        "nvm"
    }

    pub fn display_name(&self) -> (r: &'static str)
        ensures
            r@ == "nvm (Node Version Manager)"@,
    {
        "nvm (Node Version Manager)"
    }

    pub fn shell_config_marker(&self) -> (r: &'static str)
        ensures
            r@ == "NVM_DIR"@,
    {
        "NVM_DIR"
    }

    pub fn shell_config_label(&self) -> (r: &'static str)
        ensures
            r@ == "nvm (Node Version Manager)"@,
    {
        "nvm (Node Version Manager)"
    }

    /// Binds a backend from a generic detection: the Windows variant
    /// takes the found path as its executable, everything else treats
    /// the data directory (or path, or the conventional home location)
    /// as the script directory.
    pub fn create_manager(&self, detection: &BackendDetection) -> (r: NvmBackend)
        ensures
            self.variant == NvmVariant::Windows && detection.path is Some
                ==> r.client.environment@ == (NvmEnvironmentView::Windows {
                nvm_exe: detection.path.deep_view()->0,
            }),
            self.variant != NvmVariant::Windows ==> r.client.environment@
                == (NvmEnvironmentView::Unix {
                nvm_dir: match detection.data_dir.deep_view() {
                    Some(d) => d,
                    None => match detection.path.deep_view() {
                        Some(p) => p,
                        None => "~/.nvm"@,
                    },
                },
            }),
            r.info.version.deep_view() == detection.version.deep_view(),
    {
        let nvm_detection = NvmDetection {
            found: detection.found,
            nvm_dir: clone_opt_string(&detection.data_dir),
            nvm_exe: if matches!(self.variant, NvmVariant::Windows) {
                clone_opt_string(&detection.path)
            } else {
                None
            },
            version: clone_opt_string(&detection.version),
            variant: self.variant.clone(),
        };
        let environment = match detect_nvm_environment(&nvm_detection) {
            Some(env) => env,
            None => NvmEnvironment::Unix {
                nvm_dir: match &detection.data_dir {
                    Some(d) => d.clone(),
                    None => match &detection.path {
                        Some(p) => p.clone(),
                        None => String::from_str("~/.nvm"),
                    },
                },
            },
        };
        let client = NvmClient { environment };
        NvmBackend::new(client, clone_opt_string(&detection.version))
    }

    /// Binds a backend inside a bridged distribution; a path ending in
    /// the script name is cut back to its directory.
    pub fn create_manager_for_wsl(&self, distro: String, backend_path: String) -> (r:
        NvmBackend)
        ensures
            r.client.environment@ == (NvmEnvironmentView::Wsl {
                distro: distro@,
                nvm_dir: if has_suffix(backend_path@, "/nvm.sh"@) {
                    backend_path@.take(backend_path@.len() - 7)
                } else {
                    backend_path@
                },
            }),
    {
        let n = backend_path.as_str().unicode_len();
        let nvm_dir = if ends_with(backend_path.as_str(), "/nvm.sh") {
            proof {
                reveal_strlit("/nvm.sh");
            }
            let d = backend_path.as_str().substring_char(0, n - 7);
            proof {
                assert(d@ =~= backend_path@.take(backend_path@.len() - 7));
            }
            d.to_owned()
        } else {
            backend_path
        };
        let client = NvmClient::wsl(distro, nvm_dir);
        NvmBackend::new(client, None)
    }

    pub fn wsl_search_paths(&self) -> (r: Vec<&'static str>)
        ensures
            r.deep_view() == seq!["$HOME/.nvm/nvm.sh"@],
    {
        let mut v: Vec<&'static str> = Vec::new();
        v.push("$HOME/.nvm/nvm.sh");
        proof {
            assert(v.deep_view() =~= seq!["$HOME/.nvm/nvm.sh"@]);
        }
        v
    }
}

} // verus!
