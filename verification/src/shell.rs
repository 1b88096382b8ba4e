//! Shell dialects and where each keeps its configuration.  Probing the
//! file system for which config file exists, and running shells to test
//! activation, happen outside; this module owns the names, arguments
//! and candidate config locations.

use vstd::prelude::*;

use crate::settings::ShellOptions;

verus! {

#[derive(Debug, Clone, PartialEq, Eq, Structural, Hash)]
pub enum ShellType {
    Bash,
    Zsh,
    Fish,
    PowerShell,
    Cmd,
}

pub open spec fn shell_name_spec(s: ShellType) -> Seq<char> {
    match s {
        ShellType::Bash => "Bash"@,
        ShellType::Zsh => "Zsh"@,
        ShellType::Fish => "Fish"@,
        ShellType::PowerShell => "PowerShell"@,
        ShellType::Cmd => "Command Prompt"@,
    }
}

pub open spec fn shell_arg_spec(s: ShellType) -> Seq<char> {
    match s {
        ShellType::Bash => "bash"@,
        ShellType::Zsh => "zsh"@,
        ShellType::Fish => "fish"@,
        ShellType::PowerShell => "powershell"@,
        ShellType::Cmd => "cmd"@,
    }
}

/// Joins a path the way the display form of a pushed path segment
/// reads: an empty base leaves the segment bare.
pub open spec fn join_path_spec(base: Seq<char>, rel: Seq<char>) -> Seq<char> {
    if base.len() == 0 {
        rel
    } else {
        base + seq!['/'] + rel
    }
}

pub fn join_path(base: &str, rel: &str) -> (r: String)
    ensures
        r@ == join_path_spec(base@, rel@),
{
    if base.unicode_len() == 0 {
        rel.to_owned()
    } else {
        let mut s = base.to_owned();
        s.append("/");
        s.append(rel);
        proof {
            reveal_strlit("/");
            assert(s@ =~= base@ + seq!['/'] + rel@);
        }
        s
    }
}

/// The config files each dialect reads, in the order worth probing.
pub open spec fn config_files_spec(s: ShellType, home: Seq<char>) -> Seq<
    Seq<char>,
> {
    match s {
        ShellType::Bash => seq![
            join_path_spec(home, ".bashrc"@),
            join_path_spec(home, ".bash_profile"@),
            join_path_spec(home, ".profile"@),
        ],
        ShellType::Zsh => seq![
            join_path_spec(home, ".zshrc"@),
            join_path_spec(home, ".zprofile"@),
        ],
        ShellType::Fish => seq![join_path_spec(home, ".config/fish/config.fish"@)],
        ShellType::PowerShell => seq![
            join_path_spec(
                home,
                ".config/powershell/Microsoft.PowerShell_profile.ps1"@,
            ),
        ],
        ShellType::Cmd => Seq::empty(),
    }
}

/// Relies on `dirs::home_dir`: the user's home directory, if the
/// platform knows one.  The answer depends on the environment, so
/// nothing more is promised of it.
#[verifier::external_body]
fn home_dir_string() -> (r: Option<String>) {
    dirs::home_dir().map(|p| p.to_string_lossy().into_owned())
}

impl ShellType {
    pub fn name(&self) -> (r: &'static str)
        ensures
            r@ == shell_name_spec(*self),
    {
        match self {
            ShellType::Bash => "Bash",
            ShellType::Zsh => "Zsh",
            ShellType::Fish => "Fish",
            ShellType::PowerShell => "PowerShell",
            ShellType::Cmd => "Command Prompt",
        }
    }

    pub fn shell_arg(&self) -> (r: &'static str)
        ensures
            r@ == shell_arg_spec(*self),
    {
        match self {
            ShellType::Bash => "bash",
            ShellType::Zsh => "zsh",
            ShellType::Fish => "fish",
            ShellType::PowerShell => "powershell",
            ShellType::Cmd => "cmd",
        }
    }

    /// Candidate config files under the user's home directory; a
    /// missing home leaves the relative names bare, and the command
    /// prompt has none at all.
    pub fn config_files(&self) -> (r: Vec<String>)
        ensures
            exists|home: Seq<char>| r.deep_view() == config_files_spec(
                *self,
                home,
            ),
    {
        let home_owned = match home_dir_string() {
            Some(h) => h,
            None => String::new(),
        };
        let r = self.config_files_in(home_owned.as_str());
        proof {
            assert(r.deep_view() == config_files_spec(*self, home_owned@));
        }
        r
    }

    /// The same candidates for a given home directory.
    pub fn config_files_in(&self, home: &str) -> (r: Vec<String>)
        ensures
            r.deep_view() == config_files_spec(*self, home@),
    {
        let mut v: Vec<String> = Vec::new();
        match self {
            ShellType::Bash => {
                v.push(join_path(home, ".bashrc"));
                v.push(join_path(home, ".bash_profile"));
                v.push(join_path(home, ".profile"));
                proof {
                    assert(v.deep_view() =~= config_files_spec(*self, home@));
                }
            },
            ShellType::Zsh => {
                v.push(join_path(home, ".zshrc"));
                v.push(join_path(home, ".zprofile"));
                proof {
                    assert(v.deep_view() =~= config_files_spec(*self, home@));
                }
            },
            ShellType::Fish => {
                v.push(join_path(home, ".config/fish/config.fish"));
                proof {
                    assert(v.deep_view() =~= config_files_spec(*self, home@));
                }
            },
            ShellType::PowerShell => {
                v.push(join_path(
                    home,
                    ".config/powershell/Microsoft.PowerShell_profile.ps1",
                ));
                proof {
                    assert(v.deep_view() =~= config_files_spec(*self, home@));
                }
            },
            ShellType::Cmd => {
                proof {
                    assert(v.deep_view() =~= config_files_spec(*self, home@));
                }
            },
        }
        v
    }
}

pub fn shell_type_to_str(shell_type: &ShellType) -> (r: &'static str)
    ensures
        r@ == shell_arg_spec(*shell_type),
{
    shell_type.shell_arg()
}

/// One shell found on the machine.
#[derive(Debug, Clone)]
pub struct ShellInfo {
    pub shell_type: ShellType,
    pub path: Option<String>,
    pub config_file: Option<String>,
    pub is_configured: bool,
}

/// Outcome of checking whether a shell's config activates the backend.
#[derive(Debug, Clone)]
pub enum VerificationResult {
    Configured(Option<ShellOptions>),
    NotConfigured,
    ConfigFileNotFound,
    FunctionalButNotInConfig,
    Error(String),
}

} // verus!
