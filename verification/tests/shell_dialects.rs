use versi::backend::{FnmBackend, ShellInitOptions};
use versi::shell::ShellType;

#[test]
fn test_shell_type_name() {
    assert_eq!(ShellType::Bash.name(), "Bash");
    assert_eq!(ShellType::Zsh.name(), "Zsh");
    assert_eq!(ShellType::Fish.name(), "Fish");
    assert_eq!(ShellType::PowerShell.name(), "PowerShell");
    assert_eq!(ShellType::Cmd.name(), "Command Prompt");
}

#[test]
fn test_shell_type_shell_arg() {
    assert_eq!(ShellType::Bash.shell_arg(), "bash");
    assert_eq!(ShellType::Zsh.shell_arg(), "zsh");
    assert_eq!(ShellType::Fish.shell_arg(), "fish");
    assert_eq!(ShellType::PowerShell.shell_arg(), "powershell");
    assert_eq!(ShellType::Cmd.shell_arg(), "cmd");
}

#[test]
fn test_config_files_bash() {
    let files = ShellType::Bash.config_files();
    assert!(!files.is_empty());
    assert!(files.iter().any(|p| p.ends_with(".bashrc")));
}

#[test]
fn test_config_files_zsh() {
    let files = ShellType::Zsh.config_files();
    assert!(!files.is_empty());
    assert!(files.iter().any(|p| p.ends_with(".zshrc")));
}

#[test]
fn test_config_files_fish() {
    let files = ShellType::Fish.config_files();
    assert!(!files.is_empty());
    assert!(files.iter().any(|p| p.contains("fish")));
}

#[test]
fn test_config_files_cmd() {
    let files = ShellType::Cmd.config_files();
    assert!(files.is_empty());
}

#[test]
fn test_shell_type_equality() {
    assert_eq!(ShellType::Bash, ShellType::Bash);
    assert_ne!(ShellType::Bash, ShellType::Zsh);
}

#[test]
fn test_shell_type_clone() {
    let shell = ShellType::Bash;
    let cloned = shell.clone();
    assert_eq!(shell, cloned);
}

#[test]
fn fnm_shell_init_renders_per_dialect() {
    let backend = FnmBackend::new("fnm".to_string(), None, None);
    let all_off = ShellInitOptions {
        use_on_cd: false,
        resolve_engines: false,
        corepack_enabled: false,
    };
    assert_eq!(
        backend.shell_init_command("bash", &all_off).as_deref(),
        Some("eval \"$(fnm env)\"")
    );
    assert_eq!(
        backend.shell_init_command("fish", &all_off).as_deref(),
        Some("fnm env | source")
    );
    assert_eq!(
        backend.shell_init_command("powershell", &all_off).as_deref(),
        Some("fnm env | Out-String | Invoke-Expression")
    );
    assert_eq!(backend.shell_init_command("cmd", &all_off), None);

    let all_on = ShellInitOptions {
        use_on_cd: true,
        resolve_engines: true,
        corepack_enabled: true,
    };
    assert_eq!(
        backend.shell_init_command("zsh", &all_on).as_deref(),
        Some("eval \"$(fnm env --use-on-cd --resolve-engines --corepack-enabled)\"")
    );
}
