use flux_ide::spawn::resolve_shell;
use flux_ide::spawn::shell_command;
use flux_ide::spawn::HostEnvironment;
use flux_ide::spawn::TerminalSize;

fn host(lang: Option<&str>, path: Option<&str>, home: Option<&str>, user: Option<&str>) -> HostEnvironment {
    HostEnvironment {
        shell: None,
        lang: lang.map(|s| s.to_string()),
        path: path.map(|s| s.to_string()),
        home: home.map(|s| s.to_string()),
        user: user.map(|s| s.to_string()),
    }
}

fn overrides(command: &portable_pty::CommandBuilder) -> Vec<(String, String)> {
    command.iter_extra_env_as_str().map(|(k, v)| (k.to_string(), v.to_string())).collect()
}

fn pair(name: &str, value: &str) -> (String, String) {
    (name.to_string(), value.to_string())
}

#[test]
fn shell_asked_for_wins() {
    let shell = resolve_shell(Some("/bin/zsh".to_string()), &Some("/bin/fish".to_string()));
    assert_eq!(shell, "/bin/zsh");
    assert_eq!(resolve_shell(Some("/bin/zsh".to_string()), &None), "/bin/zsh");
}

#[test]
fn hosts_shell_is_the_second_choice() {
    assert_eq!(resolve_shell(None, &Some("/bin/fish".to_string())), "/bin/fish");
}

#[test]
fn bash_is_the_last_resort() {
    assert_eq!(resolve_shell(None, &None), "/bin/bash");
}

#[test]
fn an_empty_shell_asked_for_is_still_the_one_asked_for() {
    assert_eq!(resolve_shell(Some(String::new()), &Some("/bin/fish".to_string())), "");
}

#[test]
fn initial_size_is_eighty_by_twenty_four() {
    let size = TerminalSize::initial();
    assert_eq!(size, TerminalSize { rows: 24, cols: 80, pixel_width: 0, pixel_height: 0 });
}

#[test]
fn cells_sets_no_pixels() {
    let size = TerminalSize::cells(132, 43);
    assert_eq!(size, TerminalSize { rows: 43, cols: 132, pixel_width: 0, pixel_height: 0 });
    assert_eq!(TerminalSize::cells(0, 65535).rows, 65535);
}

#[test]
fn command_runs_the_shell_without_arguments() {
    let command = shell_command("/bin/sh", &None, &host(None, None, None, None));
    assert_eq!(command.get_argv().len(), 1);
    assert_eq!(command.get_argv()[0].to_str(), Some("/bin/sh"));
    assert!(command.get_cwd().is_none());
}

#[test]
fn command_sets_the_working_directory_when_given() {
    let command = shell_command("/bin/sh", &Some("/tmp".to_string()), &host(None, None, None, None));
    assert_eq!(command.get_cwd().and_then(|dir| dir.to_str()), Some("/tmp"));
    assert_eq!(command.get_argv()[0].to_str(), Some("/bin/sh"));
}

#[test]
fn command_forces_the_terminal_type_and_defaults_the_locale() {
    let command = shell_command("/bin/sh", &None, &host(None, None, None, None));
    assert_eq!(
        overrides(&command),
        vec![pair("COLORTERM", "truecolor"), pair("LANG", "en_US.UTF-8"), pair("TERM", "xterm-256color")]
    );
}

#[test]
fn command_passes_on_what_the_host_has() {
    let command = shell_command(
        "/bin/sh",
        &None,
        &host(Some("fr_FR.UTF-8"), Some("/usr/bin:/bin"), Some("/home/ada"), Some("ada")),
    );
    assert_eq!(
        overrides(&command),
        vec![
            pair("COLORTERM", "truecolor"),
            pair("HOME", "/home/ada"),
            pair("LANG", "fr_FR.UTF-8"),
            pair("PATH", "/usr/bin:/bin"),
            pair("TERM", "xterm-256color"),
            pair("USER", "ada"),
        ]
    );
    assert_eq!(command.get_env("PATH").and_then(|v| v.to_str()), Some("/usr/bin:/bin"));
}

#[test]
fn command_does_not_invent_what_the_host_lacks() {
    let command = shell_command("/bin/sh", &None, &host(None, None, Some("/root"), None));
    let set = overrides(&command);
    assert!(set.contains(&pair("HOME", "/root")));
    assert!(!set.iter().any(|(name, _)| name == "PATH"));
    assert!(!set.iter().any(|(name, _)| name == "USER"));
}

#[test]
fn command_ignores_the_hosts_shell_variable() {
    let mut with_shell = host(None, None, None, None);
    with_shell.shell = Some("/bin/fish".to_string());
    let command = shell_command("/bin/sh", &None, &with_shell);
    assert_eq!(command.get_argv()[0].to_str(), Some("/bin/sh"));
    assert!(!overrides(&command).iter().any(|(name, _)| name == "SHELL"));
}
