use where_cmd::probe::{
    hook_addition, hook_notice_due, owner_query, hook_text, init_script, needs_hook, package_from_output, rc_path, shell_named,
    version_from_output, Shell, FISH_INIT,
};
use where_cmd::process::ProcessOutput;

fn out(success: bool, stdout: &[u8], stderr: &[u8]) -> ProcessOutput {
    ProcessOutput { success, stdout: stdout.to_vec(), stderr: stderr.to_vec() }
}

#[test]
fn version_is_first_line_of_stdout() {
    let o = out(true, b"  Python 3.12.1  \nmore\n", b"");
    assert_eq!(version_from_output(&o), Some("Python 3.12.1".to_string()));
}

#[test]
fn version_falls_back_to_stderr() {
    let o = out(true, b"", b"java 17.0.2 2022-01-18\nOpenJDK\n");
    assert_eq!(version_from_output(&o), Some("java 17.0.2 2022-01-18".to_string()));
}

#[test]
fn version_after_blank_stdout_line() {
    // Blank standard output is kept before standard error, so the first line is empty.
    let o = out(true, b"\n", b"tool 1.0\n");
    assert_eq!(version_from_output(&o), Some(String::new()));
}

#[test]
fn no_version_on_failure_or_silence() {
    assert_eq!(version_from_output(&out(false, b"v1\n", b"")), None);
    assert_eq!(version_from_output(&out(true, b"  \n", b" ")), None);
    assert_eq!(version_from_output(&out(true, b"\xff\xfe", b"")), None);
}

#[test]
fn package_owner() {
    let o = out(true, b"/usr/bin/ls is owned by coreutils 9.4-3\n", b"");
    assert_eq!(package_from_output(&o), Some("coreutils 9.4-3".to_string()));
    let o = out(true, b"error: No package owns /x\n", b"");
    assert_eq!(package_from_output(&o), None);
    let o = out(false, b"/usr/bin/ls is owned by coreutils 9.4-3\n", b"");
    assert_eq!(package_from_output(&o), None);
    let o = out(true, b"a is owned by b is owned by c", b"");
    assert_eq!(package_from_output(&o), Some("b".to_string()));
}

#[test]
fn init_scripts() {
    let bash = init_script("bash").unwrap();
    assert!(bash.starts_with("where() {\n    export WHERE_SHELL=\"bash\""));
    assert!(bash.ends_with("    command where \"$@\"\n}"));
    let zsh = init_script("zsh").unwrap();
    assert!(zsh.contains("export WHERE_FUNCTIONS=\"$(print -l ${(k)functions})\""));
    assert_eq!(init_script("fish").unwrap(), FISH_INIT);
    assert!(FISH_INIT.contains("set -lx WHERE_ABBRS (abbr --show | string join \\\\n)"));
    assert_eq!(init_script("tcsh"), Err("Unsupported shell: tcsh. Supported shells: bash, zsh, fish".to_string()));
    assert!(shell_named("Bash").is_none());
}

#[test]
fn startup_files() {
    assert_eq!(rc_path("/home/u", Shell::Bash), Some("/home/u/.bashrc".to_string()));
    assert_eq!(rc_path("/home/u/", Shell::Zsh), Some("/home/u/.zshrc".to_string()));
    assert_eq!(rc_path("/home/u", Shell::Fish), Some("/home/u/.config/fish/config.fish".to_string()));
    assert_eq!(rc_path("", Shell::Bash), None);
    assert!(needs_hook("export PATH=$PATH:~/bin\n", Shell::Bash));
    assert!(!needs_hook("eval \"$(where --init bash)\"\n", Shell::Bash));
    assert!(needs_hook("eval \"$(where --init bash)\"\n", Shell::Zsh));
    assert_eq!(hook_text(Shell::Fish), "\n# where shell integration\nwhere --init fish | source\n");
    assert_eq!(hook_text(Shell::Bash), "\n# where shell integration\neval \"$(where --init bash)\"\n");
}

#[test]
fn hook_installed_only_once() {
    for shell in [Shell::Bash, Shell::Zsh, Shell::Fish] {
        let before = "alias ll='ls -l'\n";
        assert!(needs_hook(before, shell));
        let after = format!("{}{}", before, hook_text(shell));
        assert!(!needs_hook(&after, shell));
    }
}

#[test]
fn hook_additions_and_notice() {
    let fresh = "export EDITOR=vim\n";
    let t = hook_addition(fresh, Shell::Zsh).unwrap();
    assert_eq!(t, "\n# where shell integration\neval \"$(where --init zsh)\"\n");
    let after = format!("{}{}", fresh, t);
    assert_eq!(hook_addition(&after, Shell::Zsh), None);
    assert!(hook_notice_due(&vec![false, true]));
    assert!(!hook_notice_due(&vec![false, false]));
    assert!(!hook_notice_due(&Vec::new()));
}

#[test]
fn owner_query_and_no_owner() {
    let (program, args) = owner_query("/usr/bin/ls");
    assert_eq!(program, "pacman");
    assert_eq!(args, vec!["-Qo", "/usr/bin/ls"]);
    assert_eq!(package_from_output(&out(true, b"error: No package owns /opt/x\n", b"")), None);
    assert_eq!(package_from_output(&out(false, b"/usr/bin/ls is owned by coreutils 9.4-3\n", b"")), None);
    assert_eq!(
        package_from_output(&out(true, b"/usr/bin/ls is owned by coreutils 9.4-3\n", b"")),
        Some("coreutils 9.4-3".to_string())
    );
}
