use where_cmd::options::Options;
use where_cmd::paths::{diagnose, trace_entries, DirProbe};
use where_cmd::record::{add_reached_paths, alias_paths, MatchRecord};
use where_cmd::render::{command_lines, match_lines, Line, Style};
use where_cmd::report::{did_you_mean_lines, doctor_lines, exit_status, not_found_lines, trace_lines, why_lines};
use where_cmd::shell::{ShellContext, ShellEnv};

fn opts() -> Options {
    Options {
        all: false, first_only: false, show_symlink: false, show_size: false, verbose: false,
        json: false, pretty: false, yaml: false, csv: false, plain: false, color: false,
        hash: false, time: false, package: false, version_info: false, why: false, trace: false,
        benchmark: false, doctor: false, about: false, quiet: false, arch: false, security: false,
        libs: false, interactive: false, suggest: false, resolve: false, explain: false,
    }
}

fn text(lines: &[Line]) -> Vec<String> {
    lines.iter().map(|l| l.spans.iter().map(|s| s.text.as_str()).collect::<String>()).collect()
}

fn record(path: &str) -> MatchRecord {
    MatchRecord {
        path: path.to_string(), canonical: None, aliases: Vec::new(), symlink_target: None,
        size: None, inode: None, owner: None, permissions: None, hash: None, package: None,
        version: None, filesystem: None, arch: None, security: None, libs: None, executable: true,
    }
}

fn no_shell() -> ShellEnv {
    ShellEnv { shell: None, aliases: None, functions: None, builtins: None, abbrs: None }
}

#[test]
fn plain_match() {
    let mut m = record("/usr/bin/python");
    m.symlink_target = Some("python3".to_string());
    let lines = match_lines(&opts(), &m);
    assert_eq!(text(&lines), vec![" └─ /usr/bin/python -> python3"]);
    assert!(lines[0].spans[1].style == Style::Green);
    assert!(lines[0].spans[3].style == Style::Cyan);
}

#[test]
fn verbose_match_details() {
    let mut o = opts();
    o.verbose = true;
    let mut m = record("/usr/bin/python");
    m.aliases = vec!["/bin/python".to_string()];
    m.owner = Some("root".to_string());
    m.permissions = Some("-rwxr-xr-x".to_string());
    m.inode = Some(1191509);
    m.executable = false;
    let lines = match_lines(&o, &m);
    assert_eq!(text(&lines), vec![
        " └─ /usr/bin/python",
        "    aliases:",
        "      /bin/python",
        "    executable: false",
        "    owner: root",
        "    permissions: -rwxr-xr-x",
        "    inode: 1191509",
    ]);
    assert!(lines[0].spans[1].style == Style::Red);
}

#[test]
fn command_block_with_alias() {
    let env = ShellEnv { shell: Some("bash".to_string()), aliases: Some("alias ll='ls -alF'".to_string()), functions: None, builtins: None, abbrs: None };
    let ctx = ShellContext::parse("ll", None, &env);
    let lines = command_lines(&opts(), "ll", &ctx, &Vec::new(), true);
    assert_eq!(text(&lines), vec!["ll", " └─ shell alias", "    expands to: ls -alF"]);
    let second = command_lines(&opts(), "ll", &ctx, &Vec::new(), false);
    assert_eq!(text(&second)[0], "");
}

#[test]
fn explain_and_resolve() {
    let ctx = ShellContext::parse("ls", None, &no_shell());
    let ms = vec![record("/usr/bin/ls")];
    let mut o = opts();
    o.explain = true;
    let lines = command_lines(&o, "ls", &ctx, &ms, true);
    assert_eq!(text(&lines), vec![
        "ls", "Shell searched:", "", "✗ alias", "✗ function", "✗ builtin", "✗ env var", "✓ PATH",
        "", "Selected:", "/usr/bin/ls", "", "Reason:", "No alias", "No function", "Not a builtin",
        "Executable found in PATH", "", " └─ /usr/bin/ls",
    ]);
    let mut o = opts();
    o.resolve = true;
    let lines = command_lines(&o, "ls", &ctx, &ms, true);
    assert_eq!(text(&lines), vec![
        "ls", "Resolution order", "", "✗ alias", "✗ function", "✗ builtin", "✗ env var",
        "✓ executable", "", "Result:", "/usr/bin/ls", "", " └─ /usr/bin/ls",
    ]);
    assert!(command_lines(&o, "nope", &ctx, &Vec::new(), true).is_empty());
}

#[test]
fn env_var_values_are_split() {
    let ctx = ShellContext::parse("PATH", Some("/bin:/usr/bin".to_string()), &no_shell());
    let lines = command_lines(&opts(), "PATH", &ctx, &Vec::new(), true);
    assert_eq!(text(&lines), vec!["PATH", " └─ environment variable", "    value:", "      /bin", "      /usr/bin"]);
}

#[test]
fn missing_command_notice() {
    let mut o = opts();
    let lines = not_found_lines(&o, "cd", false);
    assert_eq!(text(&lines)[0], "cd: Command not found.");
    assert_eq!(lines.len(), 6);
    assert_eq!(not_found_lines(&o, "cd", true).len(), 1);
    assert_eq!(not_found_lines(&o, "foo", false).len(), 1);
    o.json = true;
    assert!(not_found_lines(&o, "foo", false).is_empty());
    assert_eq!(exit_status(&vec![false, true]), 1);
    assert_eq!(exit_status(&vec![false, false]), 0);
}

#[test]
fn why_and_trace() {
    let dirs = vec!["/usr/local/bin".to_string(), "/usr/bin".to_string(), "/bin".to_string()];
    assert_eq!(text(&why_lines("cargo", &dirs)), vec!["cargo Found because:", "PATH contains:", "/usr/local/bin", "/usr/bin", "/bin", "", "Matched:"]);
    let files = vec!["/usr/bin/cargo".to_string(), "/bin/cargo".to_string()];
    let entries = trace_entries(&dirs, &files);
    let lines = trace_lines(&entries, &vec![false, false, true], 12, 13897);
    assert_eq!(text(&lines), vec![
        "PATH:",
        "1. /usr/local/bin",
        "2. /usr/bin                  ✓ selected",
        "3. /bin                      ✓ alias",
        "",
        "Scan",
        "────",
        "Directories : 12",
        "Entries     : 13897",
    ]);
}

#[test]
fn doctor_report_lines() {
    let probes = vec![
        DirProbe { dir: "/usr/bin".to_string(), exists: true, canonical: "/usr/bin".to_string(), readable: true },
        DirProbe { dir: "/bin".to_string(), exists: true, canonical: "/usr/bin".to_string(), readable: true },
        DirProbe { dir: "/fake/missing/dir".to_string(), exists: false, canonical: "/fake/missing/dir".to_string(), readable: false },
    ];
    let dirs: Vec<String> = probes.iter().map(|p| p.dir.clone()).collect();
    let r = diagnose(&probes);
    let lines = doctor_lines(&dirs, &r, 6926);
    assert_eq!(text(&lines), vec![
        "PATH diagnostics", "", "✓ PATH contains 3 directories", "",
        "⚠ Duplicate:", "/bin", "",
        "⚠ Missing:", "/fake/missing/dir", "",
        "✓ All directories readable", "",
        "⚠ 6926 shadowed binaries detected",
    ]);
    assert_eq!(r.exit_code, 1);
}

#[test]
fn alias_and_reached_paths_in_order() {
    let mut a = record("/usr/bin/ls");
    a.aliases = vec!["/bin/ls".to_string()];
    let mut b = record("/opt/bin/ls");
    b.aliases = vec!["/opt/sbin/ls".to_string(), "/opt/x/ls".to_string()];
    let ms = vec![a, b];
    assert_eq!(alias_paths(&ms), vec!["/bin/ls", "/opt/sbin/ls", "/opt/x/ls"]);
    let mut every = vec!["/first".to_string()];
    add_reached_paths(&mut every, &ms);
    assert_eq!(every, vec!["/first", "/usr/bin/ls", "/bin/ls", "/opt/bin/ls", "/opt/sbin/ls", "/opt/x/ls"]);
    let dirs = vec!["/usr/bin".to_string(), "/bin".to_string(), "/opt/sbin".to_string()];
    let hits = where_cmd::paths::directory_hits(&dirs, &alias_paths(&ms));
    assert_eq!(hits, vec![false, true, true]);
}

#[test]
fn did_you_mean_offers_the_name() {
    let lines = did_you_mean_lines("python3");
    assert_eq!(text(&lines), vec!["", "Did you mean?", "  python3"]);
    assert!(lines[2].spans[1].style == Style::Green);
}
