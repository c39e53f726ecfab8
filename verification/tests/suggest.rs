use where_cmd::process::ProcessOutput;
use where_cmd::suggest::{package_query, suggest_packages, PackageReplies, PackageSource};

fn ok(text: &str) -> Option<ProcessOutput> {
    Some(ProcessOutput { success: true, stdout: text.as_bytes().to_vec(), stderr: Vec::new() })
}

fn failed(text: &str) -> Option<ProcessOutput> {
    Some(ProcessOutput { success: false, stdout: text.as_bytes().to_vec(), stderr: Vec::new() })
}

fn none() -> PackageReplies {
    PackageReplies { pacman: None, apt: None, dnf: None, brew: None, cargo: None, npm: None }
}

#[test]
fn pacman_packages_sorted_once() {
    let mut r = none();
    r.pacman = ok("extra/python2\ncore/python\nextra/python\n");
    let s = suggest_packages("python", &r);
    assert_eq!(s.len(), 1);
    assert!(s[0].source == PackageSource::Pacman);
    assert_eq!(s[0].packages, vec!["python".to_string(), "python2".to_string()]);
}

#[test]
fn apt_and_dnf_packages() {
    let mut r = none();
    r.apt = ok("python3-minimal: /bin/python3\npython3: /bin/python3\n");
    r.dnf = ok("Last metadata expiration check\npython3-3.12.1-1.fc39.x86_64 : Python\nRepo        : fedora\nMatched from:\n");
    let s = suggest_packages("python3", &r);
    assert_eq!(s.len(), 2);
    assert!(s[0].source == PackageSource::Apt);
    assert_eq!(s[0].packages, vec!["python3".to_string(), "python3-minimal".to_string()]);
    assert!(s[1].source == PackageSource::Dnf);
    assert_eq!(s[1].packages, vec!["python3".to_string()]);
}

#[test]
fn brew_cargo_npm_answers() {
    let mut r = none();
    r.brew = ok("  ripgrep\n");
    r.cargo = ok("ripgrep = \"14.1.0\"    # line-oriented search\n");
    r.npm = ok("rg\n");
    let s = suggest_packages("ripgrep", &r);
    let got: Vec<(PackageSource, Vec<String>)> = s.into_iter().map(|x| (x.source, x.packages)).collect();
    assert!(got == vec![
        (PackageSource::Brew, vec!["ripgrep".to_string()]),
        (PackageSource::Cargo, vec!["ripgrep".to_string()]),
    ]);
}

#[test]
fn failures_and_errors_suggest_nothing() {
    let mut r = none();
    r.pacman = failed("extra/python\n");
    r.brew = ok("Error: No formula\n");
    r.cargo = ok("ripgrep-all = \"1\"\n");
    assert!(suggest_packages("ripgrep", &r).is_empty());
}

#[test]
fn queries() {
    let q = package_query(PackageSource::Apt, "ls");
    assert_eq!(q.program, "apt-file");
    assert_eq!(q.args, vec!["search", "-x", "^/bin/ls$"]);
    let q = package_query(PackageSource::Dnf, "ls");
    assert_eq!(q.program, "dnf");
    assert_eq!(q.args, vec!["provides", "*/bin/ls"]);
    let q = package_query(PackageSource::Cargo, "rg");
    assert_eq!(q.args, vec!["search", "--limit", "1", "rg"]);
    let q = package_query(PackageSource::Npm, "rg");
    assert_eq!(q.args, vec!["view", "rg", "name"]);
}

#[test]
fn dnf_offers_only_package_names() {
    let mut r = none();
    r.dnf = ok("bspwm-0.9.10-9.fc39.x86_64 : A tiling window manager\nRepo        : fedora\nMatched from:\nFilename    : /usr/bin/bspwm\n");
    let s = suggest_packages("bspwm", &r);
    assert_eq!(s.len(), 1);
    assert!(s[0].source == PackageSource::Dnf);
    assert_eq!(s[0].packages, vec!["bspwm".to_string()]);
    let lines = where_cmd::report::suggestion_lines(&s);
    let text: Vec<String> = lines.iter().map(|l| l.spans.iter().map(|x| x.text.as_str()).collect::<String>()).collect();
    assert_eq!(text, vec!["", "📦 Available in packages (via dnf):", "    sudo dnf install bspwm"]);
}

#[test]
fn dnf_names_keep_their_hyphens() {
    let mut r = none();
    r.dnf = ok("vim-enhanced-2:9.0.2120-1.fc39.x86_64 : A version of the VIM editor\nRepo        : updates\nMatched from:\nFilename    : /usr/bin/vim\n\npython3-foo-1.2-3.fc39.noarch : Foo\nRepo        : fedora\n");
    let s = suggest_packages("vim", &r);
    assert_eq!(s[0].packages, vec!["python3-foo".to_string(), "vim-enhanced".to_string()]);
}

#[test]
fn queries_in_order() {
    let qs = where_cmd::suggest::package_queries("rg");
    let programs: Vec<&str> = qs.iter().map(|q| q.program.as_str()).collect();
    assert_eq!(programs, vec!["pacman", "apt-file", "dnf", "brew", "cargo", "npm"]);
    assert_eq!(qs[2].args, vec!["provides", "*/bin/rg"]);
}

#[test]
fn sections_are_independent() {
    let mut r = none();
    r.pacman = failed("x");
    r.brew = ok("ripgrep\n");
    r.npm = ok("ripgrep\n");
    let all = where_cmd::report::suggestion_lines(&suggest_packages("ripgrep", &r));
    let mut alone = Vec::new();
    for keep in 0..6 {
        let mut one = none();
        match keep {
            0 => one.pacman = failed("x"),
            3 => one.brew = ok("ripgrep\n"),
            5 => one.npm = ok("ripgrep\n"),
            _ => {}
        }
        alone.extend(where_cmd::report::suggestion_lines(&suggest_packages("ripgrep", &one)));
    }
    let text = |ls: &[where_cmd::render::Line]| -> Vec<String> {
        ls.iter().map(|l| l.spans.iter().map(|x| x.text.as_str()).collect::<String>()).collect()
    };
    assert_eq!(text(&all), text(&alone));
    assert_eq!(text(&all).len(), 6);
}
