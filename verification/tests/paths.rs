use where_cmd::paths::{
    count_shadowed, diagnose, directory_hits, is_parent, path_components, paths_equal,
    split_search_path, trace_entries, DirProbe, Issue, ListedFile,
};

fn strings(v: &[&str]) -> Vec<String> {
    v.iter().map(|s| s.to_string()).collect()
}

#[test]
fn search_path_keeps_empty_entries() {
    assert_eq!(split_search_path("/bin:/usr/bin:"), strings(&["/bin", "/usr/bin", ""]));
    assert_eq!(split_search_path(""), strings(&[""]));
    assert_eq!(split_search_path("/opt/custom/bin"), strings(&["/opt/custom/bin"]));
}

#[test]
fn paths_compare_by_components() {
    assert!(paths_equal("/usr/bin/", "/usr/bin"));
    assert!(paths_equal("/usr/./bin", "/usr/bin"));
    assert!(paths_equal("//usr//bin", "/usr/bin"));
    assert!(!paths_equal("./bin", "bin"));
    assert!(!paths_equal("/bin", "bin"));
    assert!(!paths_equal("/usr/bin", "/bin"));
    let (abs, parts) = path_components("./a/./b/");
    assert!(!abs);
    assert_eq!(parts, vec![vec!['.'], vec!['a'], vec!['b']]);
}

#[test]
fn parent_directories() {
    assert!(is_parent("/usr/bin", "/usr/bin/ls"));
    assert!(is_parent("/usr/bin/", "/usr/bin/ls"));
    assert!(!is_parent("/usr", "/usr/bin/ls"));
    assert!(is_parent("", "ls"));
    assert!(!is_parent("/", "/"));
    assert!(is_parent("/", "/ls"));
}

#[test]
fn deep_entries_are_not_direct_children() {
    // A file found three levels down under a custom search path: its
    // directory is not the search-path entry itself.
    let dirs = split_search_path("/tmp/t/base");
    assert_eq!(dirs.len(), 1);
    let found = strings(&["/tmp/t/base/deep/nested/python"]);
    let hits = directory_hits(&dirs, &found);
    assert_eq!(hits, vec![false]);
    assert!(found[0].contains("deep/nested/python"));
    assert!(is_parent("/tmp/t/base/deep/nested", &found[0]));
}

#[test]
fn trace_marks_matching_directories() {
    let dirs = strings(&["/bin", "/usr/local/bin", "/usr/bin", "/usr/bin/"]);
    let files = strings(&["/usr/bin/cargo", "/bin/cargo"]);
    let t = trace_entries(&dirs, &files);
    let flags: Vec<(usize, bool)> = t.iter().map(|e| (e.index, e.matched)).collect();
    assert_eq!(flags, vec![(1, true), (2, false), (3, true), (4, true)]);
    assert_eq!(t[3].directory, "/usr/bin/");
}

fn probe(dir: &str, exists: bool, canonical: &str, readable: bool) -> DirProbe {
    DirProbe { dir: dir.to_string(), exists, canonical: canonical.to_string(), readable }
}

#[test]
fn doctor_finds_problems() {
    let probes = vec![
        probe("/usr/bin", true, "/usr/bin", true),
        probe("/bin", true, "/usr/bin", true),
        probe("/fake/missing/dir", false, "/fake/missing/dir", false),
        probe("bin", true, "/home/u/bin", true),
        probe("/root/secret", true, "/root/secret", false),
    ];
    let r = diagnose(&probes);
    assert!(r.issues[0].is_empty());
    assert!(r.issues[1] == vec![Issue::Duplicate]);
    assert!(r.issues[2] == vec![Issue::Missing]);
    assert!(r.issues[3] == vec![Issue::Relative]);
    assert!(r.issues[4] == vec![Issue::Unreadable]);
    assert_eq!((r.relatives, r.missing, r.unreadable, r.exit_code), (1, 1, 1, 1));
}

#[test]
fn doctor_duplicates_alone_pass() {
    let probes = vec![probe("/usr/bin", true, "/usr/bin", true), probe("/usr/bin/", true, "/usr/bin", true)];
    let r = diagnose(&probes);
    assert!(r.issues[1] == vec![Issue::Duplicate]);
    assert_eq!(r.exit_code, 0);
}

fn listed(name: &str, path: &str) -> ListedFile {
    ListedFile { name: name.to_string(), path: path.to_string() }
}

#[test]
fn shadowed_binaries_are_counted() {
    let files = vec![
        listed("ls", "/usr/bin/ls"),
        listed("cat", "/usr/bin/cat"),
        listed("ls", "/bin/ls"),
        listed("ls", "/usr/bin/ls"),
        listed("cat", "/usr/bin//cat"),
        listed("ls", "/opt/ls"),
    ];
    assert_eq!(count_shadowed(&files), 2);
}
