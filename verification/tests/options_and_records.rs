use where_cmd::dedup::Group;
use where_cmd::options::{Config, Options};
use where_cmd::process::ProcessOutput;
use where_cmd::record::{csv_header, csv_row, describe_local, LocalFacts, Metadata};

fn opts() -> Options {
    Options {
        all: false, first_only: false, show_symlink: false, show_size: false, verbose: false,
        json: false, pretty: false, yaml: false, csv: false, plain: false, color: false,
        hash: false, time: false, package: false, version_info: false, why: false, trace: false,
        benchmark: false, doctor: false, about: false, quiet: false, arch: false, security: false,
        libs: false, interactive: false, suggest: false, resolve: false, explain: false,
    }
}

#[test]
fn config_turns_switches_on() {
    let mut o = opts();
    o.verbose = true;
    let c = Config { color: Some(true), output: Some("json".to_string()), package: Some(false), version_info: None, all: Some(true) };
    o.apply_config(&c);
    assert!(o.color && o.json && o.all && o.verbose);
    assert!(!o.package && !o.version_info && !o.yaml && !o.csv && !o.plain);
    let mut p = opts();
    p.apply_config(&Config { color: None, output: Some("xml".to_string()), package: None, version_info: Some(true), all: None });
    assert!(p.version_info && !p.json && !p.yaml && !p.csv && !p.plain);
}

#[test]
fn plan_follows_switches() {
    let mut o = opts();
    o.verbose = true;
    let p = o.plan();
    assert!(p.symlink_target && p.size && p.ownership);
    assert!(!p.canonical && !p.hash && !p.package && !p.version && !p.filesystem && !p.binary);
    let mut o = opts();
    o.csv = true;
    let p = o.plan();
    assert!(p.canonical && p.symlink_target && p.size && p.ownership && p.hash && p.package && p.version && p.filesystem && p.binary);
    assert!(o.fetch_all() && o.is_structured());
}

fn group() -> Group {
    Group { path: "/usr/bin/ls".to_string(), executable: true, identity: Some((1, 2)), aliases: vec!["/bin/ls".to_string()] }
}

fn facts() -> LocalFacts {
    LocalFacts {
        canonical: Some("/usr/bin/ls".to_string()),
        link_target: None,
        metadata: Some(Metadata { size: 3, inode: 42, uid: 1234, mode: 0o100755 }),
        user_name: None,
        contents: Some(b"abc".to_vec()),
        package_reply: Some(ProcessOutput { success: true, stdout: b"/usr/bin/ls is owned by coreutils 9.4-3\n".to_vec(), stderr: Vec::new() }),
        version_reply: Some(ProcessOutput { success: true, stdout: b"ls (GNU coreutils) 9.4\n".to_vec(), stderr: Vec::new() }),
        fs_magic: Some(0xEF53),
    }
}

#[test]
fn verbose_record() {
    let mut o = opts();
    o.verbose = true;
    let m = describe_local(&o, group(), facts());
    assert_eq!(m.path, "/usr/bin/ls");
    assert_eq!(m.aliases, vec!["/bin/ls".to_string()]);
    assert_eq!(m.size, Some(3));
    assert_eq!(m.inode, Some(42));
    assert_eq!(m.owner.as_deref(), Some("1234"));
    assert_eq!(m.permissions.as_deref(), Some("-rwxr-xr-x"));
    assert_eq!(m.canonical, None);
    assert_eq!(m.hash, None);
    assert_eq!(m.package, None);
    assert_eq!(m.filesystem, None);
}

#[test]
fn full_record_and_csv() {
    let mut o = opts();
    o.csv = true;
    let mut f = facts();
    f.user_name = Some("root".to_string());
    let m = describe_local(&o, group(), f);
    assert_eq!(m.owner.as_deref(), Some("root"));
    assert_eq!(m.hash.as_deref(), Some("ba7816bf8f01cfea414140de5dae2223b00361a396177a9cb410ff61f20015ad"));
    assert_eq!(m.package.as_deref(), Some("coreutils 9.4-3"));
    assert_eq!(m.version.as_deref(), Some("ls (GNU coreutils) 9.4"));
    assert_eq!(m.filesystem.as_deref(), Some("ext4/ext3/ext2"));
    assert_eq!(m.canonical.as_deref(), Some("/usr/bin/ls"));
    assert_eq!(csv_header().len(), 13);
    let row = csv_row("ls", &m);
    assert_eq!(row.len(), csv_header().len());
    assert_eq!(row, vec![
        "ls", "/usr/bin/ls", "/usr/bin/ls", "/bin/ls", "root", "-rwxr-xr-x", "42", "3",
        "ba7816bf8f01cfea414140de5dae2223b00361a396177a9cb410ff61f20015ad", "coreutils 9.4-3",
        "ls (GNU coreutils) 9.4", "ext4/ext3/ext2", "true",
    ]);
}
