//! One match as it is reported: the details gathered about the file, chosen by
//! what the options ask for, and its row in CSV output.
use vstd::prelude::*;
use crate::binary::{BinaryReport, FileReport, goblin_object, hex_lower, inspect_local, local_report, sha256, sha256_hex};
use crate::dedup::Group;
use crate::format::{decimal, decimal_string, format_mode, mode_string, owner_label};
use crate::options::{Options, Plan};
use crate::probe::{owner_spec, package_from_output, version_from_output, version_spec};
use crate::process::ProcessOutput;
use crate::format::{filesystem_label, filesystem_name};
use crate::text::{join_spec, owned};

verus! {

/// A reported match.
pub struct MatchRecord {
    pub path: String,
    pub canonical: Option<String>,
    pub aliases: Vec<String>,
    pub symlink_target: Option<String>,
    pub size: Option<u64>,
    pub inode: Option<u64>,
    pub owner: Option<String>,
    pub permissions: Option<String>,
    pub hash: Option<String>,
    pub package: Option<String>,
    pub version: Option<String>,
    pub filesystem: Option<String>,
    pub arch: Option<String>,
    pub security: Option<String>,
    pub libs: Option<Vec<String>>,
    pub executable: bool,
}

/// The metadata of the file a path reaches.
#[derive(Clone, Copy)]
pub struct Metadata {
    pub size: u64,
    pub inode: u64,
    pub uid: u32,
    pub mode: u32,
}

/// What was read from the system about a local match; each item is asked for
/// only where the plan wants it, and is `None` where reading it failed.
pub struct LocalFacts {
    /// The canonical path.
    pub canonical: Option<String>,
    /// The target of the path, where the path itself is a symbolic link.
    pub link_target: Option<String>,
    /// The metadata of the file the path reaches.
    pub metadata: Option<Metadata>,
    /// The user name of the metadata's uid, where the user database has one.
    pub user_name: Option<String>,
    /// The file's contents.
    pub contents: Option<Vec<u8>>,
    /// The answer of `pacman -Qo`.
    pub package_reply: Option<ProcessOutput>,
    /// The answer of `--version`, where it finished in time.
    pub version_reply: Option<ProcessOutput>,
    /// The filesystem type number from `statfs`.
    pub fs_magic: Option<u64>,
}

/// The view of an optional string.
pub open spec fn opt_seq(o: Option<String>) -> Option<Seq<char>> {
    match o {
        Some(s) => Some(s@),
        None => None,
    }
}

/// `v` where `wanted`, nothing otherwise.
pub open spec fn if_wanted<T>(wanted: bool, v: Option<T>) -> Option<T> {
    if wanted {
        v
    } else {
        None
    }
}

/// The report of a local match: every field that `opts` asks for, from `facts`.
pub open spec fn local_record_ok(opts: Options, g: Group, facts: LocalFacts, m: MatchRecord) -> bool {
    let plan = plan_spec(opts);
    let meta = facts.metadata;
    &&& m.path@ == g.path@
    &&& m.aliases.deep_view() == g.aliases.deep_view()
    &&& m.executable == g.executable
    &&& m.canonical == if_wanted(plan.canonical, facts.canonical)
    &&& m.symlink_target == if_wanted(plan.symlink_target, facts.link_target)
    &&& m.size == if_wanted(plan.size, match meta { Some(d) => Some(d.size), None => None })
    &&& m.inode == if_wanted(plan.ownership, match meta { Some(d) => Some(d.inode), None => None })
    &&& opt_seq(m.owner) == if_wanted(
        plan.ownership,
        match meta {
            Some(d) => Some(
                match facts.user_name {
                    Some(n) => n@,
                    None => decimal(d.uid as nat),
                },
            ),
            None => None,
        },
    )
    &&& opt_seq(m.permissions) == if_wanted(
        plan.ownership,
        match meta {
            Some(d) => Some(mode_string(d.mode)),
            None => None,
        },
    )
    &&& opt_seq(m.hash) == if_wanted(
        plan.hash,
        match facts.contents {
            Some(b) => Some(hex_lower(sha256(b@))),
            None => None,
        },
    )
    &&& opt_seq(m.package) == if_wanted(
        plan.package,
        match facts.package_reply {
            Some(out) => owner_spec(out),
            None => None,
        },
    )
    &&& opt_seq(m.version) == if_wanted(
        plan.version,
        match facts.version_reply {
            Some(out) => version_spec(out),
            None => None,
        },
    )
    &&& opt_seq(m.filesystem) == if_wanted(
        plan.filesystem,
        match facts.fs_magic {
            Some(x) => Some(filesystem_label(x)),
            None => None,
        },
    )
    &&& binary_view(m) == local_report(
        opts,
        match facts.contents {
            Some(b) => Some(goblin_object(b@)),
            None => None,
        },
        match meta {
            Some(d) => Some(d.mode),
            None => None,
        },
    )
}

/// The binary fields of a match.
pub open spec fn binary_view(m: MatchRecord) -> crate::binary::BinaryReportView {
    BinaryReport { arch: m.arch, security: m.security, libs: m.libs }@
}

/// What to find out, as `Options::plan` decides it.
pub open spec fn plan_spec(opts: Options) -> Plan {
    let all = opts.everything();
    Plan {
        canonical: all,
        symlink_target: opts.show_symlink || opts.verbose || all,
        size: opts.show_size || opts.verbose || all,
        ownership: opts.verbose || all,
        hash: opts.hash || all,
        package: opts.package || all,
        version: opts.version_info || all,
        filesystem: opts.trace || all,
        binary: opts.arch || opts.security || opts.libs || all,
    }
}

/// The report of a local match `g`: the details that `opts` asks for, taken
/// from what was read about the file.
pub fn describe_local(opts: &Options, g: Group, facts: LocalFacts) -> (m: MatchRecord)
    ensures
        local_record_ok(*opts, g, facts, m),
{
    let plan = opts.plan();
    let ghost g0 = g;
    let ghost f0 = facts;
    let meta = facts.metadata;
    let canonical = if plan.canonical {
        facts.canonical
    } else {
        None
    };
    let symlink_target = if plan.symlink_target {
        facts.link_target
    } else {
        None
    };
    let size = match meta {
        Some(d) => if plan.size {
            Some(d.size)
        } else {
            None
        },
        None => None,
    };
    let (inode, owner, permissions) = match meta {
        Some(d) => if plan.ownership {
            (Some(d.inode), Some(owner_label(facts.user_name, d.uid)), Some(format_mode(d.mode)))
        } else {
            (None, None, None)
        },
        None => (None, None, None),
    };
    let hash = match &facts.contents {
        Some(b) => if plan.hash {
            Some(sha256_hex(b.as_slice()))
        } else {
            None
        },
        None => None,
    };
    let package = match &facts.package_reply {
        Some(out) => if plan.package {
            package_from_output(out)
        } else {
            None
        },
        None => None,
    };
    let version = match &facts.version_reply {
        Some(out) => if plan.version {
            version_from_output(out)
        } else {
            None
        },
        None => None,
    };
    let filesystem = match facts.fs_magic {
        Some(x) => if plan.filesystem {
            Some(filesystem_name(x))
        } else {
            None
        },
        None => None,
    };
    let mode = match meta {
        Some(d) => Some(d.mode),
        None => None,
    };
    let binary = inspect_local(opts, facts.contents.as_ref(), mode);
    let m = MatchRecord {
        path: g.path,
        canonical,
        aliases: g.aliases,
        symlink_target,
        size,
        inode,
        owner,
        permissions,
        hash,
        package,
        version,
        filesystem,
        arch: binary.arch,
        security: binary.security,
        libs: binary.libs,
        executable: g.executable,
    };
    proof {
        assert(binary_view(m) == binary@);
    }
    m
}

/// The report of a file found inside a container image: it is taken to be
/// executable, and carries what its inspection found.
pub fn container_record(path: String, file: FileReport) -> (m: MatchRecord)
    ensures
        m.path == path,
        m.executable,
        m.aliases.len() == 0,
        m.size == file.size,
        m.hash == file.hash,
        m.arch == file.binary.arch,
        m.security == file.binary.security,
        m.libs == file.binary.libs,
        m.canonical is None && m.symlink_target is None && m.inode is None && m.owner is None,
        m.permissions is None && m.package is None && m.version is None && m.filesystem is None,
{
    MatchRecord {
        path,
        canonical: None,
        aliases: Vec::new(),
        symlink_target: None,
        size: file.size,
        inode: None,
        owner: None,
        permissions: None,
        hash: file.hash,
        package: None,
        version: None,
        filesystem: None,
        arch: file.binary.arch,
        security: file.binary.security,
        libs: file.binary.libs,
        executable: true,
    }
}

/// The text of an optional string, empty where there is none.
pub open spec fn or_empty(o: Option<String>) -> Seq<char> {
    match o {
        Some(s) => s@,
        None => Seq::empty(),
    }
}

/// The text of an optional number, empty where there is none.
pub open spec fn num_or_empty(o: Option<u64>) -> Seq<char> {
    match o {
        Some(n) => decimal(n as nat),
        None => Seq::empty(),
    }
}

/// The columns of CSV output.
pub open spec fn csv_header_spec() -> Seq<Seq<char>> {
    seq![
        "command"@,
        "path"@,
        "canonical"@,
        "aliases"@,
        "owner"@,
        "permissions"@,
        "inode"@,
        "size"@,
        "sha256"@,
        "package"@,
        "version"@,
        "filesystem"@,
        "executable"@,
    ]
}

/// The CSV row of match `m` of command `cmd`: absent details are empty, the
/// aliases are joined with `;`.
pub open spec fn csv_row_spec(cmd: Seq<char>, m: MatchRecord) -> Seq<Seq<char>> {
    seq![
        cmd,
        m.path@,
        or_empty(m.canonical),
        join_spec(m.aliases.deep_view(), seq![';']),
        or_empty(m.owner),
        or_empty(m.permissions),
        num_or_empty(m.inode),
        num_or_empty(m.size),
        or_empty(m.hash),
        or_empty(m.package),
        or_empty(m.version),
        or_empty(m.filesystem),
        if m.executable {
            "true"@
        } else {
            "false"@
        },
    ]
}

/// The header row of CSV output.
pub fn csv_header() -> (r: Vec<String>)
    ensures
        r.deep_view() == csv_header_spec(),
{
    let mut r: Vec<String> = Vec::new();
    r.push(owned("command"));
    r.push(owned("path"));
    r.push(owned("canonical"));
    r.push(owned("aliases"));
    r.push(owned("owner"));
    r.push(owned("permissions"));
    r.push(owned("inode"));
    r.push(owned("size"));
    r.push(owned("sha256"));
    r.push(owned("package"));
    r.push(owned("version"));
    r.push(owned("filesystem"));
    r.push(owned("executable"));
    assert(r.deep_view() =~= csv_header_spec());
    r
}

/// A copy of an optional string, empty where there is none.
fn text_or_empty(o: &Option<String>) -> (s: String)
    ensures
        s@ == or_empty(*o),
{
    match o {
        Some(s) => s.clone(),
        None => String::new(),
    }
}

/// An optional number in decimal, empty where there is none.
fn number_or_empty(o: Option<u64>) -> (s: String)
    ensures
        s@ == num_or_empty(o),
{
    match o {
        Some(n) => decimal_string(n),
        None => String::new(),
    }
}

/// The aliases joined with `;`.
fn join_aliases(aliases: &Vec<String>) -> (s: String)
    ensures
        s@ == join_spec(aliases.deep_view(), seq![';']),
{
    let mut chars: Vec<Vec<char>> = Vec::new();
    for i in 0..aliases.len()
        invariant
            chars.len() == i,
            forall|k: int| 0 <= k < i ==> #[trigger] chars@[k]@ == aliases@[k]@,
    {
        chars.push(crate::text::chars_of(aliases[i].as_str()));
    }
    assert forall|k: int| 0 <= k < chars.len() implies #[trigger] chars.deep_view()[k]
        == aliases.deep_view()[k] by {
        crate::text::lemma_chars_deep_view(chars@[k]);
    }
    assert(chars.deep_view() =~= aliases.deep_view());
    let sep = vec![';'];
    assert(sep@ == seq![';']);
    let joined = crate::text::join_from(&chars, 0, &sep);
    assert(chars.deep_view().skip(0) == chars.deep_view());
    crate::text::string_of(&joined)
}

/// The CSV row of match `m` of command `cmd`.
pub fn csv_row(cmd: &str, m: &MatchRecord) -> (r: Vec<String>)
    ensures
        r.deep_view() == csv_row_spec(cmd@, *m),
{
    let mut r: Vec<String> = Vec::new();
    r.push(owned(cmd));
    r.push(m.path.clone());
    r.push(text_or_empty(&m.canonical));
    r.push(join_aliases(&m.aliases));
    r.push(text_or_empty(&m.owner));
    r.push(text_or_empty(&m.permissions));
    r.push(number_or_empty(m.inode));
    r.push(number_or_empty(m.size));
    r.push(text_or_empty(&m.hash));
    r.push(text_or_empty(&m.package));
    r.push(text_or_empty(&m.version));
    r.push(text_or_empty(&m.filesystem));
    r.push(
        if m.executable {
            owned("true")
        } else {
            owned("false")
        },
    );
    assert(r.deep_view() =~= csv_row_spec(cmd@, *m));
    r
}

/// Every CSV row has one field for each column of the header.
pub proof fn lemma_csv_row_width(cmd: Seq<char>, m: MatchRecord)
    ensures
        csv_row_spec(cmd, m).len() == csv_header_spec().len(),
{
}

/// The aliases of the matches, match by match, in order.
pub open spec fn alias_list(ms: Seq<MatchRecord>) -> Seq<Seq<char>>
    decreases ms.len(),
{
    if ms.len() == 0 {
        Seq::empty()
    } else {
        alias_list(ms.drop_last()) + ms.last().aliases.deep_view()
    }
}

/// Every path of the matches: each match's path followed by its aliases.
pub open spec fn reached_list(ms: Seq<MatchRecord>) -> Seq<Seq<char>>
    decreases ms.len(),
{
    if ms.len() == 0 {
        Seq::empty()
    } else {
        reached_list(ms.drop_last()) + seq![ms.last().path@] + ms.last().aliases.deep_view()
    }
}

/// Appends copies of `src` to `dst`.
fn append_strings(dst: &mut Vec<String>, src: &Vec<String>)
    ensures
        final(dst).deep_view() == old(dst).deep_view() + src.deep_view(),
{
    let ghost before = dst.deep_view();
    for k in 0..src.len()
        invariant
            dst.deep_view() == before + src.deep_view().take(k as int),
    {
        let ghost mid = dst.deep_view();
        dst.push(src[k].clone());
        assert(dst.deep_view() =~= mid.push(src@[k as int]@));
        assert(src.deep_view().take(k + 1) =~= src.deep_view().take(k as int).push(src@[k as int]@));
        assert(dst.deep_view() =~= before + src.deep_view().take(k + 1));
    }
    assert(src.deep_view().take(src.len() as int) =~= src.deep_view());
}

/// The aliases of all the matches, in order; the trace marks the directories
/// that hold one of them as where an alias was found.
pub fn alias_paths(ms: &Vec<MatchRecord>) -> (r: Vec<String>)
    ensures
        r.deep_view() == alias_list(ms@),
{
    let mut r: Vec<String> = Vec::new();
    for i in 0..ms.len()
        invariant
            r.deep_view() == alias_list(ms@.take(i as int)),
    {
        assert(ms@.take(i + 1).drop_last() =~= ms@.take(i as int));
        append_strings(&mut r, &ms[i].aliases);
    }
    assert(ms@.take(ms.len() as int) =~= ms@);
    r
}

/// Every path of the matches, each match's path followed by its aliases;
/// appended to `dst`.
pub fn add_reached_paths(dst: &mut Vec<String>, ms: &Vec<MatchRecord>)
    ensures
        final(dst).deep_view() == old(dst).deep_view() + reached_list(ms@),
{
    let ghost before = dst.deep_view();
    for i in 0..ms.len()
        invariant
            dst.deep_view() == before + reached_list(ms@.take(i as int)),
    {
        assert(ms@.take(i + 1).drop_last() =~= ms@.take(i as int));
        let ghost mid = dst.deep_view();
        dst.push(ms[i].path.clone());
        assert(dst.deep_view() =~= mid + seq![ms@[i as int].path@]);
        append_strings(dst, &ms[i].aliases);
        assert(dst.deep_view() =~= before + reached_list(ms@.take(i + 1)));
    }
    assert(ms@.take(ms.len() as int) =~= ms@);
}

} // verus!
