//! Search-path strings and paths compared the way `std::path::Path` compares
//! them: by their components, so that `/usr/bin`, `/usr/bin/` and
//! `/usr/./bin` are one directory.
use vstd::prelude::*;
use crate::text::{
    chars_eq, chars_of, lemma_chars_deep_view, lemma_split_nonempty, split_chars, split_spec,
    strings_of,
};

verus! {

/// The components of a path that `Path::components` yields (on Unix):
/// whether it starts at the root, then its parts between slashes, without
/// empty parts and without `.` parts except a leading one.
pub open spec fn components(s: Seq<char>) -> (bool, Seq<Seq<char>>) {
    (s.len() > 0 && s[0] == '/', kept_parts(split_spec(s, '/')))
}

/// The parts that `Path::components` keeps: empty parts are dropped, and `.`
/// is dropped except as the first part.
pub open spec fn kept_parts(pieces: Seq<Seq<char>>) -> Seq<Seq<char>>
    decreases pieces.len(),
{
    if pieces.len() == 0 {
        Seq::empty()
    } else {
        let prev = kept_parts(pieces.drop_last());
        let p = pieces.last();
        if p.len() == 0 || (p == seq!['.'] && pieces.len() > 1) {
            prev
        } else {
            prev.push(p)
        }
    }
}

/// The two paths are equal as `Path`s.
pub open spec fn same_path(a: Seq<char>, b: Seq<char>) -> bool {
    components(a) == components(b)
}

/// `dir` is the parent of `file` as `Path::parent` gives it: `file` ends in a
/// component other than the root, and what precedes it equals `dir`.
pub open spec fn parent_is(dir: Seq<char>, file: Seq<char>) -> bool {
    let c = components(file);
    c.1.len() > 0 && components(dir) == (c.0, c.1.drop_last())
}

/// Splitting text that ends with a separator and a piece without separators:
/// the pieces of the text before, then that piece.
proof fn lemma_split_append(s: Seq<char>, sep: char, t: Seq<char>)
    requires
        !t.contains(sep),
    ensures
        split_spec(s + seq![sep] + t, sep) == split_spec(s, sep).push(t),
    decreases t.len(),
{
    let w = s + seq![sep] + t;
    if t.len() == 0 {
        assert(w.drop_last() =~= s);
        assert(w.last() == sep);
        assert(split_spec(w, sep) == split_spec(w.drop_last(), sep).push(Seq::empty()));
        assert(t =~= Seq::<char>::empty());
    } else {
        let u = t.drop_last();
        assert(!u.contains(sep)) by {
            if u.contains(sep) {
                let k = choose|k: int| 0 <= k < u.len() && u[k] == sep;
                assert(t[k] == sep);
            }
        }
        lemma_split_append(s, sep, u);
        assert(w.drop_last() =~= s + seq![sep] + u);
        let prev = split_spec(w.drop_last(), sep);
        assert(prev == split_spec(s, sep).push(u));
        assert(w.last() == t.last());
        assert(t.last() != sep) by {
            assert(t[t.len() - 1] == t.last());
        }
        assert(split_spec(w, sep) == prev.update(prev.len() - 1, prev.last().push(w.last())));
        assert(u.push(t.last()) =~= t);
        assert(prev.update(prev.len() - 1, u.push(t.last())) =~= split_spec(s, sep).push(t));
    }
}

/// A file named `name` joined onto a directory lies directly in it: where
/// `dir` is not empty and does not end in `/`, and `name` is a plain file
/// name (not empty, not `.`, without `/`), the parent of `dir/name` is `dir`.
/// This is what lets the trace mark the directory where a match was found.
pub proof fn lemma_joined_file_in_dir(dir: Seq<char>, name: Seq<char>)
    requires
        dir.len() > 0,
        dir.last() != '/',
        name.len() > 0,
        name != seq!['.'],
        !name.contains('/'),
    ensures
        parent_is(dir, dir + seq!['/'] + name),
{
    let file = dir + seq!['/'] + name;
    lemma_split_append(dir, '/', name);
    lemma_split_nonempty(dir, '/');
    let pieces = split_spec(file, '/');
    assert(pieces.drop_last() =~= split_spec(dir, '/'));
    assert(pieces.last() == name);
    assert(pieces.len() > 1);
    assert(kept_parts(pieces) == kept_parts(pieces.drop_last()).push(pieces.last()));
    assert(file[0] == dir[0]);
    assert(components(file).1.drop_last() =~= kept_parts(split_spec(dir, '/')));
}

/// A path is absolute when it starts at the root.
pub open spec fn absolute(s: Seq<char>) -> bool {
    s.len() > 0 && s[0] == '/'
}

/// The components of a path.
pub fn path_components(s: &str) -> (r: (bool, Vec<Vec<char>>))
    ensures
        (r.0, r.1.deep_view()) == components(s@),
{
    let v = chars_of(s);
    let pieces = split_chars(&v, '/');
    let ghost pv = pieces.deep_view();
    let mut kept: Vec<Vec<char>> = Vec::new();
    for i in 0..pieces.len()
        invariant
            pv == pieces.deep_view(),
            kept.deep_view() == kept_parts(pv.take(i as int)),
    {
        proof {
            lemma_chars_deep_view(pieces@[i as int]);
        }
        assert(pv.take(i + 1).drop_last() == pv.take(i as int));
        assert(pv.take(i + 1).last() == pieces@[i as int]@);
        let p = &pieces[i];
        let dot = p.len() == 1 && p[0] == '.';
        assert(dot == (p@ == seq!['.'])) by {
            if p@.len() == 1 {
                assert(p@ == seq![p@[0]]);
            }
        }
        if !(p.len() == 0 || (dot && i > 0)) {
            let ghost before = kept.deep_view();
            kept.push(p.clone());
            proof {
                lemma_chars_deep_view(kept@[kept.len() - 1]);
            }
            assert(kept.deep_view() =~= before.push(p@));
        }
    }
    assert(pv.take(pieces.len() as int) == pv);
    let abs = v.len() > 0 && v[0] == '/';
    (abs, kept)
}

/// Whether two lists of components are equal.
fn parts_eq(a: &Vec<Vec<char>>, b: &Vec<Vec<char>>, len: usize) -> (r: bool)
    requires
        len <= a.len(),
        len <= b.len(),
    ensures
        r == (a.deep_view().take(len as int) == b.deep_view().take(len as int)),
{
    for i in 0..len
        invariant
            len <= a.len(),
            len <= b.len(),
            forall|k: int| 0 <= k < i ==> a.deep_view()[k] == b.deep_view()[k],
    {
        proof {
            lemma_chars_deep_view(a@[i as int]);
            lemma_chars_deep_view(b@[i as int]);
        }
        if !chars_eq(&a[i], &b[i]) {
            assert(a.deep_view().take(len as int)[i as int] != b.deep_view().take(
                len as int,
            )[i as int]);
            return false;
        }
    }
    assert(a.deep_view().take(len as int) =~= b.deep_view().take(len as int));
    true
}

/// Whether the two paths are equal as `Path`s.
pub fn paths_equal(a: &str, b: &str) -> (r: bool)
    ensures
        r == same_path(a@, b@),
{
    let ca = path_components(a);
    let cb = path_components(b);
    assert(components(a@).1.len() == ca.1.len());
    assert(components(b@).1.len() == cb.1.len());
    if ca.0 != cb.0 || ca.1.len() != cb.1.len() {
        return false;
    }
    let r = parts_eq(&ca.1, &cb.1, ca.1.len());
    assert(ca.1.deep_view().take(ca.1.len() as int) == ca.1.deep_view());
    assert(cb.1.deep_view().take(cb.1.len() as int) == cb.1.deep_view());
    r
}

/// Whether `dir` is the parent of `file`, as `file.parent() == Some(dir)` decides it.
pub fn is_parent(dir: &str, file: &str) -> (r: bool)
    ensures
        r == parent_is(dir@, file@),
{
    let cd = path_components(dir);
    let cf = path_components(file);
    assert(components(dir@).1.len() == cd.1.len());
    assert(components(file@).1.len() == cf.1.len());
    if cf.1.len() == 0 || cd.0 != cf.0 || cd.1.len() != cf.1.len() - 1 {
        return false;
    }
    let r = parts_eq(&cd.1, &cf.1, cd.1.len());
    assert(cd.1.deep_view().take(cd.1.len() as int) == cd.1.deep_view());
    assert(cf.1.deep_view().take(cd.1.len() as int) == cf.1.deep_view().drop_last());
    r
}

/// The directories of a search-path string, as `std::env::split_paths` gives
/// them on Unix: the pieces between colons, empty pieces included.
pub fn split_search_path(path_var: &str) -> (r: Vec<String>)
    ensures
        r.deep_view() == split_spec(path_var@, ':'),
{
    let v = chars_of(path_var);
    let parts = split_chars(&v, ':');
    strings_of(&parts)
}

/// Some file of `files` lies directly in `dir`.
pub open spec fn holds_any(dir: Seq<char>, files: Seq<Seq<char>>) -> bool {
    exists|j: int| 0 <= j < files.len() && parent_is(dir, #[trigger] files[j])
}

/// For each directory, whether one of `files` lies directly in it.
pub fn directory_hits(dirs: &Vec<String>, files: &Vec<String>) -> (r: Vec<bool>)
    ensures
        r.len() == dirs.len(),
        forall|i: int|
            0 <= i < dirs.len() ==> #[trigger] r@[i] == holds_any(dirs@[i]@, files.deep_view()),
{
    let mut r: Vec<bool> = Vec::new();
    for i in 0..dirs.len()
        invariant
            r.len() == i,
            forall|k: int|
                0 <= k < i ==> #[trigger] r@[k] == holds_any(dirs@[k]@, files.deep_view()),
    {
        let mut hit = false;
        for j in 0..files.len()
            invariant
                i < dirs.len(),
                !hit ==> forall|m: int|
                    0 <= m < j ==> !parent_is(dirs@[i as int]@, #[trigger] files.deep_view()[m]),
                hit ==> holds_any(dirs@[i as int]@, files.deep_view()),
        {
            assert(files.deep_view()[j as int] == files@[j as int]@);
            if !hit && is_parent(dirs[i].as_str(), files[j].as_str()) {
                hit = true;
            }
        }
        r.push(hit);
    }
    r
}

/// One directory of the search path as a trace shows it.
pub struct TraceEntry {
    /// Its position in the search path, counted from one.
    pub index: usize,
    /// The directory as written in the search path.
    pub directory: String,
    /// One of the files lies directly in it.
    pub matched: bool,
}

/// The trace of a search path: each directory with its position, and whether
/// one of `files` lies directly in it.
pub fn trace_entries(dirs: &Vec<String>, files: &Vec<String>) -> (r: Vec<TraceEntry>)
    requires
        dirs.len() < usize::MAX,
    ensures
        r.len() == dirs.len(),
        forall|i: int|
            0 <= i < dirs.len() ==> (#[trigger] r@[i]).index == i + 1 && r@[i].directory@
                == dirs@[i]@ && r@[i].matched == holds_any(dirs@[i]@, files.deep_view()),
{
    let hits = directory_hits(dirs, files);
    let mut r: Vec<TraceEntry> = Vec::new();
    for i in 0..dirs.len()
        invariant
            hits.len() == dirs.len(),
            dirs.len() < usize::MAX,
            forall|k: int|
                0 <= k < dirs.len() ==> #[trigger] hits@[k] == holds_any(
                    dirs@[k]@,
                    files.deep_view(),
                ),
            r.len() == i,
            forall|k: int|
                0 <= k < i ==> (#[trigger] r@[k]).index == k + 1 && r@[k].directory@ == dirs@[k]@
                    && r@[k].matched == holds_any(dirs@[k]@, files.deep_view()),
    {
        r.push(TraceEntry { index: i + 1, directory: dirs[i].clone(), matched: hits[i] });
    }
    r
}

/// What `--doctor` learned about one directory of the search path.
pub struct DirProbe {
    /// The directory as written in the search path.
    pub dir: String,
    /// It exists.
    pub exists: bool,
    /// Its canonical path (the directory itself where that could not be resolved).
    pub canonical: String,
    /// Its entries could be listed.
    pub readable: bool,
}

/// A problem `--doctor` reports about a directory.
#[derive(PartialEq, Eq, Structural)]
pub enum Issue {
    /// Not an absolute path: resolved against the current directory.
    Relative,
    /// Does not exist.
    Missing,
    /// The same directory as an earlier entry.
    Duplicate,
    /// Cannot be listed.
    Unreadable,
}

/// The mathematical content of a probe.
pub ghost struct ProbeView {
    pub dir: Seq<char>,
    pub exists: bool,
    pub canonical: Seq<char>,
    pub readable: bool,
}

impl View for DirProbe {
    type V = ProbeView;

    open spec fn view(&self) -> ProbeView {
        ProbeView {
            dir: self.dir@,
            exists: self.exists,
            canonical: self.canonical@,
            readable: self.readable,
        }
    }
}

/// The views of a list of probes.
pub open spec fn probes_view(v: Seq<DirProbe>) -> Seq<ProbeView> {
    Seq::new(v.len(), |i: int| v[i]@)
}

/// An existing absolute directory earlier in the list has the same canonical path.
pub open spec fn seen_before(probes: Seq<ProbeView>, i: int) -> bool {
    exists|j: int|
        0 <= j < i && absolute(probes[j].dir) && probes[j].exists && same_path(
            #[trigger] probes[j].canonical,
            probes[i].canonical,
        )
}

/// The issues of the `i`-th directory: a relative path, else a missing
/// directory, else possibly a duplicate and an unreadable one.
pub open spec fn issues_of(probes: Seq<ProbeView>, i: int) -> Seq<Issue> {
    let p = probes[i];
    if !absolute(p.dir) {
        seq![Issue::Relative]
    } else if !p.exists {
        seq![Issue::Missing]
    } else {
        (if seen_before(probes, i) {
            seq![Issue::Duplicate]
        } else {
            Seq::empty()
        }) + (if !p.readable {
            seq![Issue::Unreadable]
        } else {
            Seq::empty()
        })
    }
}

/// What `--doctor` reports about the search path.
pub struct DoctorReport {
    /// The issues of each directory, in search-path order.
    pub issues: Vec<Vec<Issue>>,
    /// How many directories are relative.
    pub relatives: usize,
    /// How many directories are missing.
    pub missing: usize,
    /// How many directories cannot be listed.
    pub unreadable: usize,
    /// The exit status: 1 where some directory is relative, missing or
    /// unreadable, 0 otherwise (duplicates alone do not fail).
    pub exit_code: i32,
}

/// The number of the first `n` directories that have `issue`.
pub open spec fn issue_count(probes: Seq<ProbeView>, n: int, issue: Issue) -> nat
    decreases n,
{
    if n <= 0 {
        0
    } else {
        issue_count(probes, n - 1, issue) + if issues_of(probes, n - 1).contains(issue) {
            1nat
        } else {
            0nat
        }
    }
}

/// A directory listed again is caught: where an existing absolute directory
/// reaches the same canonical path as an earlier existing absolute one, the
/// later listing, where it can be read, is reported as a duplicate and as
/// nothing else.
pub proof fn lemma_repeated_directory_flagged(probes: Seq<ProbeView>, i: int, j: int)
    requires
        0 <= i < j < probes.len(),
        absolute(probes[i].dir) && probes[i].exists,
        absolute(probes[j].dir) && probes[j].exists && probes[j].readable,
        same_path(probes[i].canonical, probes[j].canonical),
    ensures
        issues_of(probes, j) == seq![Issue::Duplicate],
{
    assert(seen_before(probes, j));
    assert(issues_of(probes, j) =~= seq![Issue::Duplicate]);
}

/// Whether an existing absolute directory before position `i` has the same
/// canonical path as the `i`-th.
fn was_seen(probes: &Vec<DirProbe>, i: usize) -> (r: bool)
    requires
        i < probes.len(),
    ensures
        r == seen_before(probes_view(probes@), i as int),
{
    let ghost pv = probes_view(probes@);
    for j in 0..i
        invariant
            i < probes.len(),
            pv == probes_view(probes@),
            forall|k: int|
                0 <= k < j ==> !(absolute(pv[k].dir) && pv[k].exists && same_path(
                    #[trigger] pv[k].canonical,
                    pv[i as int].canonical,
                )),
    {
        let abs = first_is_slash(&probes[j].dir);
        if abs && probes[j].exists && paths_equal(
            probes[j].canonical.as_str(),
            probes[i].canonical.as_str(),
        ) {
            assert(pv[j as int].canonical == probes@[j as int].canonical@);
            return true;
        }
    }
    false
}

/// Whether a non-empty string starts with `/`.
fn first_is_slash(s: &String) -> (r: bool)
    ensures
        r == absolute(s@),
{
    let v = chars_of(s.as_str());
    v.len() > 0 && v[0] == '/'
}

/// The `--doctor` report on the search-path directories, in order.
pub fn diagnose(probes: &Vec<DirProbe>) -> (r: DoctorReport)
    ensures
        r.issues.len() == probes.len(),
        forall|i: int|
            0 <= i < probes.len() ==> (#[trigger] r.issues@[i])@ == issues_of(
                probes_view(probes@),
                i,
            ),
        r.relatives == issue_count(probes_view(probes@), probes.len() as int, Issue::Relative),
        r.missing == issue_count(probes_view(probes@), probes.len() as int, Issue::Missing),
        r.unreadable == issue_count(probes_view(probes@), probes.len() as int, Issue::Unreadable),
        r.exit_code == (if r.relatives > 0 || r.missing > 0 || r.unreadable > 0 {
            1i32
        } else {
            0i32
        }),
{
    let ghost pv = probes_view(probes@);
    let mut issues: Vec<Vec<Issue>> = Vec::new();
    let mut relatives: usize = 0;
    let mut missing: usize = 0;
    let mut unreadable: usize = 0;
    for i in 0..probes.len()
        invariant
            pv == probes_view(probes@),
            issues.len() == i,
            forall|k: int| 0 <= k < i ==> (#[trigger] issues@[k])@ == issues_of(pv, k),
            relatives == issue_count(pv, i as int, Issue::Relative),
            missing == issue_count(pv, i as int, Issue::Missing),
            unreadable == issue_count(pv, i as int, Issue::Unreadable),
            relatives <= i,
            missing <= i,
            unreadable <= i,
    {
        let p = &probes[i];
        let ghost expect = issues_of(pv, i as int);
        let mut found: Vec<Issue> = Vec::new();
        if !first_is_slash(&p.dir) {
            found.push(Issue::Relative);
            relatives = relatives + 1;
        } else if !p.exists {
            found.push(Issue::Missing);
            missing = missing + 1;
        } else {
            if was_seen(probes, i) {
                found.push(Issue::Duplicate);
            }
            if !p.readable {
                found.push(Issue::Unreadable);
                unreadable = unreadable + 1;
            }
        }
        assert(found@ =~= expect);
        proof {
            assert(expect.contains(Issue::Relative) == (!absolute(pv[i as int].dir))) by {
                if expect.contains(Issue::Relative) {
                    let k = choose|k: int| 0 <= k < expect.len() && expect[k] == Issue::Relative;
                }
            }
            assert(expect.contains(Issue::Missing) == (absolute(pv[i as int].dir)
                && !pv[i as int].exists)) by {
                if expect.contains(Issue::Missing) {
                    let k = choose|k: int| 0 <= k < expect.len() && expect[k] == Issue::Missing;
                }
            }
            assert(expect.contains(Issue::Unreadable) == (absolute(pv[i as int].dir)
                && pv[i as int].exists && !pv[i as int].readable)) by {
                if expect.contains(Issue::Unreadable) {
                    let k = choose|k: int| 0 <= k < expect.len() && expect[k] == Issue::Unreadable;
                }
                if absolute(pv[i as int].dir) && pv[i as int].exists && !pv[i as int].readable {
                    assert(expect[expect.len() - 1] == Issue::Unreadable);
                }
            }
        }
        issues.push(found);
    }
    let exit_code = if relatives > 0 || missing > 0 || unreadable > 0 {
        1
    } else {
        0
    };
    DoctorReport { issues, relatives, missing, unreadable, exit_code }
}

/// A file found while listing the search-path directories.
pub struct ListedFile {
    /// Its file name.
    pub name: String,
    /// Its path.
    pub path: String,
}

/// The index of the first of the first `n` files named `name`.
pub open spec fn first_named(files: Seq<(Seq<char>, Seq<char>)>, name: Seq<char>, n: int) -> Option<int>
    decreases n,
{
    if n <= 0 {
        None
    } else {
        match first_named(files, name, n - 1) {
            Some(j) => Some(j),
            None => if files[n - 1].0 == name {
                Some(n - 1)
            } else {
                None
            },
        }
    }
}

/// The `k`-th file is shadowed: an earlier file has its name, and the first
/// such file is a different path.
pub open spec fn shadowed(files: Seq<(Seq<char>, Seq<char>)>, k: int) -> bool {
    match first_named(files, files[k].0, k) {
        Some(j) => !same_path(files[j].1, files[k].1),
        None => false,
    }
}

/// The number of shadowed files among the first `n`.
pub open spec fn shadowed_count(files: Seq<(Seq<char>, Seq<char>)>, n: int) -> nat
    decreases n,
{
    if n <= 0 {
        0
    } else {
        shadowed_count(files, n - 1) + if shadowed(files, n - 1) {
            1nat
        } else {
            0nat
        }
    }
}

/// The names and paths of a list of files.
pub open spec fn listed_view(v: Seq<ListedFile>) -> Seq<(Seq<char>, Seq<char>)> {
    Seq::new(v.len(), |i: int| (v[i].name@, v[i].path@))
}

/// `first_named` finds the first file with the name.
proof fn lemma_first_named(files: Seq<(Seq<char>, Seq<char>)>, name: Seq<char>, n: int)
    requires
        0 <= n <= files.len(),
    ensures
        first_named(files, name, n) matches Some(j) ==> 0 <= j < n && files[j].0 == name && forall|
            m: int,
        | 0 <= m < j ==> #[trigger] files[m].0 != name,
        first_named(files, name, n) is None ==> forall|m: int|
            0 <= m < n ==> #[trigger] files[m].0 != name,
    decreases n,
{
    if n > 0 {
        lemma_first_named(files, name, n - 1);
    }
}

/// The number of files listed in the search-path directories whose name an
/// earlier file (the first of that name) already provides under a different path.
pub fn count_shadowed(files: &Vec<ListedFile>) -> (r: usize)
    ensures
        r == shadowed_count(listed_view(files@), files.len() as int),
{
    let ghost fv = listed_view(files@);
    let mut count: usize = 0;
    for k in 0..files.len()
        invariant
            fv == listed_view(files@),
            count == shadowed_count(fv, k as int),
            count <= k,
    {
        proof {
            lemma_first_named(fv, fv[k as int].0, k as int);
        }
        let mut first: Option<usize> = None;
        for j in 0..k
            invariant
                k < files.len(),
                fv == listed_view(files@),
                first is None ==> forall|m: int| 0 <= m < j ==> #[trigger] fv[m].0 != fv[k as int].0,
                first matches Some(f) ==> f < k && fv[f as int].0 == fv[k as int].0 && forall|
                    m: int,
                | 0 <= m < f ==> #[trigger] fv[m].0 != fv[k as int].0,
        {
            if first.is_none() && str_eq(files[j].name.as_str(), files[k].name.as_str()) {
                first = Some(j);
            }
        }
        match first {
            Some(f) => {
                assert(first_named(fv, fv[k as int].0, k as int) == Some(f as int));
                if !paths_equal(files[f].path.as_str(), files[k].path.as_str()) {
                    count = count + 1;
                }
            },
            None => {},
        }
    }
    count
}

/// Whether two strings are equal.
fn str_eq(a: &str, b: &str) -> (r: bool)
    ensures
        r == (a@ == b@),
{
    chars_eq(&chars_of(a), &chars_of(b))
}

} // verus!
