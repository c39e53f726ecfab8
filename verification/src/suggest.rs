//! Finding which packages provide a missing command: the queries put to the
//! package managers, and what their answers name.
use vstd::prelude::*;
use crate::order::{sort_unique, sorted_unique};
use crate::process::{ProcessOutput, decode_lossy, utf8_lossy};
use crate::text::{
    chars_eq, chars_of, concat, contains, contains_seq, join_from, join_spec,
    lemma_chars_deep_view, lemma_split_nonempty, lines_of, lines_spec, owned, split_chars,
    split_spec, starts_with, string_of, strings_of, trim, trim_chars, words_of, words_spec,
};

verus! {

/// A package manager asked about a missing command.
#[derive(Clone, Copy, PartialEq, Eq, Structural)]
pub enum PackageSource {
    /// `pacman -Fq` (Arch Linux).
    Pacman,
    /// `apt-file search` (Debian, Ubuntu).
    Apt,
    /// `dnf provides` (Fedora, RHEL).
    Dnf,
    /// `brew which-formula` (macOS).
    Brew,
    /// `cargo search` (crates.io).
    Cargo,
    /// `npm view` (the npm registry).
    Npm,
}

/// A program to run and its arguments.
pub struct Query {
    pub program: String,
    pub args: Vec<String>,
}

/// The answers of the package managers, each `None` where the program could not be started.
pub struct PackageReplies {
    pub pacman: Option<ProcessOutput>,
    pub apt: Option<ProcessOutput>,
    pub dnf: Option<ProcessOutput>,
    pub brew: Option<ProcessOutput>,
    pub cargo: Option<ProcessOutput>,
    pub npm: Option<ProcessOutput>,
}

/// The packages that one package manager names.
pub struct Suggestion {
    pub source: PackageSource,
    pub packages: Vec<String>,
}

/// The program and arguments that ask `source` about `cmd`.
pub open spec fn query_spec(source: PackageSource, cmd: Seq<char>) -> (Seq<char>, Seq<Seq<char>>) {
    match source {
        PackageSource::Pacman => ("pacman"@, seq!["-Fq"@, cmd]),
        PackageSource::Apt => ("apt-file"@, seq!["search"@, "-x"@, "^/bin/"@ + cmd + "$"@]),
        PackageSource::Dnf => ("dnf"@, seq!["provides"@, "*/bin/"@ + cmd]),
        PackageSource::Brew => ("brew"@, seq!["which-formula"@, cmd]),
        PackageSource::Cargo => ("cargo"@, seq!["search"@, "--limit"@, "1"@, cmd]),
        PackageSource::Npm => ("npm"@, seq!["view"@, cmd, "name"@]),
    }
}

/// The text a successful answer wrote, or `None` where the program failed or
/// could not be started.
pub open spec fn answer(reply: Option<ProcessOutput>) -> Option<Seq<char>> {
    match reply {
        Some(out) => if out.success {
            Some(utf8_lossy(out.stdout@))
        } else {
            None
        },
        None => None,
    }
}

/// `pacman -Fq` lists `repo/package` per line: the package is what follows the last `/`.
pub open spec fn pacman_names(text: Seq<char>) -> Seq<Seq<char>> {
    lines_spec(text).map_values(|l: Seq<char>| split_spec(l, '/').last())
}

/// `apt-file` lists `package: path` per line: the package is what precedes the first `:`.
pub open spec fn apt_names(text: Seq<char>) -> Seq<Seq<char>> {
    lines_spec(text).map_values(|l: Seq<char>| split_spec(l, ':')[0])
}

/// The package name of a `name-version-release.arch` string: everything
/// before its last two `-`-separated pieces.
pub open spec fn nevra_name(w: Seq<char>) -> Seq<char> {
    let pieces = split_spec(w, '-');
    join_spec(pieces.take(pieces.len() - 2), "-"@)
}

/// The line that opens a block of `dnf provides` output and names the
/// package: `name-version-release.arch : summary`. Its first word has at
/// least three `-`-separated pieces and its second word is a lone `:`; the
/// `Repo`, `Matched from` and `Filename` lines of the block are not such lines.
pub open spec fn dnf_package_line(l: Seq<char>) -> bool {
    let w = words_spec(l);
    w.len() >= 2 && w[1] == ":"@ && split_spec(w[0], '-').len() >= 3
}

/// The package names in `dnf provides` output: the name of the package on
/// each block's package line.
pub open spec fn dnf_names(lines: Seq<Seq<char>>) -> Seq<Seq<char>>
    decreases lines.len(),
{
    if lines.len() == 0 {
        Seq::empty()
    } else {
        let prev = dnf_names(lines.drop_last());
        if dnf_package_line(lines.last()) {
            prev.push(nevra_name(words_spec(lines.last())[0]))
        } else {
            prev
        }
    }
}

/// The packages that the answer `text` of `source` names for `cmd`.
pub open spec fn packages_named(source: PackageSource, cmd: Seq<char>, text: Seq<char>) -> Seq<Seq<char>> {
    match source {
        PackageSource::Pacman => sorted_unique(pacman_names(text)),
        PackageSource::Apt => sorted_unique(apt_names(text)),
        PackageSource::Dnf => sorted_unique(dnf_names(lines_spec(text))),
        PackageSource::Brew => if trim(text).len() > 0 && !contains_seq(trim(text), "Error"@) {
            seq![trim(text)]
        } else {
            Seq::empty()
        },
        PackageSource::Cargo => if lines_spec(text).len() > 0 && (cmd + " ="@).is_prefix_of(
            lines_spec(text)[0],
        ) {
            seq![cmd]
        } else {
            Seq::empty()
        },
        PackageSource::Npm => if trim(text).len() > 0 && trim(text) == cmd {
            seq![trim(text)]
        } else {
            Seq::empty()
        },
    }
}

/// The suggestion of `source`, if its answer names any package.
pub open spec fn suggestion_of(source: PackageSource, cmd: Seq<char>, reply: Option<ProcessOutput>) -> Seq<(PackageSource, Seq<Seq<char>>)> {
    match answer(reply) {
        Some(text) => if packages_named(source, cmd, text).len() > 0 {
            seq![(source, packages_named(source, cmd, text))]
        } else {
            Seq::empty()
        },
        None => Seq::empty(),
    }
}

/// The suggestions for `cmd`: those of pacman, apt, dnf, brew, cargo and npm,
/// in that order, each where its answer names a package.
pub open spec fn suggestions_spec(cmd: Seq<char>, replies: PackageReplies) -> Seq<(PackageSource, Seq<Seq<char>>)> {
    suggestion_of(PackageSource::Pacman, cmd, replies.pacman) + suggestion_of(
        PackageSource::Apt,
        cmd,
        replies.apt,
    ) + suggestion_of(PackageSource::Dnf, cmd, replies.dnf) + suggestion_of(
        PackageSource::Brew,
        cmd,
        replies.brew,
    ) + suggestion_of(PackageSource::Cargo, cmd, replies.cargo) + suggestion_of(
        PackageSource::Npm,
        cmd,
        replies.npm,
    )
}

/// A string made of the characters of `a` followed by those of `b` and `c`.
fn joined3(a: &str, b: &str, c: &str) -> (s: String)
    ensures
        s@ == a@ + b@ + c@,
{
    let mut s = owned(a);
    s.append(b);
    s.append(c);
    s
}

/// The program and arguments that ask `source` which package provides `cmd`.
pub fn package_query(source: PackageSource, cmd: &str) -> (q: Query)
    ensures
        (q.program@, q.args.deep_view()) == query_spec(source, cmd@),
{
    let mut args: Vec<String> = Vec::new();
    let program = match source {
        PackageSource::Pacman => {
            args.push(owned("-Fq"));
            args.push(owned(cmd));
            owned("pacman")
        },
        PackageSource::Apt => {
            args.push(owned("search"));
            args.push(owned("-x"));
            args.push(joined3("^/bin/", cmd, "$"));
            owned("apt-file")
        },
        PackageSource::Dnf => {
            args.push(owned("provides"));
            args.push(joined3("*/bin/", cmd, ""));
            proof {
                reveal_strlit("");
            }
            owned("dnf")
        },
        PackageSource::Brew => {
            args.push(owned("which-formula"));
            args.push(owned(cmd));
            owned("brew")
        },
        PackageSource::Cargo => {
            args.push(owned("search"));
            args.push(owned("--limit"));
            args.push(owned("1"));
            args.push(owned(cmd));
            owned("cargo")
        },
        PackageSource::Npm => {
            args.push(owned("view"));
            args.push(owned(cmd));
            args.push(owned("name"));
            owned("npm")
        },
    };
    assert(args.deep_view() =~= query_spec(source, cmd@).1);
    Query { program, args }
}

/// The package managers, in the order they are asked.
pub open spec fn managers() -> Seq<PackageSource> {
    seq![
        PackageSource::Pacman,
        PackageSource::Apt,
        PackageSource::Dnf,
        PackageSource::Brew,
        PackageSource::Cargo,
        PackageSource::Npm,
    ]
}

/// The queries for `cmd`, one per package manager, in the order they are run:
/// pacman, apt-file, dnf, brew, cargo, npm.
pub fn package_queries(cmd: &str) -> (r: Vec<Query>)
    ensures
        r.len() == managers().len(),
        forall|i: int|
            0 <= i < r.len() ==> ((#[trigger] r@[i]).program@, r@[i].args.deep_view()) == query_spec(
                managers()[i],
                cmd@,
            ),
{
    let mut r: Vec<Query> = Vec::new();
    r.push(package_query(PackageSource::Pacman, cmd));
    r.push(package_query(PackageSource::Apt, cmd));
    r.push(package_query(PackageSource::Dnf, cmd));
    r.push(package_query(PackageSource::Brew, cmd));
    r.push(package_query(PackageSource::Cargo, cmd));
    r.push(package_query(PackageSource::Npm, cmd));
    r
}

/// The lines of a successful answer, decoded.
fn answer_text(reply: &Option<ProcessOutput>) -> (r: Option<Vec<char>>)
    ensures
        r matches Some(t) ==> answer(*reply) == Some(t@),
        r is None ==> answer(*reply) is None,
{
    match reply {
        Some(out) => {
            if out.success {
                let s = decode_lossy(out.stdout.as_slice());
                Some(chars_of(s.as_str()))
            } else {
                None
            }
        },
        None => None,
    }
}

/// The package names in pacman's answer.
fn pacman_list(text: &Vec<char>) -> (r: Vec<Vec<char>>)
    ensures
        r.deep_view() == pacman_names(text@),
{
    let lines = lines_of(text);
    let mut r: Vec<Vec<char>> = Vec::new();
    for i in 0..lines.len()
        invariant
            lines.deep_view() == lines_spec(text@),
            r.len() == i,
            forall|k: int|
                0 <= k < i ==> #[trigger] r@[k]@ == split_spec(lines.deep_view()[k], '/').last(),
    {
        proof {
            lemma_chars_deep_view(lines@[i as int]);
            lemma_split_nonempty(lines@[i as int]@, '/');
        }
        let pieces = split_chars(&lines[i], '/');
        proof {
            lemma_chars_deep_view(pieces@[pieces.len() - 1]);
        }
        r.push(pieces[pieces.len() - 1].clone());
    }
    assert forall|k: int| 0 <= k < r.len() implies #[trigger] r.deep_view()[k] == pacman_names(
        text@,
    )[k] by {
        lemma_chars_deep_view(r@[k]);
    }
    assert(r.deep_view() =~= pacman_names(text@));
    r
}

/// The package names in apt-file's answer.
fn apt_list(text: &Vec<char>) -> (r: Vec<Vec<char>>)
    ensures
        r.deep_view() == apt_names(text@),
{
    let lines = lines_of(text);
    let mut r: Vec<Vec<char>> = Vec::new();
    for i in 0..lines.len()
        invariant
            lines.deep_view() == lines_spec(text@),
            r.len() == i,
            forall|k: int|
                0 <= k < i ==> #[trigger] r@[k]@ == split_spec(lines.deep_view()[k], ':')[0],
    {
        proof {
            lemma_chars_deep_view(lines@[i as int]);
            lemma_split_nonempty(lines@[i as int]@, ':');
        }
        let pieces = split_chars(&lines[i], ':');
        proof {
            lemma_chars_deep_view(pieces@[0]);
        }
        r.push(pieces[0].clone());
    }
    assert forall|k: int| 0 <= k < r.len() implies #[trigger] r.deep_view()[k] == apt_names(
        text@,
    )[k] by {
        lemma_chars_deep_view(r@[k]);
    }
    assert(r.deep_view() =~= apt_names(text@));
    r
}

/// The name of the package in a `name-version-release.arch` word that has at
/// least three `-`-separated pieces.
fn nevra_name_exec(w: &Vec<char>) -> (r: Vec<char>)
    requires
        split_spec(w@, '-').len() >= 3,
    ensures
        r@ == nevra_name(w@),
{
    let pieces = split_chars(w, '-');
    let n = pieces.len() - 2;
    let ghost pv = pieces.deep_view();
    let mut head: Vec<Vec<char>> = Vec::new();
    for k in 0..n
        invariant
            n <= pieces.len(),
            pv == pieces.deep_view(),
            head.deep_view() == pv.take(k as int),
    {
        let ghost before = head.deep_view();
        head.push(pieces[k].clone());
        proof {
            lemma_chars_deep_view(head@[k as int]);
            lemma_chars_deep_view(pieces@[k as int]);
        }
        assert(head.deep_view() =~= before.push(pv[k as int]));
        assert(pv.take(k + 1) =~= pv.take(k as int).push(pv[k as int]));
    }
    let dash = chars_of("-");
    let r = join_from(&head, 0, &dash);
    assert(head.deep_view().skip(0) =~= head.deep_view());
    r
}

/// The package names in dnf's answer.
fn dnf_list(text: &Vec<char>) -> (r: Vec<Vec<char>>)
    ensures
        r.deep_view() == dnf_names(lines_spec(text@)),
{
    let lines = lines_of(text);
    let ghost lv = lines.deep_view();
    let colon = chars_of(":");
    let mut r: Vec<Vec<char>> = Vec::new();
    for i in 0..lines.len()
        invariant
            lv == lines.deep_view(),
            lv == lines_spec(text@),
            colon@ == ":"@,
            r.deep_view() == dnf_names(lv.take(i as int)),
    {
        proof {
            lemma_chars_deep_view(lines@[i as int]);
        }
        assert(lv.take(i + 1).drop_last() == lv.take(i as int));
        assert(lv.take(i + 1).last() == lines@[i as int]@);
        let words = words_of(&lines[i]);
        let mut keep = false;
        if words.len() >= 2 {
            proof {
                lemma_chars_deep_view(words@[0]);
                lemma_chars_deep_view(words@[1]);
            }
            if chars_eq(&words[1], &colon) {
                let pieces = split_chars(&words[0], '-');
                if pieces.len() >= 3 {
                    let name = nevra_name_exec(&words[0]);
                    let ghost before = r.deep_view();
                    r.push(name);
                    proof {
                        lemma_chars_deep_view(r@[r.len() - 1]);
                    }
                    assert(r.deep_view() =~= before.push(nevra_name(words.deep_view()[0])));
                    keep = true;
                }
            }
        }
        assert(keep == dnf_package_line(lines@[i as int]@));
    }
    assert(lv.take(lines.len() as int) == lv);
    r
}

/// The packages that the answer `text` of `source` names for `cmd`.
fn packages_in(source: PackageSource, cmd: &Vec<char>, text: &Vec<char>) -> (r: Vec<Vec<char>>)
    ensures
        r.deep_view() == packages_named(source, cmd@, text@),
{
    match source {
        PackageSource::Pacman => sort_unique(&pacman_list(text)),
        PackageSource::Apt => sort_unique(&apt_list(text)),
        PackageSource::Dnf => sort_unique(&dnf_list(text)),
        PackageSource::Brew => {
            let t = trim_chars(text);
            let mut r: Vec<Vec<char>> = Vec::new();
            if t.len() > 0 && !contains(&t, &chars_of("Error")) {
                r.push(t);
                proof {
                    lemma_chars_deep_view(r@[0]);
                }
                assert(r.deep_view() =~= seq![trim(text@)]);
            } else {
                assert(r.deep_view() =~= Seq::<Seq<char>>::empty());
            }
            r
        },
        PackageSource::Cargo => {
            let lines = lines_of(text);
            let mut r: Vec<Vec<char>> = Vec::new();
            if lines.len() > 0 {
                let prefix = concat(cmd, &chars_of(" ="));
                proof {
                    lemma_chars_deep_view(lines@[0]);
                }
                if starts_with(&lines[0], &prefix) {
                    r.push(cmd.clone());
                    proof {
                        lemma_chars_deep_view(r@[0]);
                    }
                    assert(r.deep_view() =~= seq![cmd@]);
                    return r;
                }
            }
            assert(r.deep_view() =~= Seq::<Seq<char>>::empty());
            r
        },
        PackageSource::Npm => {
            let t = trim_chars(text);
            let mut r: Vec<Vec<char>> = Vec::new();
            if t.len() > 0 && chars_eq(&t, cmd) {
                r.push(t);
                proof {
                    lemma_chars_deep_view(r@[0]);
                }
                assert(r.deep_view() =~= seq![trim(text@)]);
            } else {
                assert(r.deep_view() =~= Seq::<Seq<char>>::empty());
            }
            r
        },
    }
}

/// The suggestions so far followed by that of `source`.
fn add_suggestion(
    out: &mut Vec<Suggestion>,
    source: PackageSource,
    cmd: &Vec<char>,
    reply: &Option<ProcessOutput>,
)
    ensures
        suggestions_view(final(out)@) == suggestions_view(old(out)@) + suggestion_of(
            source,
            cmd@,
            *reply,
        ),
{
    let ghost start = suggestions_view(out@);
    match answer_text(reply) {
        Some(text) => {
            let pkgs = packages_in(source, cmd, &text);
            if pkgs.len() > 0 {
                let packages = strings_of(&pkgs);
                out.push(Suggestion { source, packages });
                assert(suggestions_view(out@) =~= start + suggestion_of(source, cmd@, *reply));
            } else {
                assert(suggestions_view(out@) =~= start + suggestion_of(source, cmd@, *reply));
            }
        },
        None => {
            assert(suggestions_view(out@) =~= start + suggestion_of(source, cmd@, *reply));
        },
    }
}

/// The views of a list of suggestions.
pub open spec fn suggestions_view(v: Seq<Suggestion>) -> Seq<(PackageSource, Seq<Seq<char>>)> {
    Seq::new(v.len(), |i: int| (v[i].source, v[i].packages.deep_view()))
}

/// The packages that provide `cmd` according to each package manager's answer:
/// pacman's, apt's and dnf's package names sorted without repeats, brew's
/// formula, the crate of that name on crates.io and the npm package of that
/// name; only managers that answered successfully and named something appear.
pub fn suggest_packages(cmd: &str, replies: &PackageReplies) -> (r: Vec<Suggestion>)
    ensures
        suggestions_view(r@) == suggestions_spec(cmd@, *replies),
{
    let name = chars_of(cmd);
    let mut r: Vec<Suggestion> = Vec::new();
    add_suggestion(&mut r, PackageSource::Pacman, &name, &replies.pacman);
    add_suggestion(&mut r, PackageSource::Apt, &name, &replies.apt);
    add_suggestion(&mut r, PackageSource::Dnf, &name, &replies.dnf);
    add_suggestion(&mut r, PackageSource::Brew, &name, &replies.brew);
    add_suggestion(&mut r, PackageSource::Cargo, &name, &replies.cargo);
    add_suggestion(&mut r, PackageSource::Npm, &name, &replies.npm);
    assert(suggestions_view(r@) =~= suggestions_spec(cmd@, *replies));
    r
}

} // verus!
