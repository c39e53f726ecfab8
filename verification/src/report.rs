//! The other human-readable reports: why a command was searched where, a
//! missing command and its suggestions, the trace of the search path, the
//! trace details of a match, and the `--doctor` diagnosis.
use vstd::prelude::*;
use crate::format::{decimal, decimal_string};
use crate::options::Options;
use crate::paths::{DoctorReport, Issue, TraceEntry};
use crate::record::MatchRecord;
use crate::render::{
    Line, LineView, Span, Style, blank, blank_line, cat, labeled, labeled_line, line_view,
    lines_view, pair_line, plain, plain_line, push_line, push_lines, styled_line,
};
use crate::suggest::{PackageSource, Suggestion, suggestions_view};
use crate::text::{owned, string_of};

verus! {

/// The lines that `--why` prints before searching for `cmd`: the directories
/// of the search path.
pub open spec fn why_spec(cmd: Seq<char>, dirs: Seq<Seq<char>>) -> Seq<LineView> {
    seq![seq![(cmd, Style::Bold), (" Found because:"@, Style::Plain)], plain("PATH contains:"@)]
        + Seq::new(dirs.len(), |i: int| plain(dirs[i])) + seq![blank(), plain("Matched:"@)]
}

/// The lines that `--why` prints before searching for `cmd`.
pub fn why_lines(cmd: &str, dirs: &Vec<String>) -> (r: Vec<Line>)
    ensures
        lines_view(r@) == why_spec(cmd@, dirs.deep_view()),
{
    let mut r: Vec<Line> = Vec::new();
    push_line(&mut r, pair_line(owned(cmd), Style::Bold, owned(" Found because:"), Style::Plain));
    push_line(&mut r, plain_line(owned("PATH contains:")));
    let ghost head = lines_view(r@);
    for i in 0..dirs.len()
        invariant
            lines_view(r@) == head + Seq::new(i as nat, |k: int| plain(dirs.deep_view()[k])),
    {
        push_line(&mut r, plain_line(dirs[i].clone()));
        assert(lines_view(r@) =~= head + Seq::new(
            (i + 1) as nat,
            |k: int| plain(dirs.deep_view()[k]),
        ));
    }
    push_line(&mut r, blank_line());
    push_line(&mut r, plain_line(owned("Matched:")));
    assert(lines_view(r@) =~= why_spec(cmd@, dirs.deep_view()));
    r
}

/// A missing command is reported in the text report: not in a machine-readable,
/// plain, trace or quiet output.
pub open spec fn notice_due(opts: Options) -> bool {
    !(opts.structured() || opts.plain || opts.trace || opts.quiet)
}

/// Whether a missing command is reported, with its fuzzy and package suggestions.
pub fn missing_notice_due(opts: &Options) -> (r: bool)
    ensures
        r == notice_due(*opts),
{
    !(opts.is_structured() || opts.plain || opts.trace || opts.quiet)
}

/// The hint about the shell integration is due: the integration is not
/// active, and the user asked about resolution or typed a name that is
/// usually an alias or builtin.
pub open spec fn hint_due(opts: Options, cmd: Seq<char>, integration_active: bool) -> bool {
    !integration_active && (opts.explain || opts.resolve || cmd == "cd"@ || cmd == "ll"@)
}

/// The hint about the shell integration.
pub open spec fn hint_spec() -> Seq<LineView> {
    seq![
        blank(),
        seq![
            ("Hint"@, Style::Yellow),
            (": Shell integration is not active. `where` cannot detect aliases or builtins."@, Style::Plain),
        ],
        plain("To enable it, add the following to your shell config:"@),
        plain("  Bash/Zsh: eval \"$(where --init bash)\""@),
        plain("  Fish:     where --init fish | source"@),
    ]
}

/// The report of a missing command: that it was not found and, where due, the
/// hint about the shell integration; nothing where the notice is not due.
pub open spec fn not_found_spec(opts: Options, cmd: Seq<char>, integration_active: bool) -> Seq<LineView> {
    if notice_due(opts) {
        seq![seq![(cmd, Style::Red), (": Command not found."@, Style::Plain)]] + if hint_due(
            opts,
            cmd,
            integration_active,
        ) {
            hint_spec()
        } else {
            Seq::empty()
        }
    } else {
        Seq::empty()
    }
}

/// The report of a missing command.
pub fn not_found_lines(opts: &Options, cmd: &str, integration_active: bool) -> (r: Vec<Line>)
    ensures
        lines_view(r@) == not_found_spec(*opts, cmd@, integration_active),
{
    let mut r: Vec<Line> = Vec::new();
    if missing_notice_due(opts) {
        push_line(&mut r, pair_line(owned(cmd), Style::Red, owned(": Command not found."), Style::Plain));
        let usual = crate::options::str_is(cmd, "cd") || crate::options::str_is(cmd, "ll");
        if !integration_active && (opts.explain || opts.resolve || usual) {
            push_line(&mut r, blank_line());
            push_line(
                &mut r,
                pair_line(
                    owned("Hint"),
                    Style::Yellow,
                    owned(
                        ": Shell integration is not active. `where` cannot detect aliases or builtins.",
                    ),
                    Style::Plain,
                ),
            );
            push_line(
                &mut r,
                plain_line(owned("To enable it, add the following to your shell config:")),
            );
            push_line(&mut r, plain_line(owned("  Bash/Zsh: eval \"$(where --init bash)\"")));
            push_line(&mut r, plain_line(owned("  Fish:     where --init fish | source")));
        }
    }
    assert(lines_view(r@) =~= not_found_spec(*opts, cmd@, integration_active));
    r
}

/// Where a package manager's packages come from.
pub open spec fn source_title(s: PackageSource) -> Seq<char> {
    match s {
        PackageSource::Pacman => " Available in packages (via pacman):"@,
        PackageSource::Apt => " Available in packages (via apt):"@,
        PackageSource::Dnf => " Available in packages (via dnf):"@,
        PackageSource::Brew => " Available in packages (via brew):"@,
        PackageSource::Cargo => " Available in crates.io (via cargo):"@,
        PackageSource::Npm => " Available in npm (via Node.js):"@,
    }
}

/// The command that installs a package from a package manager.
pub open spec fn install_prefix(s: PackageSource) -> Seq<char> {
    match s {
        PackageSource::Pacman => "    sudo pacman -S "@,
        PackageSource::Apt => "    sudo apt install "@,
        PackageSource::Dnf => "    sudo dnf install "@,
        PackageSource::Brew => "    brew install "@,
        PackageSource::Cargo => "    cargo install "@,
        PackageSource::Npm => "    npm install -g "@,
    }
}

/// The lines of one package manager's suggestion: a title and an install
/// command for each package.
pub open spec fn suggestion_lines_spec(s: PackageSource, pkgs: Seq<Seq<char>>) -> Seq<LineView> {
    seq![blank(), seq![("📦"@, Style::Cyan), (source_title(s), Style::Plain)]] + Seq::new(
        pkgs.len(),
        |i: int| labeled(install_prefix(s), pkgs[i], Style::Bold),
    )
}

/// The lines of all suggestions, in order.
pub open spec fn suggestions_lines_spec(v: Seq<(PackageSource, Seq<Seq<char>>)>) -> Seq<LineView>
    decreases v.len(),
{
    if v.len() == 0 {
        Seq::empty()
    } else {
        suggestions_lines_spec(v.drop_last()) + suggestion_lines_spec(v.last().0, v.last().1)
    }
}

/// The title of a package manager's suggestion.
fn title(s: PackageSource) -> (r: String)
    ensures
        r@ == source_title(s),
{
    match s {
        PackageSource::Pacman => owned(" Available in packages (via pacman):"),
        PackageSource::Apt => owned(" Available in packages (via apt):"),
        PackageSource::Dnf => owned(" Available in packages (via dnf):"),
        PackageSource::Brew => owned(" Available in packages (via brew):"),
        PackageSource::Cargo => owned(" Available in crates.io (via cargo):"),
        PackageSource::Npm => owned(" Available in npm (via Node.js):"),
    }
}

/// The install command of a package manager.
fn prefix(s: PackageSource) -> (r: &'static str)
    ensures
        r@ == install_prefix(s),
{
    match s {
        PackageSource::Pacman => "    sudo pacman -S ",
        PackageSource::Apt => "    sudo apt install ",
        PackageSource::Dnf => "    sudo dnf install ",
        PackageSource::Brew => "    brew install ",
        PackageSource::Cargo => "    cargo install ",
        PackageSource::Npm => "    npm install -g ",
    }
}

/// The lines of the package suggestions.
pub fn suggestion_lines(v: &Vec<Suggestion>) -> (r: Vec<Line>)
    ensures
        lines_view(r@) == suggestions_lines_spec(suggestions_view(v@)),
{
    let ghost sv = suggestions_view(v@);
    let mut r: Vec<Line> = Vec::new();
    for i in 0..v.len()
        invariant
            sv == suggestions_view(v@),
            lines_view(r@) == suggestions_lines_spec(sv.take(i as int)),
    {
        assert(sv.take(i + 1).drop_last() == sv.take(i as int));
        assert(sv.take(i + 1).last() == sv[i as int]);
        let s = &v[i];
        let ghost pkgs = s.packages.deep_view();
        let mut part: Vec<Line> = Vec::new();
        push_line(&mut part, blank_line());
        push_line(&mut part, pair_line(owned("📦"), Style::Cyan, title(s.source), Style::Plain));
        let ghost head = lines_view(part@);
        for k in 0..s.packages.len()
            invariant
                pkgs == s.packages.deep_view(),
                lines_view(part@) == head + Seq::new(
                    k as nat,
                    |j: int| labeled(install_prefix(s.source), pkgs[j], Style::Bold),
                ),
        {
            push_line(&mut part, labeled_line(prefix(s.source), s.packages[k].clone(), Style::Bold));
            assert(lines_view(part@) =~= head + Seq::new(
                (k + 1) as nat,
                |j: int| labeled(install_prefix(s.source), pkgs[j], Style::Bold),
            ));
        }
        assert(lines_view(part@) =~= suggestion_lines_spec(s.source, pkgs));
        push_lines(&mut r, part);
    }
    assert(sv.take(v.len() as int) == sv);
    r
}

/// `s` padded with spaces to `width` characters, as `{:<width}` pads it.
pub open spec fn pad(s: Seq<char>, width: nat) -> Seq<char> {
    if s.len() < width {
        s + Seq::new((width - s.len()) as nat, |i: int| ' ')
    } else {
        s
    }
}

/// `s` padded with spaces to `width` characters.
fn pad_exec(s: &str, width: usize) -> (r: String)
    ensures
        r@ == pad(s@, width as nat),
{
    let mut r = owned(s);
    let n = crate::text::chars_of(s).len();
    if n < width {
        let ghost start = r@;
        let mut k: usize = n;
        while k < width
            invariant
                n <= k <= width,
                r@ == start + Seq::new((k - n) as nat, |i: int| ' '),
            decreases width - k,
        {
            r.push(' ');
            assert(r@ =~= start + Seq::new((k + 1 - n) as nat, |i: int| ' '));
            k = k + 1;
        }
    }
    r
}

/// A directory line of the trace: its position, and for a directory holding a
/// match the directory padded to 25 characters and a green mark, with `alias`
/// where an alias lies in it and `selected` otherwise.
pub open spec fn trace_line(e: TraceEntry, alias_here: bool) -> LineView {
    if e.matched {
        seq![
            (decimal(e.index as nat) + ". "@ + pad(e.directory@, 25) + " "@, Style::Plain),
            ("✓"@, Style::Green),
            (if alias_here {
                " alias"@
            } else {
                " selected"@
            }, Style::Plain),
        ]
    } else {
        plain(decimal(e.index as nat) + ". "@ + e.directory@)
    }
}

/// The trace of the search path and the counts of the scan: `PATH:`, one line
/// per directory, then the number of directories and entries scanned.
pub open spec fn trace_spec(entries: Seq<TraceEntry>, alias_hits: Seq<bool>, dirs: nat, files: nat) -> Seq<LineView> {
    seq![plain("PATH:"@)] + Seq::new(entries.len(), |i: int| trace_line(entries[i], alias_hits[i]))
        + seq![
        blank(),
        plain("Scan"@),
        plain("────"@),
        plain(pad("Directories"@, 11) + " : "@ + decimal(dirs)),
        plain(pad("Entries"@, 11) + " : "@ + decimal(files)),
    ]
}

/// The trace of the search path, given for each directory whether an alias of
/// a match lies in it.
pub fn trace_lines(entries: &Vec<TraceEntry>, alias_hits: &Vec<bool>, dirs: usize, files: usize) -> (r: Vec<Line>)
    requires
        alias_hits.len() == entries.len(),
    ensures
        lines_view(r@) == trace_spec(entries@, alias_hits@, dirs as nat, files as nat),
{
    let mut r: Vec<Line> = Vec::new();
    push_line(&mut r, plain_line(owned("PATH:")));
    let ghost head = lines_view(r@);
    for i in 0..entries.len()
        invariant
            alias_hits.len() == entries.len(),
            lines_view(r@) == head + Seq::new(
                i as nat,
                |k: int| trace_line(entries@[k], alias_hits@[k]),
            ),
    {
        let e = &entries[i];
        let num = cat(decimal_string(e.index as u64).as_str(), ". ");
        let l = if e.matched {
            let padded = pad_exec(e.directory.as_str(), 25);
            let mut spans: Vec<Span> = Vec::new();
            let t = cat(num.as_str(), padded.as_str());
            spans.push(Span { text: cat(t.as_str(), " "), style: Style::Plain });
            spans.push(Span { text: owned("✓"), style: Style::Green });
            spans.push(
                Span {
                    text: if alias_hits[i] {
                        owned(" alias")
                    } else {
                        owned(" selected")
                    },
                    style: Style::Plain,
                },
            );
            let l = Line { spans };
            assert(line_view(l) =~= trace_line(*e, alias_hits@[i as int]));
            l
        } else {
            plain_line(cat(num.as_str(), e.directory.as_str()))
        };
        push_line(&mut r, l);
        assert(lines_view(r@) =~= head + Seq::new(
            (i + 1) as nat,
            |k: int| trace_line(entries@[k], alias_hits@[k]),
        ));
    }
    push_line(&mut r, blank_line());
    push_line(&mut r, plain_line(owned("Scan")));
    push_line(&mut r, plain_line(owned("────")));
    let d = pad_exec("Directories", 11);
    let d = cat(d.as_str(), " : ");
    push_line(&mut r, plain_line(cat(d.as_str(), decimal_string(dirs as u64).as_str())));
    let f = pad_exec("Entries", 11);
    let f = cat(f.as_str(), " : ");
    push_line(&mut r, plain_line(cat(f.as_str(), decimal_string(files as u64).as_str())));
    assert(lines_view(r@) =~= trace_spec(entries@, alias_hits@, dirs as nat, files as nat));
    r
}

/// A bold title followed by a colon.
pub open spec fn title_view(title: Seq<char>) -> LineView {
    seq![(title, Style::Bold), (":"@, Style::Plain)]
}

/// A titled section of the trace details: a blank line, the bold title, and the value.
pub open spec fn section(title: Seq<char>, value: Option<String>, style: Style) -> Seq<LineView> {
    match value {
        Some(v) => seq![blank(), title_view(title), seq![(v@, style)]],
        None => Seq::empty(),
    }
}

/// A titled section listing several values.
pub open spec fn list_section(title: Seq<char>, values: Seq<Seq<char>>) -> Seq<LineView> {
    seq![blank(), title_view(title)] + Seq::new(
        values.len(),
        |i: int| plain(values[i]),
    )
}

/// The trace details of a match: a separator before all but the first, then
/// the executable and each detail that is known.
pub open spec fn trace_match_spec(m: MatchRecord, separated: bool) -> Seq<LineView> {
    (if separated {
        seq![plain("---"@)]
    } else {
        Seq::empty()
    }) + seq![title_view("Executable"@), seq![(m.path@, Style::Green)]]
        + section("Owner"@, m.owner, Style::Yellow) + section("Package"@, m.package, Style::Cyan)
        + section("Version"@, m.version, Style::Magenta) + section(
        "Filesystem"@,
        m.filesystem,
        Style::Cyan,
    ) + section("SHA256"@, m.hash, Style::Blue) + section("Architecture"@, m.arch, Style::Cyan)
        + section("Security"@, m.security, Style::Yellow) + (match m.libs {
        Some(l) => list_section("Libraries"@, l.deep_view()),
        None => Seq::empty(),
    }) + section("Canonical"@, m.canonical, Style::Plain) + (if m.aliases.len() > 0 {
        list_section("Aliases"@, m.aliases.deep_view())
    } else {
        Seq::empty()
    })
}

/// A section line with a bold title.
fn title_line(title: &str) -> (l: Line)
    ensures
        line_view(l) == title_view(title@),
{
    pair_line(owned(title), Style::Bold, owned(":"), Style::Plain)
}

/// A titled section of the trace details.
fn section_lines(title: &str, value: &Option<String>, style: Style) -> (r: Vec<Line>)
    ensures
        lines_view(r@) == section(title@, *value, style),
{
    let mut r: Vec<Line> = Vec::new();
    if let Some(v) = value {
        push_line(&mut r, blank_line());
        push_line(&mut r, title_line(title));
        push_line(&mut r, styled_line(v.clone(), style));
    }
    assert(lines_view(r@) =~= section(title@, *value, style));
    r
}

/// A titled section listing several values.
fn list_section_lines(title: &str, values: &Vec<String>) -> (r: Vec<Line>)
    ensures
        lines_view(r@) == list_section(title@, values.deep_view()),
{
    let mut r: Vec<Line> = Vec::new();
    push_line(&mut r, blank_line());
    push_line(&mut r, title_line(title));
    let ghost head = lines_view(r@);
    for i in 0..values.len()
        invariant
            lines_view(r@) == head + Seq::new(i as nat, |k: int| plain(values.deep_view()[k])),
    {
        push_line(&mut r, plain_line(values[i].clone()));
        assert(lines_view(r@) =~= head + Seq::new(
            (i + 1) as nat,
            |k: int| plain(values.deep_view()[k]),
        ));
    }
    r
}

/// The trace details of a match; `separated` puts a separator first.
pub fn trace_match_lines(m: &MatchRecord, separated: bool) -> (r: Vec<Line>)
    ensures
        lines_view(r@) == trace_match_spec(*m, separated),
{
    let mut r: Vec<Line> = Vec::new();
    if separated {
        push_line(&mut r, plain_line(owned("---")));
    }
    push_line(&mut r, title_line("Executable"));
    push_line(&mut r, styled_line(m.path.clone(), Style::Green));
    push_lines(&mut r, section_lines("Owner", &m.owner, Style::Yellow));
    push_lines(&mut r, section_lines("Package", &m.package, Style::Cyan));
    push_lines(&mut r, section_lines("Version", &m.version, Style::Magenta));
    push_lines(&mut r, section_lines("Filesystem", &m.filesystem, Style::Cyan));
    push_lines(&mut r, section_lines("SHA256", &m.hash, Style::Blue));
    push_lines(&mut r, section_lines("Architecture", &m.arch, Style::Cyan));
    push_lines(&mut r, section_lines("Security", &m.security, Style::Yellow));
    let mut libs: Vec<Line> = Vec::new();
    if let Some(l) = &m.libs {
        libs = list_section_lines("Libraries", l);
    }
    assert(lines_view(libs@) =~= (match m.libs {
        Some(l) => list_section("Libraries"@, l.deep_view()),
        None => Seq::empty(),
    }));
    push_lines(&mut r, libs);
    push_lines(&mut r, section_lines("Canonical", &m.canonical, Style::Plain));
    let mut aliases: Vec<Line> = Vec::new();
    if m.aliases.len() > 0 {
        aliases = list_section_lines("Aliases", &m.aliases);
    }
    assert(lines_view(aliases@) =~= (if m.aliases.len() > 0 {
        list_section("Aliases"@, m.aliases.deep_view())
    } else {
        Seq::empty()
    }));
    push_lines(&mut r, aliases);
    assert(lines_view(r@) =~= trace_match_spec(*m, separated));
    r
}

/// The line that says every directory can be listed.
pub open spec fn all_readable_line() -> LineView {
    seq![("✓"@, Style::Green), (" All directories readable"@, Style::Plain)]
}

/// The warning lines about one directory are each a two-span line that opens
/// with a yellow mark, or a one-span line.
proof fn lemma_dir_warnings_shape(issues: Seq<Issue>, dir: Seq<char>)
    ensures
        forall|k: int|
            0 <= k < dir_warnings(issues, dir).len() ==> (#[trigger] dir_warnings(issues, dir)[k]).len()
                != 2 || dir_warnings(issues, dir)[k][0].1 == Style::Yellow,
    decreases issues.len(),
{
    if issues.len() > 0 {
        lemma_dir_warnings_shape(issues.drop_last(), dir);
    }
}

/// No warning line is a green two-span line.
proof fn lemma_all_warnings_shape(issues: Seq<Seq<Issue>>, dirs: Seq<Seq<char>>)
    ensures
        forall|k: int|
            0 <= k < all_warnings(issues, dirs).len() ==> (#[trigger] all_warnings(issues, dirs)[k]).len()
                != 2 || all_warnings(issues, dirs)[k][0].1 == Style::Yellow,
    decreases issues.len(),
{
    if issues.len() > 0 {
        let n = issues.len() - 1;
        lemma_all_warnings_shape(issues.drop_last(), dirs);
        lemma_dir_warnings_shape(issues[n], dirs[n]);
    }
}

/// The `--doctor` report says that all directories are readable exactly when
/// no directory was found unreadable.
pub proof fn lemma_doctor_readable_line(
    dirs: Seq<Seq<char>>,
    issues: Seq<Seq<Issue>>,
    unreadable: nat,
    shadowed: nat,
)
    ensures
        doctor_spec(dirs, issues, unreadable, shadowed).contains(all_readable_line()) <==> unreadable
            == 0,
{
    reveal_strlit(" All directories readable");
    reveal_strlit(" PATH contains ");
    reveal_strlit(" No shadowed binaries detected");
    let d = doctor_spec(dirs, issues, unreadable, shadowed);
    let l = all_readable_line();
    let w = all_warnings(issues, dirs);
    let head = seq![
        plain("PATH diagnostics"@),
        blank(),
        seq![("✓"@, Style::Green), (" PATH contains "@ + decimal(dirs.len()) + " directories"@, Style::Plain)],
        blank(),
    ];
    lemma_all_warnings_shape(issues, dirs);
    if unreadable == 0 {
        assert(d[4int + w.len()] == l);
    } else {
        let tail: Seq<LineView> = if shadowed == 0 {
            seq![seq![("✓"@, Style::Green), (" No shadowed binaries detected"@, Style::Plain)]]
        } else {
            seq![seq![("⚠"@, Style::Yellow), (" "@ + decimal(shadowed) + " shadowed binaries detected"@, Style::Plain)]]
        };
        assert(d == head + w + Seq::<LineView>::empty() + tail);
        assert(d =~= head + w + tail);
        assert forall|k: int| 0 <= k < d.len() implies d[k] != l by {
            if k < 4 {
                assert(d[k] == head[k]);
                if k == 2 {
                    assert(d[2][1].0[1] == 'P');
                    assert(l[1].0[1] == 'A');
                } else {
                    assert(head[k].len() != 2);
                }
            } else if k < 4 + w.len() {
                assert(d[k] == w[k - 4]);
                assert(w[k - 4].len() != 2 || w[k - 4][0].1 == Style::Yellow);
            } else {
                assert(d[k] == tail[k - 4 - w.len()]);
                assert(k - 4 - w.len() == 0);
                if shadowed == 0 {
                    assert(d[k][1].0[1] == 'N');
                    assert(l[1].0[1] == 'A');
                } else {
                    assert(d[k][0].1 == Style::Yellow);
                }
            }
        }
    }
}

/// The warning title of an issue.
pub open spec fn issue_title(i: Issue) -> Seq<char> {
    match i {
        Issue::Relative => " Relative path:"@,
        Issue::Missing => " Missing:"@,
        Issue::Duplicate => " Duplicate:"@,
        Issue::Unreadable => " Unreadable:"@,
    }
}

/// The warning lines of one issue of a directory.
pub open spec fn issue_lines(i: Issue, dir: Seq<char>) -> Seq<LineView> {
    seq![seq![("⚠"@, Style::Yellow), (issue_title(i), Style::Plain)], plain(dir)]
}

/// The warnings about one directory, followed by a blank line where there are any.
pub open spec fn dir_warnings(issues: Seq<Issue>, dir: Seq<char>) -> Seq<LineView>
    decreases issues.len(),
{
    if issues.len() == 0 {
        Seq::empty()
    } else {
        dir_warnings(issues.drop_last(), dir) + issue_lines(issues.last(), dir)
    }
}

/// The warnings about every directory.
pub open spec fn all_warnings(issues: Seq<Seq<Issue>>, dirs: Seq<Seq<char>>) -> Seq<LineView>
    decreases issues.len(),
{
    if issues.len() == 0 {
        Seq::empty()
    } else {
        let n = issues.len() - 1;
        all_warnings(issues.drop_last(), dirs) + if issues[n].len() > 0 {
            dir_warnings(issues[n], dirs[n]) + seq![blank()]
        } else {
            Seq::empty()
        }
    }
}

/// The views of lists of issues.
pub open spec fn issues_view(v: Seq<Vec<Issue>>) -> Seq<Seq<Issue>> {
    Seq::new(v.len(), |i: int| v[i]@)
}

/// The `--doctor` report: the number of directories, the warnings about each,
/// whether all are readable, and the number of shadowed files.
pub open spec fn doctor_spec(
    dirs: Seq<Seq<char>>,
    issues: Seq<Seq<Issue>>,
    unreadable: nat,
    shadowed: nat,
) -> Seq<LineView> {
    seq![
        plain("PATH diagnostics"@),
        blank(),
        seq![("✓"@, Style::Green), (" PATH contains "@ + decimal(dirs.len()) + " directories"@, Style::Plain)],
        blank(),
    ] + all_warnings(issues, dirs) + (if unreadable == 0 {
        seq![seq![("✓"@, Style::Green), (" All directories readable"@, Style::Plain)], blank()]
    } else {
        Seq::empty()
    }) + if shadowed == 0 {
        seq![seq![("✓"@, Style::Green), (" No shadowed binaries detected"@, Style::Plain)]]
    } else {
        seq![seq![("⚠"@, Style::Yellow), (" "@ + decimal(shadowed) + " shadowed binaries detected"@, Style::Plain)]]
    }
}

/// The warning title of an issue.
fn issue_title_exec(i: &Issue) -> (r: String)
    ensures
        r@ == issue_title(*i),
{
    match i {
        Issue::Relative => owned(" Relative path:"),
        Issue::Missing => owned(" Missing:"),
        Issue::Duplicate => owned(" Duplicate:"),
        Issue::Unreadable => owned(" Unreadable:"),
    }
}

/// The `--doctor` report on the directories `dirs` (those that were probed, in
/// order), from their diagnosis and the number of shadowed files.
pub fn doctor_lines(dirs: &Vec<String>, report: &DoctorReport, shadowed: usize) -> (r: Vec<Line>)
    requires
        report.issues.len() == dirs.len(),
    ensures
        lines_view(r@) == doctor_spec(
            dirs.deep_view(),
            issues_view(report.issues@),
            report.unreadable as nat,
            shadowed as nat,
        ),
{
    let ghost iv = issues_view(report.issues@);
    let ghost dv = dirs.deep_view();
    let mut r: Vec<Line> = Vec::new();
    push_line(&mut r, plain_line(owned("PATH diagnostics")));
    push_line(&mut r, blank_line());
    let count = cat(" PATH contains ", decimal_string(dirs.len() as u64).as_str());
    push_line(&mut r, pair_line(owned("✓"), Style::Green, cat(count.as_str(), " directories"), Style::Plain));
    push_line(&mut r, blank_line());
    let ghost head = lines_view(r@);
    for i in 0..dirs.len()
        invariant
            report.issues.len() == dirs.len(),
            iv == issues_view(report.issues@),
            dv == dirs.deep_view(),
            lines_view(r@) == head + all_warnings(iv.take(i as int), dv),
    {
        assert(iv.take(i + 1).drop_last() == iv.take(i as int));
        let issues = &report.issues[i];
        let ghost before = lines_view(r@);
        for k in 0..issues.len()
            invariant
                i < dirs.len(),
                dv == dirs.deep_view(),
                lines_view(r@) == before + dir_warnings(issues@.take(k as int), dv[i as int]),
        {
            assert(issues@.take(k + 1).drop_last() == issues@.take(k as int));
            push_line(&mut r, pair_line(owned("⚠"), Style::Yellow, issue_title_exec(&issues[k]), Style::Plain));
            push_line(&mut r, plain_line(dirs[i].clone()));
            assert(lines_view(r@) =~= before + dir_warnings(issues@.take(k + 1), dv[i as int]));
        }
        assert(issues@.take(issues.len() as int) == issues@);
        if issues.len() > 0 {
            push_line(&mut r, blank_line());
        }
        assert(iv.take(i + 1)[i as int] == issues@);
        assert(lines_view(r@) =~= head + all_warnings(iv.take(i + 1), dv));
    }
    assert(iv.take(dirs.len() as int) == iv);
    let mut tail: Vec<Line> = Vec::new();
    if report.unreadable == 0 {
        push_line(&mut tail, pair_line(owned("✓"), Style::Green, owned(" All directories readable"), Style::Plain));
        push_line(&mut tail, blank_line());
    }
    if shadowed == 0 {
        push_line(&mut tail, pair_line(owned("✓"), Style::Green, owned(" No shadowed binaries detected"), Style::Plain));
    } else {
        let t = cat(" ", decimal_string(shadowed as u64).as_str());
        push_line(&mut tail, pair_line(owned("⚠"), Style::Yellow, cat(t.as_str(), " shadowed binaries detected"), Style::Plain));
    }
    push_lines(&mut r, tail);
    assert(lines_view(r@) =~= doctor_spec(dv, iv, report.unreadable as nat, shadowed as nat));
    r
}

/// The lines that offer a known name close to a missing command.
pub open spec fn did_you_mean_spec(name: Seq<char>) -> Seq<LineView> {
    seq![blank(), plain("Did you mean?"@), seq![("  "@, Style::Plain), (name, Style::Green)]]
}

/// The lines that offer `name` in place of a missing command.
pub fn did_you_mean_lines(name: &str) -> (r: Vec<Line>)
    ensures
        lines_view(r@) == did_you_mean_spec(name@),
{
    let mut r: Vec<Line> = Vec::new();
    push_line(&mut r, blank_line());
    push_line(&mut r, plain_line(owned("Did you mean?")));
    push_line(&mut r, pair_line(owned("  "), Style::Plain, owned(name), Style::Green));
    assert(lines_view(r@) =~= did_you_mean_spec(name@));
    r
}

/// A command is missing when neither the search path nor the shell knows it.
pub fn is_missing(ms: &Vec<MatchRecord>, ctx: &crate::shell::ShellContext) -> (r: bool)
    ensures
        r == (ms.len() == 0 && !ctx.found()),
{
    ms.len() == 0 && !ctx.is_found()
}

/// The exit status of a search: 1 where some command is missing, 0 otherwise.
pub fn exit_status(missing: &Vec<bool>) -> (r: i32)
    ensures
        r == 1 <==> exists|i: int| 0 <= i < missing.len() && missing@[i],
        r == 0 || r == 1,
{
    for i in 0..missing.len()
        invariant
            forall|k: int| 0 <= k < i ==> !missing@[k],
    {
        if missing[i] {
            return 1;
        }
    }
    0
}

} // verus!
