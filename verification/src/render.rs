//! The human-readable report: lines of styled text spans, which the terminal
//! front end prints with colours.
use vstd::prelude::*;
use crate::format::{decimal, decimal_string};
use crate::options::Options;
use crate::record::MatchRecord;
use crate::shell::{Resolution, ShellContext};
use crate::text::{
    chars_of, contains, contains_seq, join_from, join_spec, lemma_chars_deep_view, owned,
    split_chars, split_spec, string_of,
};

verus! {

/// How a span of text is shown.
#[derive(Clone, Copy, PartialEq, Eq, Structural)]
pub enum Style {
    Plain,
    Bold,
    Green,
    Red,
    Yellow,
    Cyan,
    Blue,
    Magenta,
}

/// A run of text in one style.
pub struct Span {
    pub text: String,
    pub style: Style,
}

/// One line of output.
pub struct Line {
    pub spans: Vec<Span>,
}

/// The content of a line: its spans' texts and styles.
pub type LineView = Seq<(Seq<char>, Style)>;

/// The content of a line.
pub open spec fn line_view(l: Line) -> LineView {
    Seq::new(l.spans@.len(), |i: int| (l.spans@[i].text@, l.spans@[i].style))
}

/// The content of a list of lines.
pub open spec fn lines_view(v: Seq<Line>) -> Seq<LineView> {
    Seq::new(v.len(), |i: int| line_view(v[i]))
}

/// A line of plain text.
pub open spec fn plain(s: Seq<char>) -> LineView {
    seq![(s, Style::Plain)]
}

/// A line of plain text followed by a styled value.
pub open spec fn labeled(label: Seq<char>, value: Seq<char>, style: Style) -> LineView {
    seq![(label, Style::Plain), (value, style)]
}

/// A labeled line where the value is present.
pub open spec fn opt_labeled(o: Option<String>, label: Seq<char>, style: Style) -> Seq<LineView> {
    match o {
        Some(v) => seq![labeled(label, v@, style)],
        None => Seq::empty(),
    }
}

/// An empty line.
pub open spec fn blank() -> LineView {
    Seq::empty()
}

/// `true` or `false`, as `{}` prints a `bool`.
pub open spec fn bool_text(b: bool) -> Seq<char> {
    if b {
        "true"@
    } else {
        "false"@
    }
}

/// Each line indented by four spaces.
pub open spec fn indented(lines: Seq<LineView>) -> Seq<LineView> {
    Seq::new(lines.len(), |i: int| seq![("    "@, Style::Plain)] + lines[i])
}

/// The alias lines of a match.
pub open spec fn alias_part(m: MatchRecord) -> Seq<LineView> {
    let aliases = m.aliases.deep_view();
    if aliases.len() > 0 {
        seq![plain("aliases:"@)] + Seq::new(aliases.len(), |i: int| plain("  "@ + aliases[i]))
    } else {
        Seq::empty()
    }
}

/// The verbose lines of a match: executable, owner, permissions, inode, filesystem.
pub open spec fn verbose_part(opts: Options, m: MatchRecord) -> Seq<LineView> {
    if opts.verbose {
        seq![plain("executable: "@ + bool_text(m.executable))] + opt_labeled(
            m.owner,
            "owner: "@,
            Style::Yellow,
        ) + opt_labeled(m.permissions, "permissions: "@, Style::Yellow) + (match m.inode {
            Some(n) => seq![plain("inode: "@ + decimal(n as nat))],
            None => Seq::empty(),
        }) + (match m.filesystem {
            Some(f) => seq![plain("filesystem: "@ + f@)],
            None => Seq::empty(),
        })
    } else {
        Seq::empty()
    }
}

/// The size line of a match.
pub open spec fn size_part(opts: Options, m: MatchRecord) -> Seq<LineView> {
    if opts.show_size && m.size is Some {
        if !opts.verbose {
            seq![plain("size: "@ + decimal(m.size->0 as nat) + " bytes"@)]
        } else {
            seq![plain("size: "@ + decimal(m.size->0 as nat))]
        }
    } else {
        Seq::empty()
    }
}

/// The content lines of a match: hash, package, version, architecture,
/// security and libraries, each where known.
pub open spec fn content_part(m: MatchRecord) -> Seq<LineView> {
    opt_labeled(m.hash, "sha256: "@, Style::Blue) + opt_labeled(
        m.package,
        "package: "@,
        Style::Cyan,
    ) + (match m.version {
        Some(v) => seq![seq![(v@, Style::Magenta)]],
        None => Seq::empty(),
    }) + opt_labeled(m.arch, "arch: "@, Style::Cyan) + opt_labeled(
        m.security,
        "security: "@,
        Style::Yellow,
    ) + (match m.libs {
        Some(l) => seq![plain("libraries: "@ + join_spec(l.deep_view(), ", "@))],
        None => Seq::empty(),
    })
}

/// The detail lines of a match in the default report.
pub open spec fn extra_lines(opts: Options, m: MatchRecord) -> Seq<LineView> {
    alias_part(m) + verbose_part(opts, m) + size_part(opts, m) + content_part(m)
}

/// The first line of a match: its path, green where executable and red
/// otherwise, and the target of a symbolic link.
pub open spec fn head_line(m: MatchRecord) -> LineView {
    seq![
        (" └─ "@, Style::Plain),
        (m.path@, if m.executable {
            Style::Green
        } else {
            Style::Red
        }),
    ] + match m.symlink_target {
        Some(t) => seq![(" -> "@, Style::Plain), (t@, Style::Cyan)],
        None => Seq::empty(),
    }
}

/// Whether the default report shows detail lines under a match.
pub open spec fn shows_details(opts: Options, m: MatchRecord) -> bool {
    opts.verbose || opts.show_size || opts.hash || m.aliases.len() > 0 || opts.package
        || opts.version_info || opts.arch || opts.security || opts.libs
}

/// The lines of a match in the default report: its path (green where
/// executable, red otherwise) and symlink target, then its details.
pub open spec fn match_lines_spec(opts: Options, m: MatchRecord) -> Seq<LineView> {
    seq![head_line(m)] + if shows_details(opts, m) {
        indented(extra_lines(opts, m))
    } else {
        Seq::empty()
    }
}

/// The lines describing what the shell knows about the name.
pub open spec fn shell_lines_spec(ctx: ShellContext) -> Seq<LineView> {
    expansion_part(ctx.alias, "shell alias"@) + flag_part(ctx.is_function, "shell function"@)
        + flag_part(ctx.is_builtin, "shell builtin"@) + expansion_part(
        ctx.abbreviation,
        "shell abbreviation"@,
    ) + env_part(ctx.env_var)
}

/// The lines of a shell construct with an expansion.
pub open spec fn expansion_part(e: Option<String>, kind: Seq<char>) -> Seq<LineView> {
    match e {
        Some(a) => seq![labeled(" └─ "@, kind, Style::Cyan), plain("    expands to: "@ + a@)],
        None => Seq::empty(),
    }
}

/// The line of a shell construct without an expansion.
pub open spec fn flag_part(present: bool, kind: Seq<char>) -> Seq<LineView> {
    if present {
        seq![labeled(" └─ "@, kind, Style::Cyan)]
    } else {
        Seq::empty()
    }
}

/// The lines of an environment variable: a value holding `:` is shown one
/// part per line.
pub open spec fn env_part(e: Option<String>) -> Seq<LineView> {
    match e {
        Some(v) => seq![labeled(" └─ "@, "environment variable"@, Style::Cyan)] + if contains_seq(
            v@,
            ":"@,
        ) {
            seq![plain("    value:"@)] + Seq::new(
                split_spec(v@, ':').len(),
                |i: int| plain("      "@ + split_spec(v@, ':')[i]),
            )
        } else {
            seq![plain("    value: "@ + v@)]
        },
        None => Seq::empty(),
    }
}

/// A check line of the resolution order: a mark and the construct, green where
/// present and red where absent.
pub open spec fn check_line(present: bool, word: Seq<char>) -> LineView {
    if present {
        labeled("✓ "@, word, Style::Green)
    } else {
        labeled("✗ "@, word, Style::Red)
    }
}

/// A plain mark for the explanation.
pub open spec fn mark(present: bool) -> Seq<char> {
    if present {
        "✓"@
    } else {
        "✗"@
    }
}

/// The selected construct and the reasons for it, as `--explain` gives them.
pub open spec fn explain_selected(cmd: Seq<char>, r: Resolution) -> Seq<LineView> {
    match r {
        Resolution::Alias(a) => seq![
            plain("alias "@ + cmd + "='"@ + a@ + "'"@),
            blank(),
            plain("Reason:"@),
            plain("Matched shell alias"@),
        ],
        Resolution::Function => seq![
            plain(cmd + " (function)"@),
            blank(),
            plain("Reason:"@),
            plain("No alias"@),
            plain("Matched shell function"@),
        ],
        Resolution::Builtin => seq![
            plain(cmd + " (builtin)"@),
            blank(),
            plain("Reason:"@),
            plain("No alias"@),
            plain("No function"@),
            plain("Matched shell builtin"@),
        ],
        Resolution::Abbreviation(b) => seq![
            plain("abbr "@ + cmd + "='"@ + b@ + "'"@),
            blank(),
            plain("Reason:"@),
            plain("Matched fish abbreviation"@),
        ],
        Resolution::EnvVar(v) => seq![
            plain(cmd + "="@ + v@),
            blank(),
            plain("Reason:"@),
            plain("Matched environment variable"@),
        ],
        Resolution::Executable(p) => seq![
            plain(p@),
            blank(),
            plain("Reason:"@),
            plain("No alias"@),
            plain("No function"@),
            plain("Not a builtin"@),
            plain("Executable found in PATH"@),
        ],
        Resolution::Unresolved => Seq::empty(),
    }
}

/// The selected construct, as `--resolve` gives it.
pub open spec fn result_selected(cmd: Seq<char>, r: Resolution) -> Seq<LineView> {
    match r {
        Resolution::Alias(a) => seq![plain("alias "@ + cmd + "='"@ + a@ + "'"@)],
        Resolution::Function => seq![plain("function "@ + cmd)],
        Resolution::Builtin => seq![plain("builtin "@ + cmd)],
        Resolution::Abbreviation(b) => seq![plain("abbr "@ + cmd + "='"@ + b@ + "'"@)],
        Resolution::EnvVar(v) => seq![plain(cmd + "="@ + v@)],
        Resolution::Executable(p) => seq![plain(p@)],
        Resolution::Unresolved => Seq::empty(),
    }
}

/// The name of the shell is fish.
pub open spec fn is_fish(ctx: ShellContext) -> bool {
    ctx.shell_name matches Some(n) && n@ == "fish"@
}

/// The resolution order (`--resolve`) and the explanation (`--explain`) of a name.
pub open spec fn resolution_lines_spec(
    opts: Options,
    cmd: Seq<char>,
    ctx: ShellContext,
    first: Option<String>,
) -> Seq<LineView> {
    order_part(opts, ctx, first is Some) + selection_part(opts, cmd, ctx, first)
}

/// The resolution order, where `--resolve` asks for it.
pub open spec fn order_part(opts: Options, ctx: ShellContext, found: bool) -> Seq<LineView> {
    if opts.resolve {
        seq![
            plain("Resolution order"@),
            blank(),
            check_line(ctx.alias is Some, "alias"@),
            check_line(ctx.is_function, "function"@),
            check_line(ctx.is_builtin, "builtin"@),
        ] + (if ctx.abbreviation is Some {
            seq![check_line(true, "abbreviation"@)]
        } else if is_fish(ctx) {
            seq![check_line(false, "abbreviation"@)]
        } else {
            Seq::empty()
        }) + seq![
            check_line(ctx.env_var is Some, "env var"@),
            check_line(found, "executable"@),
            blank(),
        ]
    } else {
        Seq::empty()
    }
}

/// The explanation (`--explain`) or, failing that, the result (`--resolve`).
pub open spec fn selection_part(
    opts: Options,
    cmd: Seq<char>,
    ctx: ShellContext,
    first: Option<String>,
) -> Seq<LineView> {
    let found = first is Some;
    let sel = ctx.selection(first);
    if opts.explain {
        seq![
            plain("Shell searched:"@),
            blank(),
            plain(mark(ctx.alias is Some) + " alias"@),
            plain(mark(ctx.is_function) + " function"@),
            plain(mark(ctx.is_builtin) + " builtin"@),
            plain(mark(ctx.env_var is Some) + " env var"@),
            plain(mark(found) + " PATH"@),
            blank(),
            plain("Selected:"@),
        ] + explain_selected(cmd, sel) + seq![blank()]
    } else if opts.resolve {
        seq![plain("Result:"@)] + result_selected(cmd, sel) + seq![blank()]
    } else {
        Seq::empty()
    }
}

/// The lines of every match, in order.
pub open spec fn all_match_lines(opts: Options, ms: Seq<MatchRecord>) -> Seq<LineView>
    decreases ms.len(),
{
    if ms.len() == 0 {
        Seq::empty()
    } else {
        all_match_lines(opts, ms.drop_last()) + match_lines_spec(opts, ms.last())
    }
}

/// The default report of a command: nothing where neither the shell nor the
/// search path knows it; otherwise a blank line between commands, the name
/// in bold (both left out under `--why`), the resolution order and
/// explanation where asked for, what the shell knows, and each match.
pub open spec fn command_lines_spec(
    opts: Options,
    cmd: Seq<char>,
    ctx: ShellContext,
    ms: Seq<MatchRecord>,
    first_cmd: bool,
) -> Seq<LineView> {
    if ms.len() == 0 && !ctx.found() {
        Seq::empty()
    } else {
        (if !first_cmd && !opts.why {
            seq![blank()]
        } else {
            Seq::empty()
        }) + (if !opts.why {
            seq![seq![(cmd, Style::Bold)]]
        } else {
            Seq::empty()
        }) + resolution_lines_spec(
            opts,
            cmd,
            ctx,
            if ms.len() > 0 {
                Some(ms[0].path)
            } else {
                None
            },
        ) + shell_lines_spec(ctx) + all_match_lines(opts, ms)
    }
}

// ----------------------------------------------------------------------------
// Building lines
// ----------------------------------------------------------------------------
/// A line of plain text.
pub fn plain_line(text: String) -> (l: Line)
    ensures
        line_view(l) == plain(text@),
{
    let mut spans: Vec<Span> = Vec::new();
    spans.push(Span { text, style: Style::Plain });
    let l = Line { spans };
    assert(line_view(l) =~= plain(text@));
    l
}

/// A line of one styled span.
pub fn styled_line(text: String, style: Style) -> (l: Line)
    ensures
        line_view(l) == seq![(text@, style)],
{
    let mut spans: Vec<Span> = Vec::new();
    spans.push(Span { text, style });
    let l = Line { spans };
    assert(line_view(l) =~= seq![(text@, style)]);
    l
}

/// A line of two spans.
pub fn pair_line(a: String, sa: Style, b: String, sb: Style) -> (l: Line)
    ensures
        line_view(l) == seq![(a@, sa), (b@, sb)],
{
    let mut spans: Vec<Span> = Vec::new();
    spans.push(Span { text: a, style: sa });
    spans.push(Span { text: b, style: sb });
    let l = Line { spans };
    assert(line_view(l) =~= seq![(a@, sa), (b@, sb)]);
    l
}

/// A labeled line: plain label, styled value.
pub fn labeled_line(label: &str, value: String, style: Style) -> (l: Line)
    ensures
        line_view(l) == labeled(label@, value@, style),
{
    pair_line(owned(label), Style::Plain, value, style)
}

/// An empty line.
pub fn blank_line() -> (l: Line)
    ensures
        line_view(l) == blank(),
{
    let l = Line { spans: Vec::new() };
    assert(line_view(l) =~= blank());
    l
}

/// `a` followed by `b`.
pub fn cat(a: &str, b: &str) -> (s: String)
    ensures
        s@ == a@ + b@,
{
    let mut s = owned(a);
    s.append(b);
    s
}

/// Appends one line.
pub fn push_line(dst: &mut Vec<Line>, l: Line)
    ensures
        lines_view(final(dst)@) == lines_view(old(dst)@).push(line_view(l)),
{
    let ghost before = lines_view(dst@);
    let ghost lv = line_view(l);
    dst.push(l);
    assert(lines_view(dst@) =~= before.push(lv));
}

/// Appends lines.
pub fn push_lines(dst: &mut Vec<Line>, src: Vec<Line>)
    ensures
        lines_view(final(dst)@) == lines_view(old(dst)@) + lines_view(src@),
{
    let ghost before = lines_view(dst@);
    let ghost sv = lines_view(src@);
    let mut src = src;
    dst.append(&mut src);
    assert(lines_view(dst@) =~= before + sv);
}

/// The labeled line where the value is present.
fn opt_labeled_lines(o: &Option<String>, label: &str, style: Style) -> (r: Vec<Line>)
    ensures
        lines_view(r@) == opt_labeled(*o, label@, style),
{
    let mut r: Vec<Line> = Vec::new();
    if let Some(v) = o {
        push_line(&mut r, labeled_line(label, v.clone(), style));
    }
    assert(lines_view(r@) =~= opt_labeled(*o, label@, style));
    r
}

/// The line indented by four spaces.
fn indent(l: Line) -> (r: Line)
    ensures
        line_view(r) == seq![("    "@, Style::Plain)] + line_view(l),
{
    let ghost lv = line_view(l);
    let mut spans: Vec<Span> = Vec::new();
    spans.push(Span { text: owned("    "), style: Style::Plain });
    let mut rest = l.spans;
    spans.append(&mut rest);
    let r = Line { spans };
    assert(line_view(r) =~= seq![("    "@, Style::Plain)] + lv);
    r
}

/// Every line indented by four spaces.
fn indent_all(lines: Vec<Line>) -> (r: Vec<Line>)
    ensures
        lines_view(r@) == indented(lines_view(lines@)),
{
    let ghost lv = lines_view(lines@);
    let mut r: Vec<Line> = Vec::new();
    let mut lines = lines;
    let n = lines.len();
    let mut rev: Vec<Line> = Vec::new();
    while lines.len() > 0
        invariant
            lines.len() + rev.len() == n,
            n == lv.len(),
            forall|k: int| 0 <= k < lines.len() ==> line_view(#[trigger] lines@[k]) == lv[k],
            forall|k: int|
                0 <= k < rev.len() ==> line_view(#[trigger] rev@[k]) == seq![("    "@, Style::Plain)]
                    + lv[n - 1 - k],
        decreases lines.len(),
    {
        let l = lines.pop().unwrap();
        rev.push(indent(l));
    }
    while rev.len() > 0
        invariant
            r.len() + rev.len() == n,
            n == lv.len(),
            forall|k: int|
                0 <= k < rev.len() ==> line_view(#[trigger] rev@[k]) == seq![("    "@, Style::Plain)]
                    + lv[n - 1 - k],
            forall|k: int|
                0 <= k < r.len() ==> line_view(#[trigger] r@[k]) == seq![("    "@, Style::Plain)]
                    + lv[k],
        decreases rev.len(),
    {
        let l = rev.pop().unwrap();
        r.push(l);
    }
    assert(lines_view(r@) =~= indented(lv));
    r
}

/// The alias lines of a match.
fn alias_lines(m: &MatchRecord) -> (r: Vec<Line>)
    ensures
        lines_view(r@) == alias_part(*m),
{
    let mut r: Vec<Line> = Vec::new();
    let ghost aliases = m.aliases.deep_view();
    if m.aliases.len() > 0 {
        push_line(&mut r, plain_line(owned("aliases:")));
        for i in 0..m.aliases.len()
            invariant
                aliases == m.aliases.deep_view(),
                lines_view(r@) == seq![plain("aliases:"@)] + Seq::new(
                    i as nat,
                    |k: int| plain("  "@ + aliases[k]),
                ),
        {
            push_line(&mut r, plain_line(cat("  ", m.aliases[i].as_str())));
            assert(lines_view(r@) =~= seq![plain("aliases:"@)] + Seq::new(
                (i + 1) as nat,
                |k: int| plain("  "@ + aliases[k]),
            ));
        }
    }
    assert(lines_view(r@) =~= alias_part(*m));
    r
}

/// The verbose lines of a match.
fn verbose_lines(opts: &Options, m: &MatchRecord) -> (r: Vec<Line>)
    ensures
        lines_view(r@) == verbose_part(*opts, *m),
{
    let mut r: Vec<Line> = Vec::new();
    if opts.verbose {
        let b = if m.executable {
            owned("true")
        } else {
            owned("false")
        };
        push_line(&mut r, plain_line(cat("executable: ", b.as_str())));
        let ghost p1 = lines_view(r@);
        push_lines(&mut r, opt_labeled_lines(&m.owner, "owner: ", Style::Yellow));
        push_lines(&mut r, opt_labeled_lines(&m.permissions, "permissions: ", Style::Yellow));
        let ghost p3 = lines_view(r@);
        let mut tail: Vec<Line> = Vec::new();
        if let Some(n) = m.inode {
            push_line(&mut tail, plain_line(cat("inode: ", decimal_string(n).as_str())));
        }
        if let Some(f) = &m.filesystem {
            push_line(&mut tail, plain_line(cat("filesystem: ", f.as_str())));
        }
        assert(lines_view(tail@) =~= (match m.inode {
            Some(n) => seq![plain("inode: "@ + decimal(n as nat))],
            None => Seq::empty(),
        }) + (match m.filesystem {
            Some(f) => seq![plain("filesystem: "@ + f@)],
            None => Seq::empty(),
        }));
        push_lines(&mut r, tail);
    }
    assert(lines_view(r@) =~= verbose_part(*opts, *m));
    r
}

/// The size line of a match.
fn size_lines(opts: &Options, m: &MatchRecord) -> (r: Vec<Line>)
    ensures
        lines_view(r@) == size_part(*opts, *m),
{
    let mut r: Vec<Line> = Vec::new();
    if opts.show_size {
        if let Some(n) = m.size {
            let d = decimal_string(n);
            if !opts.verbose {
                let t = cat("size: ", d.as_str());
                push_line(&mut r, plain_line(cat(t.as_str(), " bytes")));
            } else {
                push_line(&mut r, plain_line(cat("size: ", d.as_str())));
            }
        }
    }
    assert(lines_view(r@) =~= size_part(*opts, *m));
    r
}

/// The libraries joined with `, `.
fn join_libs(l: &Vec<String>) -> (s: String)
    ensures
        s@ == join_spec(l.deep_view(), ", "@),
{
    let mut chars: Vec<Vec<char>> = Vec::new();
    for i in 0..l.len()
        invariant
            chars.len() == i,
            forall|k: int| 0 <= k < i ==> #[trigger] chars@[k]@ == l@[k]@,
    {
        chars.push(chars_of(l[i].as_str()));
    }
    assert forall|k: int| 0 <= k < chars.len() implies #[trigger] chars.deep_view()[k]
        == l.deep_view()[k] by {
        lemma_chars_deep_view(chars@[k]);
    }
    assert(chars.deep_view() =~= l.deep_view());
    assert(chars.deep_view().skip(0) == chars.deep_view());
    string_of(&join_from(&chars, 0, &chars_of(", ")))
}

/// The content lines of a match.
fn content_lines(m: &MatchRecord) -> (r: Vec<Line>)
    ensures
        lines_view(r@) == content_part(*m),
{
    let mut r = opt_labeled_lines(&m.hash, "sha256: ", Style::Blue);
    push_lines(&mut r, opt_labeled_lines(&m.package, "package: ", Style::Cyan));
    let mut v: Vec<Line> = Vec::new();
    if let Some(x) = &m.version {
        push_line(&mut v, styled_line(x.clone(), Style::Magenta));
    }
    assert(lines_view(v@) =~= (match m.version {
        Some(x) => seq![seq![(x@, Style::Magenta)]],
        None => Seq::empty(),
    }));
    push_lines(&mut r, v);
    push_lines(&mut r, opt_labeled_lines(&m.arch, "arch: ", Style::Cyan));
    push_lines(&mut r, opt_labeled_lines(&m.security, "security: ", Style::Yellow));
    let mut w: Vec<Line> = Vec::new();
    if let Some(l) = &m.libs {
        push_line(&mut w, plain_line(cat("libraries: ", join_libs(l).as_str())));
    }
    assert(lines_view(w@) =~= (match m.libs {
        Some(l) => seq![plain("libraries: "@ + join_spec(l.deep_view(), ", "@))],
        None => Seq::empty(),
    }));
    push_lines(&mut r, w);
    assert(lines_view(r@) =~= content_part(*m));
    r
}

/// The detail lines of a match.
fn extra_lines_exec(opts: &Options, m: &MatchRecord) -> (r: Vec<Line>)
    ensures
        lines_view(r@) == extra_lines(*opts, *m),
{
    let mut r = alias_lines(m);
    push_lines(&mut r, verbose_lines(opts, m));
    push_lines(&mut r, size_lines(opts, m));
    push_lines(&mut r, content_lines(m));
    r
}

/// The first line of a match.
fn head(m: &MatchRecord) -> (l: Line)
    ensures
        line_view(l) == head_line(*m),
{
    let mut spans: Vec<Span> = Vec::new();
    spans.push(Span { text: owned(" └─ "), style: Style::Plain });
    spans.push(
        Span {
            text: m.path.clone(),
            style: if m.executable {
                Style::Green
            } else {
                Style::Red
            },
        },
    );
    if let Some(t) = &m.symlink_target {
        spans.push(Span { text: owned(" -> "), style: Style::Plain });
        spans.push(Span { text: t.clone(), style: Style::Cyan });
    }
    let l = Line { spans };
    assert(line_view(l) =~= head_line(*m));
    l
}

/// The lines of a match in the default report.
pub fn match_lines(opts: &Options, m: &MatchRecord) -> (r: Vec<Line>)
    ensures
        lines_view(r@) == match_lines_spec(*opts, *m),
{
    let mut r: Vec<Line> = Vec::new();
    push_line(&mut r, head(m));
    if opts.verbose || opts.show_size || opts.hash || m.aliases.len() > 0 || opts.package
        || opts.version_info || opts.arch || opts.security || opts.libs {
        push_lines(&mut r, indent_all(extra_lines_exec(opts, m)));
    }
    assert(lines_view(r@) =~= match_lines_spec(*opts, *m));
    r
}

/// The lines of a shell construct with an expansion.
fn expansion_lines(e: &Option<String>, kind: &str) -> (r: Vec<Line>)
    ensures
        lines_view(r@) == expansion_part(*e, kind@),
{
    let mut r: Vec<Line> = Vec::new();
    if let Some(a) = e {
        push_line(&mut r, labeled_line(" └─ ", owned(kind), Style::Cyan));
        push_line(&mut r, plain_line(cat("    expands to: ", a.as_str())));
    }
    assert(lines_view(r@) =~= expansion_part(*e, kind@));
    r
}

/// The line of a shell construct without an expansion.
fn flag_lines(present: bool, kind: &str) -> (r: Vec<Line>)
    ensures
        lines_view(r@) == flag_part(present, kind@),
{
    let mut r: Vec<Line> = Vec::new();
    if present {
        push_line(&mut r, labeled_line(" └─ ", owned(kind), Style::Cyan));
    }
    assert(lines_view(r@) =~= flag_part(present, kind@));
    r
}

/// The lines of an environment variable.
fn env_lines(e: &Option<String>) -> (r: Vec<Line>)
    ensures
        lines_view(r@) == env_part(*e),
{
    let mut r: Vec<Line> = Vec::new();
    if let Some(v) = e {
        push_line(&mut r, labeled_line(" └─ ", owned("environment variable"), Style::Cyan));
        let chars = chars_of(v.as_str());
        let ghost head = lines_view(r@);
        if contains(&chars, &chars_of(":")) {
            let mut body: Vec<Line> = Vec::new();
            push_line(&mut body, plain_line(owned("    value:")));
            let parts = split_chars(&chars, ':');
            let ghost pv = parts.deep_view();
            for i in 0..parts.len()
                invariant
                    pv == parts.deep_view(),
                    pv == split_spec(v@, ':'),
                    lines_view(body@) == seq![plain("    value:"@)] + Seq::new(
                        i as nat,
                        |k: int| plain("      "@ + pv[k]),
                    ),
            {
                proof {
                    lemma_chars_deep_view(parts@[i as int]);
                }
                let p = string_of(&parts[i]);
                push_line(&mut body, plain_line(cat("      ", p.as_str())));
                assert(lines_view(body@) =~= seq![plain("    value:"@)] + Seq::new(
                    (i + 1) as nat,
                    |k: int| plain("      "@ + pv[k]),
                ));
            }
            push_lines(&mut r, body);
        } else {
            push_line(&mut r, plain_line(cat("    value: ", v.as_str())));
        }
    }
    assert(lines_view(r@) =~= env_part(*e));
    r
}

/// The lines describing what the shell knows about the name.
pub fn shell_lines(ctx: &ShellContext) -> (r: Vec<Line>)
    ensures
        lines_view(r@) == shell_lines_spec(*ctx),
{
    let mut r = expansion_lines(&ctx.alias, "shell alias");
    push_lines(&mut r, flag_lines(ctx.is_function, "shell function"));
    push_lines(&mut r, flag_lines(ctx.is_builtin, "shell builtin"));
    push_lines(&mut r, expansion_lines(&ctx.abbreviation, "shell abbreviation"));
    push_lines(&mut r, env_lines(&ctx.env_var));
    r
}

/// A check line of the resolution order.
fn check(present: bool, word: &str) -> (l: Line)
    ensures
        line_view(l) == check_line(present, word@),
{
    if present {
        labeled_line("✓ ", owned(word), Style::Green)
    } else {
        labeled_line("✗ ", owned(word), Style::Red)
    }
}

/// A plain line of a mark and a word.
fn mark_line(present: bool, word: &str) -> (l: Line)
    ensures
        line_view(l) == plain(mark(present) + word@),
{
    if present {
        plain_line(cat("✓", word))
    } else {
        plain_line(cat("✗", word))
    }
}

/// `a` + `b` + `c` + `d` + `e`.
fn cat5(a: &str, b: &str, c: &str, d: &str, e: &str) -> (s: String)
    ensures
        s@ == a@ + b@ + c@ + d@ + e@,
{
    let mut s = owned(a);
    s.append(b);
    s.append(c);
    s.append(d);
    s.append(e);
    s
}

/// The selected construct and the reasons for it.
fn explain_selected_lines(cmd: &str, r: &Resolution) -> (v: Vec<Line>)
    ensures
        lines_view(v@) == explain_selected(cmd@, *r),
{
    let mut v: Vec<Line> = Vec::new();
    match r {
        Resolution::Alias(a) => {
            push_line(&mut v, plain_line(cat5("alias ", cmd, "='", a.as_str(), "'")));
            push_line(&mut v, blank_line());
            push_line(&mut v, plain_line(owned("Reason:")));
            push_line(&mut v, plain_line(owned("Matched shell alias")));
        },
        Resolution::Function => {
            push_line(&mut v, plain_line(cat(cmd, " (function)")));
            push_line(&mut v, blank_line());
            push_line(&mut v, plain_line(owned("Reason:")));
            push_line(&mut v, plain_line(owned("No alias")));
            push_line(&mut v, plain_line(owned("Matched shell function")));
        },
        Resolution::Builtin => {
            push_line(&mut v, plain_line(cat(cmd, " (builtin)")));
            push_line(&mut v, blank_line());
            push_line(&mut v, plain_line(owned("Reason:")));
            push_line(&mut v, plain_line(owned("No alias")));
            push_line(&mut v, plain_line(owned("No function")));
            push_line(&mut v, plain_line(owned("Matched shell builtin")));
        },
        Resolution::Abbreviation(b) => {
            push_line(&mut v, plain_line(cat5("abbr ", cmd, "='", b.as_str(), "'")));
            push_line(&mut v, blank_line());
            push_line(&mut v, plain_line(owned("Reason:")));
            push_line(&mut v, plain_line(owned("Matched fish abbreviation")));
        },
        Resolution::EnvVar(x) => {
            push_line(&mut v, plain_line(cat5(cmd, "=", x.as_str(), "", "")));
            proof {
                reveal_strlit("");
            }
            push_line(&mut v, blank_line());
            push_line(&mut v, plain_line(owned("Reason:")));
            push_line(&mut v, plain_line(owned("Matched environment variable")));
        },
        Resolution::Executable(p) => {
            push_line(&mut v, plain_line(p.clone()));
            push_line(&mut v, blank_line());
            push_line(&mut v, plain_line(owned("Reason:")));
            push_line(&mut v, plain_line(owned("No alias")));
            push_line(&mut v, plain_line(owned("No function")));
            push_line(&mut v, plain_line(owned("Not a builtin")));
            push_line(&mut v, plain_line(owned("Executable found in PATH")));
        },
        Resolution::Unresolved => {},
    }
    assert(lines_view(v@) =~= explain_selected(cmd@, *r));
    v
}

/// The selected construct, as `--resolve` gives it.
fn result_selected_lines(cmd: &str, r: &Resolution) -> (v: Vec<Line>)
    ensures
        lines_view(v@) == result_selected(cmd@, *r),
{
    let mut v: Vec<Line> = Vec::new();
    match r {
        Resolution::Alias(a) => {
            push_line(&mut v, plain_line(cat5("alias ", cmd, "='", a.as_str(), "'")));
        },
        Resolution::Function => {
            push_line(&mut v, plain_line(cat("function ", cmd)));
        },
        Resolution::Builtin => {
            push_line(&mut v, plain_line(cat("builtin ", cmd)));
        },
        Resolution::Abbreviation(b) => {
            push_line(&mut v, plain_line(cat5("abbr ", cmd, "='", b.as_str(), "'")));
        },
        Resolution::EnvVar(x) => {
            push_line(&mut v, plain_line(cat5(cmd, "=", x.as_str(), "", "")));
            proof {
                reveal_strlit("");
            }
        },
        Resolution::Executable(p) => {
            push_line(&mut v, plain_line(p.clone()));
        },
        Resolution::Unresolved => {},
    }
    assert(lines_view(v@) =~= result_selected(cmd@, *r));
    v
}

/// Whether the shell is fish.
fn fish_shell(ctx: &ShellContext) -> (r: bool)
    ensures
        r == is_fish(*ctx),
{
    match &ctx.shell_name {
        Some(n) => crate::options::str_is(n.as_str(), "fish"),
        None => false,
    }
}

/// The resolution order, where `--resolve` asks for it.
fn order_lines(opts: &Options, ctx: &ShellContext, found: bool) -> (r: Vec<Line>)
    ensures
        lines_view(r@) == order_part(*opts, *ctx, found),
{
    let mut r: Vec<Line> = Vec::new();
    if opts.resolve {
        push_line(&mut r, plain_line(owned("Resolution order")));
        push_line(&mut r, blank_line());
        push_line(&mut r, check(ctx.alias.is_some(), "alias"));
        push_line(&mut r, check(ctx.is_function, "function"));
        push_line(&mut r, check(ctx.is_builtin, "builtin"));
        let ghost p1 = lines_view(r@);
        let mut mid: Vec<Line> = Vec::new();
        if ctx.abbreviation.is_some() {
            push_line(&mut mid, check(true, "abbreviation"));
        } else if fish_shell(ctx) {
            push_line(&mut mid, check(false, "abbreviation"));
        }
        assert(lines_view(mid@) =~= (if ctx.abbreviation is Some {
            seq![check_line(true, "abbreviation"@)]
        } else if is_fish(*ctx) {
            seq![check_line(false, "abbreviation"@)]
        } else {
            Seq::empty()
        }));
        push_lines(&mut r, mid);
        push_line(&mut r, check(ctx.env_var.is_some(), "env var"));
        push_line(&mut r, check(found, "executable"));
        push_line(&mut r, blank_line());
    }
    assert(lines_view(r@) =~= order_part(*opts, *ctx, found));
    r
}

/// The explanation or the result, where asked for.
fn selection_lines(opts: &Options, cmd: &str, ctx: &ShellContext, first: Option<&String>) -> (r: Vec<Line>)
    ensures
        lines_view(r@) == selection_part(
            *opts,
            cmd@,
            *ctx,
            match first {
                Some(p) => Some(*p),
                None => None,
            },
        ),
{
    let found = first.is_some();
    let sel = ctx.resolve(first);
    let mut r: Vec<Line> = Vec::new();
    if opts.explain {
        push_line(&mut r, plain_line(owned("Shell searched:")));
        push_line(&mut r, blank_line());
        push_line(&mut r, mark_line(ctx.alias.is_some(), " alias"));
        push_line(&mut r, mark_line(ctx.is_function, " function"));
        push_line(&mut r, mark_line(ctx.is_builtin, " builtin"));
        push_line(&mut r, mark_line(ctx.env_var.is_some(), " env var"));
        push_line(&mut r, mark_line(found, " PATH"));
        push_line(&mut r, blank_line());
        push_line(&mut r, plain_line(owned("Selected:")));
        push_lines(&mut r, explain_selected_lines(cmd, &sel));
        push_line(&mut r, blank_line());
    } else if opts.resolve {
        push_line(&mut r, plain_line(owned("Result:")));
        push_lines(&mut r, result_selected_lines(cmd, &sel));
        push_line(&mut r, blank_line());
    }
    assert(lines_view(r@) =~= selection_part(
        *opts,
        cmd@,
        *ctx,
        match first {
            Some(p) => Some(*p),
            None => None,
        },
    ));
    r
}

/// The resolution order and the explanation of a name, where asked for.
pub fn resolution_lines(
    opts: &Options,
    cmd: &str,
    ctx: &ShellContext,
    first: Option<&String>,
) -> (r: Vec<Line>)
    ensures
        lines_view(r@) == resolution_lines_spec(
            *opts,
            cmd@,
            *ctx,
            match first {
                Some(p) => Some(*p),
                None => None,
            },
        ),
{
    let mut r = order_lines(opts, ctx, first.is_some());
    push_lines(&mut r, selection_lines(opts, cmd, ctx, first));
    r
}

/// The default report of a command, given its matches and what the shell
/// knows; `first_cmd` tells whether it is the first command reported.
pub fn command_lines(
    opts: &Options,
    cmd: &str,
    ctx: &ShellContext,
    ms: &Vec<MatchRecord>,
    first_cmd: bool,
) -> (r: Vec<Line>)
    ensures
        lines_view(r@) == command_lines_spec(*opts, cmd@, *ctx, ms@, first_cmd),
{
    let mut r: Vec<Line> = Vec::new();
    if ms.len() == 0 && !ctx.is_found() {
        assert(lines_view(r@) =~= Seq::<LineView>::empty());
        return r;
    }
    if !first_cmd && !opts.why {
        push_line(&mut r, blank_line());
    }
    if !opts.why {
        push_line(&mut r, styled_line(owned(cmd), Style::Bold));
    }
    let first = if ms.len() > 0 {
        Some(&ms[0].path)
    } else {
        None
    };
    push_lines(&mut r, resolution_lines(opts, cmd, ctx, first));
    push_lines(&mut r, shell_lines(ctx));
    let ghost head = lines_view(r@);
    for i in 0..ms.len()
        invariant
            lines_view(r@) == head + all_match_lines(*opts, ms@.take(i as int)),
    {
        assert(ms@.take(i + 1).drop_last() == ms@.take(i as int));
        assert(ms@.take(i + 1).last() == ms@[i as int]);
        push_lines(&mut r, match_lines(opts, &ms[i]));
    }
    assert(ms@.take(ms.len() as int) == ms@);
    r
}

} // verus!
