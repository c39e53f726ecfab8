//! Small facts read from other programs and files: a program's version line,
//! the package that owns a file, and the shell integration (its scripts and
//! the lines added to the shells' startup files).
use vstd::prelude::*;
use crate::process::{ProcessOutput, decode_lossy, utf8_lossy};
use crate::text::{
    chars_of, contains, contains_seq, lines_of, lines_spec, occurs_at, owned, slice_chars,
    string_of, trim, trim_chars,
};

verus! {

/// The function that the bash integration defines.
pub const BASH_INIT: &'static str = "where() {\n    export WHERE_SHELL=\"bash\"\n    export WHERE_ALIASES=\"$(alias)\"\n    export WHERE_FUNCTIONS=\"$(declare -F | awk '{print $3}')\"\n    export WHERE_BUILTINS=\"$(compgen -b)\"\n    command where \"$@\"\n}";

/// The function that the zsh integration defines.
pub const ZSH_INIT: &'static str = "where() {\n    export WHERE_SHELL=\"zsh\"\n    export WHERE_ALIASES=\"$(alias)\"\n    export WHERE_FUNCTIONS=\"$(print -l ${(k)functions})\"\n    export WHERE_BUILTINS=\"$(print -l ${(k)builtins})\"\n    command where \"$@\"\n}";

/// The function that the fish integration defines.
pub const FISH_INIT: &'static str = "function where\n    set -lx WHERE_SHELL \"fish\"\n    set -lx WHERE_ALIASES (alias | string join \\\\n)\n    set -lx WHERE_FUNCTIONS (functions -n | string join \\\\n)\n    set -lx WHERE_BUILTINS (builtin -n | string join \\\\n)\n    set -lx WHERE_ABBRS (abbr --show | string join \\\\n)\n    command where $argv\nend";

/// The shells that the integration supports.
#[derive(Clone, Copy, PartialEq, Eq, Structural)]
pub enum Shell {
    Bash,
    Zsh,
    Fish,
}

/// The integration script for `shell`.
pub open spec fn init_text(shell: Shell) -> Seq<char> {
    match shell {
        Shell::Bash => BASH_INIT@,
        Shell::Zsh => ZSH_INIT@,
        Shell::Fish => FISH_INIT@,
    }
}

/// The message for a shell name the integration does not support.
pub open spec fn unsupported_shell(name: Seq<char>) -> Seq<char> {
    "Unsupported shell: "@ + name + ". Supported shells: bash, zsh, fish"@
}

/// Calls `String::from_utf8`: the text where the bytes are valid UTF-8.
#[verifier::external_body]
fn decode_strict(bytes: &[u8]) -> (r: Option<String>)
    ensures
        r is Some <==> vstd::utf8::valid_utf8(bytes@),
        r matches Some(s) ==> s@ == vstd::utf8::decode_utf8(bytes@),
{
    String::from_utf8(bytes.to_vec()).ok()
}

/// The text read from a stream into a string: its decoding where it is valid
/// UTF-8, nothing otherwise.
pub open spec fn read_text(bytes: Seq<u8>) -> Seq<char> {
    if vstd::utf8::valid_utf8(bytes) {
        vstd::utf8::decode_utf8(bytes)
    } else {
        Seq::empty()
    }
}

/// The text of a `--version` run: standard output, followed by standard error
/// where standard output is blank.
pub open spec fn version_text(stdout: Seq<u8>, stderr: Seq<u8>) -> Seq<char> {
    if trim(read_text(stdout)).len() == 0 {
        read_text(stdout) + read_text(stderr)
    } else {
        read_text(stdout)
    }
}

/// The version line of a successful `--version` run: the first line of its
/// text, trimmed, where the text is not blank.
pub open spec fn version_spec(out: ProcessOutput) -> Option<Seq<char>> {
    let t = version_text(out.stdout@, out.stderr@);
    if out.success && trim(t).len() > 0 {
        Some(trim(if lines_spec(t).len() > 0 { lines_spec(t)[0] } else { Seq::empty() }))
    } else {
        None
    }
}

/// The index of the first occurrence of `p` in `s`.
pub open spec fn find_seq(s: Seq<char>, p: Seq<char>) -> Option<int>
    decreases s.len(),
{
    if p.is_prefix_of(s) {
        Some(0)
    } else if s.len() == 0 {
        None
    } else {
        match find_seq(s.drop_first(), p) {
            Some(i) => Some(i + 1),
            None => None,
        }
    }
}

/// What `s.split(p).nth(1)` gives: the text between the first and the second
/// occurrence of `p` (or the end), where `p` occurs.
pub open spec fn second_piece(s: Seq<char>, p: Seq<char>) -> Option<Seq<char>> {
    match find_seq(s, p) {
        None => None,
        Some(i) => {
            let after = s.skip(i + p.len());
            match find_seq(after, p) {
                Some(j) => Some(after.take(j)),
                None => Some(after),
            }
        },
    }
}

/// The package that `pacman -Qo` names as the file's owner: the trimmed text
/// after `is owned by `, where the query succeeded.
pub open spec fn owner_spec(out: ProcessOutput) -> Option<Seq<char>> {
    if out.success {
        match second_piece(utf8_lossy(out.stdout@), "is owned by "@) {
            Some(p) => Some(trim(p)),
            None => None,
        }
    } else {
        None
    }
}

/// The version line of a finished `--version` run.
pub fn version_from_output(out: &ProcessOutput) -> (r: Option<String>)
    ensures
        r matches Some(v) ==> version_spec(*out) == Some(v@),
        r is None ==> version_spec(*out) is None,
{
    if !out.success {
        return None;
    }
    let mut text = match decode_strict(out.stdout.as_slice()) {
        Some(s) => chars_of(s.as_str()),
        None => Vec::new(),
    };
    assert(text@ == read_text(out.stdout@));
    if trim_chars(&text).len() == 0 {
        let err = match decode_strict(out.stderr.as_slice()) {
            Some(s) => chars_of(s.as_str()),
            None => Vec::new(),
        };
        text = crate::text::concat(&text, &err);
    }
    assert(text@ == version_text(out.stdout@, out.stderr@));
    if trim_chars(&text).len() == 0 {
        return None;
    }
    let lines = lines_of(&text);
    let first = if lines.len() > 0 {
        proof {
            crate::text::lemma_chars_deep_view(lines@[0]);
        }
        lines[0].clone()
    } else {
        Vec::new()
    };
    Some(string_of(&trim_chars(&first)))
}

/// The index of the first occurrence of `p` in `s` at or after `from`.
fn find_from(s: &Vec<char>, p: &Vec<char>, from: usize) -> (r: Option<usize>)
    requires
        from <= s.len(),
    ensures
        r matches Some(i) ==> from <= i && i + p@.len() <= s@.len() && find_seq(
            s@.skip(from as int),
            p@,
        ) == Some(i - from),
        r is None ==> find_seq(s@.skip(from as int), p@) is None,
{
    let mut i = from;
    while i <= s.len()
        invariant_except_break
            from <= i <= s.len(),
            find_seq(s@.skip(from as int), p@) == match find_seq(s@.skip(i as int), p@) {
                Some(k) => Some(k + (i - from)),
                None => None,
            },
        ensures
            from <= i <= s.len(),
            find_seq(s@.skip(from as int), p@) == match find_seq(s@.skip(i as int), p@) {
                Some(k) => Some(k + (i - from)),
                None => None,
            },
            p@.is_prefix_of(s@.skip(i as int)) || i == s.len(),
        decreases s.len() - i,
    {
        let hit = occurs_at(s, p, i);
        assert(hit == p@.is_prefix_of(s@.skip(i as int))) by {
            if i + p.len() <= s.len() {
                assert(s@.subrange(i as int, i + p.len()) == s@.skip(i as int).take(p.len() as int));
            }
        }
        if hit || i == s.len() {
            break;
        }
        assert(s@.skip(i as int).drop_first() == s@.skip(i + 1));
        i = i + 1;
    }
    let hit = occurs_at(s, p, i);
    assert(hit == p@.is_prefix_of(s@.skip(i as int))) by {
        if i + p.len() <= s.len() {
            assert(s@.subrange(i as int, i + p.len()) == s@.skip(i as int).take(p.len() as int));
        }
    }
    if hit {
        Some(i)
    } else {
        assert(s@.skip(i as int) =~= Seq::<char>::empty());
        None
    }
}

/// The text between the first and second occurrence of `p` in `s`.
fn second_piece_exec(s: &Vec<char>, p: &Vec<char>) -> (r: Option<Vec<char>>)
    ensures
        r matches Some(x) ==> second_piece(s@, p@) == Some(x@),
        r is None ==> second_piece(s@, p@) is None,
{
    assert(s@.skip(0) == s@);
    match find_from(s, p, 0) {
        None => None,
        Some(i) => {
            let plen = p.len();
            let slen = s.len();
            assert(i + plen <= slen);
            let start = i + plen;
            let after = slice_chars(s, start, s.len());
            assert(after@ == s@.skip(start as int));
            assert(after@.skip(0) == after@);
            match find_from(&after, p, 0) {
                Some(j) => Some(slice_chars(&after, 0, j)),
                None => Some(after),
            }
        },
    }
}

/// The package that owns a file, from the answer of `pacman -Qo`.
pub fn package_from_output(out: &ProcessOutput) -> (r: Option<String>)
    ensures
        r matches Some(v) ==> owner_spec(*out) == Some(v@),
        r is None ==> owner_spec(*out) is None,
{
    if !out.success {
        return None;
    }
    let text = decode_lossy(out.stdout.as_slice());
    let marker = chars_of("is owned by ");
    match second_piece_exec(&chars_of(text.as_str()), &marker) {
        Some(p) => Some(string_of(&trim_chars(&p))),
        None => None,
    }
}

/// The shell that `name` names, if the integration supports it.
pub fn shell_named(name: &str) -> (r: Option<Shell>)
    ensures
        r == shell_named_spec(name@),
{
    proof {
        reveal_strlit("bash");
        reveal_strlit("zsh");
        reveal_strlit("fish");
        assert("bash"@[0] == 'b' && "zsh"@[0] == 'z' && "fish"@[0] == 'f');
    }
    if crate::options::str_is(name, "bash") {
        Some(Shell::Bash)
    } else if crate::options::str_is(name, "zsh") {
        Some(Shell::Zsh)
    } else if crate::options::str_is(name, "fish") {
        Some(Shell::Fish)
    } else {
        None
    }
}

/// The integration script for the shell named `name`, or the message that
/// the shell is not supported.
pub fn init_script(name: &str) -> (r: Result<String, String>)
    ensures
        r matches Ok(s) ==> (shell_named_spec(name@) matches Some(sh) && s@ == init_text(sh)),
        shell_named_spec(name@) is Some ==> r is Ok,
        r matches Err(m) ==> shell_named_spec(name@) is None && m@ == unsupported_shell(name@),
{
    match shell_named(name) {
        Some(Shell::Bash) => Ok(owned(BASH_INIT)),
        Some(Shell::Zsh) => Ok(owned(ZSH_INIT)),
        Some(Shell::Fish) => Ok(owned(FISH_INIT)),
        None => {
            let mut m = owned("Unsupported shell: ");
            m.append(name);
            m.append(". Supported shells: bash, zsh, fish");
            Err(m)
        },
    }
}

/// The shell that a name names.
pub open spec fn shell_named_spec(name: Seq<char>) -> Option<Shell> {
    if name == "bash"@ {
        Some(Shell::Bash)
    } else if name == "zsh"@ {
        Some(Shell::Zsh)
    } else if name == "fish"@ {
        Some(Shell::Fish)
    } else {
        None
    }
}

/// A shell's startup file, relative to the home directory.
pub open spec fn rc_file(shell: Shell) -> Seq<char> {
    match shell {
        Shell::Bash => ".bashrc"@,
        Shell::Zsh => ".zshrc"@,
        Shell::Fish => ".config/fish/config.fish"@,
    }
}

/// The text whose presence in a startup file shows the integration is installed.
pub open spec fn hook_marker(shell: Shell) -> Seq<char> {
    match shell {
        Shell::Bash => "where --init bash"@,
        Shell::Zsh => "where --init zsh"@,
        Shell::Fish => "where --init fish"@,
    }
}

/// The lines appended to a startup file to install the integration.
pub open spec fn hook_lines(shell: Shell) -> Seq<char> {
    match shell {
        Shell::Bash => "\n# where shell integration\neval \"$(where --init bash)\"\n"@,
        Shell::Zsh => "\n# where shell integration\neval \"$(where --init zsh)\"\n"@,
        Shell::Fish => "\n# where shell integration\nwhere --init fish | source\n"@,
    }
}

/// The path of `shell`'s startup file under the home directory `home`, joined
/// as `Path::join` joins; `None` where the home directory is unknown (empty).
pub fn rc_path(home: &str, shell: Shell) -> (r: Option<String>)
    ensures
        home@.len() == 0 ==> r is None,
        home@.len() > 0 ==> (r matches Some(p) && p@ == home@ + (if home@.last() == '/' {
            Seq::empty()
        } else {
            seq!['/']
        }) + rc_file(shell)),
{
    let h = chars_of(home);
    if h.len() == 0 {
        return None;
    }
    let mut p = owned(home);
    if h[h.len() - 1] != '/' {
        p.append("/");
        proof {
            reveal_strlit("/");
        }
    }
    match shell {
        Shell::Bash => p.append(".bashrc"),
        Shell::Zsh => p.append(".zshrc"),
        Shell::Fish => p.append(".config/fish/config.fish"),
    }
    Some(p)
}

/// Whether the startup file with contents `content` still lacks the integration.
pub fn needs_hook(content: &str, shell: Shell) -> (r: bool)
    ensures
        r == !contains_seq(content@, hook_marker(shell)),
{
    let marker = match shell {
        Shell::Bash => chars_of("where --init bash"),
        Shell::Zsh => chars_of("where --init zsh"),
        Shell::Fish => chars_of("where --init fish"),
    };
    !contains(&chars_of(content), &marker)
}

/// The lines to append to `shell`'s startup file.
pub fn hook_text(shell: Shell) -> (r: String)
    ensures
        r@ == hook_lines(shell),
{
    match shell {
        Shell::Bash => owned("\n# where shell integration\neval \"$(where --init bash)\"\n"),
        Shell::Zsh => owned("\n# where shell integration\neval \"$(where --init zsh)\"\n"),
        Shell::Fish => owned("\n# where shell integration\nwhere --init fish | source\n"),
    }
}

/// Installing the integration is done once: a startup file to which the hook
/// lines were appended contains the marker, so it no longer needs the hook.
pub proof fn lemma_hook_installed_once(content: Seq<char>, shell: Shell)
    ensures
        contains_seq(content + hook_lines(shell), hook_marker(shell)),
{
    let t = content + hook_lines(shell);
    let m = hook_marker(shell);
    let at: int = match shell {
        Shell::Fish => 27,
        _ => 35,
    };
    reveal_strlit("\n# where shell integration\neval \"$(where --init bash)\"\n");
    reveal_strlit("\n# where shell integration\neval \"$(where --init zsh)\"\n");
    reveal_strlit("\n# where shell integration\nwhere --init fish | source\n");
    reveal_strlit("where --init bash");
    reveal_strlit("where --init zsh");
    reveal_strlit("where --init fish");
    assert(t.subrange(content.len() + at, content.len() + at + m.len()) =~= m);
}

/// What is appended to `shell`'s startup file with contents `content`: the
/// hook lines where the file lacks the integration, nothing otherwise.
pub open spec fn hook_addition_spec(shell: Shell, content: Seq<char>) -> Option<Seq<char>> {
    if contains_seq(content, hook_marker(shell)) {
        None
    } else {
        Some(hook_lines(shell))
    }
}

/// The text to append to `shell`'s startup file, whose contents are `content`:
/// the hook lines where the integration is missing, `None` where it is there.
pub fn hook_addition(content: &str, shell: Shell) -> (r: Option<String>)
    ensures
        match r {
            Some(t) => hook_addition_spec(shell, content@) == Some(t@),
            None => hook_addition_spec(shell, content@) is None,
        },
{
    if needs_hook(content, shell) {
        Some(hook_text(shell))
    } else {
        None
    }
}

/// Whether the notice about installed hooks is printed: some startup file was appended to.
pub fn hook_notice_due(appended: &Vec<bool>) -> (r: bool)
    ensures
        r == appended@.contains(true),
{
    for i in 0..appended.len()
        invariant
            forall|k: int| 0 <= k < i ==> !appended@[k],
    {
        if appended[i] {
            assert(appended@[i as int] == true);
            return true;
        }
    }
    false
}

/// A startup file: the shell it belongs to and its contents, `None` where it
/// does not exist or cannot be read.
pub open spec fn file_addition(f: (Shell, Option<Seq<char>>)) -> Option<Seq<char>> {
    match f.1 {
        Some(c) => hook_addition_spec(f.0, c),
        None => None,
    }
}

/// A startup file after the hooks were installed, every append succeeding.
pub open spec fn after_hook(f: (Shell, Option<Seq<char>>)) -> (Shell, Option<Seq<char>>) {
    match (f.1, file_addition(f)) {
        (Some(c), Some(a)) => (f.0, Some(c + a)),
        _ => f,
    }
}

/// The startup files after one installation run.
pub open spec fn hooks_run(files: Seq<(Shell, Option<Seq<char>>)>) -> Seq<(Shell, Option<Seq<char>>)> {
    files.map_values(|f: (Shell, Option<Seq<char>>)| after_hook(f))
}

/// Whether a run over `files` appends to some file, and so prints the notice.
pub open spec fn hooks_notice(files: Seq<(Shell, Option<Seq<char>>)>) -> bool {
    exists|i: int| 0 <= i < files.len() && (#[trigger] file_addition(files[i])) is Some
}

/// Installing the hooks settles at once: a run creates no file, only lets a
/// file grow, leaves a file that has the integration unchanged, and a second
/// run changes nothing and prints no notice.
pub proof fn lemma_hooks_settle(files: Seq<(Shell, Option<Seq<char>>)>)
    ensures
        hooks_run(files).len() == files.len(),
        forall|i: int|
            0 <= i < files.len() ==> (#[trigger] hooks_run(files)[i]).0 == files[i].0 && match files[i].1 {
                None => hooks_run(files)[i].1 is None,
                Some(c) => hooks_run(files)[i].1 matches Some(d) && c.is_prefix_of(d) && (
                contains_seq(c, hook_marker(files[i].0)) ==> d == c),
            },
        hooks_run(hooks_run(files)) == hooks_run(files),
        !hooks_notice(hooks_run(files)),
{
    let once = hooks_run(files);
    assert forall|i: int| 0 <= i < files.len() implies #[trigger] after_hook(once[i]) == once[i]
        && file_addition(once[i]) is None by {
        let f = files[i];
        if let Some(c) = f.1 {
            lemma_hook_installed_once(c, f.0);
        }
    }
    assert forall|i: int| 0 <= i < files.len() implies (#[trigger] once[i]).0 == files[i].0 && match files[i].1 {
        None => once[i].1 is None,
        Some(c) => once[i].1 matches Some(d) && c.is_prefix_of(d) && (contains_seq(
            c,
            hook_marker(files[i].0),
        ) ==> d == c),
    } by {
        if let Some(c) = files[i].1 {
            if !contains_seq(c, hook_marker(files[i].0)) {
                assert(c.is_prefix_of(c + hook_lines(files[i].0)));
            } else {
                assert(c.is_prefix_of(c));
            }
        }
    }
    assert(hooks_run(once) =~= once);
    if hooks_notice(once) {
        let i = choose|i: int| 0 <= i < once.len() && (#[trigger] file_addition(once[i])) is Some;
        assert(after_hook(once[i]) == once[i] && file_addition(once[i]) is None);
    }
}

/// The `pacman -Qo` query that asks which package owns `path`.
pub fn owner_query(path: &str) -> (r: (String, Vec<String>))
    ensures
        r.0@ == "pacman"@,
        r.1.deep_view() == seq!["-Qo"@, path@],
{
    let mut args: Vec<String> = Vec::new();
    args.push(owned("-Qo"));
    args.push(owned(path));
    assert(args.deep_view() =~= seq!["-Qo"@, path@]);
    (owned("pacman"), args)
}

/// `find_seq` finds `p` exactly where `s` contains it.
pub proof fn lemma_find_seq(s: Seq<char>, p: Seq<char>)
    ensures
        find_seq(s, p) is None <==> !contains_seq(s, p),
        find_seq(s, p) matches Some(i) ==> 0 <= i && i + p.len() <= s.len() && s.subrange(
            i,
            i + p.len(),
        ) == p,
    decreases s.len(),
{
    if p.is_prefix_of(s) {
        assert(s.subrange(0int, 0int + p.len()) =~= p);
        assert(contains_seq(s, p));
    } else if s.len() == 0 {
        if contains_seq(s, p) {
            let i = choose|i: int| 0 <= i && i + p.len() <= s.len() && #[trigger] s.subrange(i, i + p.len()) == p;
            assert(p.len() == 0);
            assert(p.is_prefix_of(s));
        }
    } else {
        let t = s.drop_first();
        lemma_find_seq(t, p);
        if contains_seq(t, p) {
            let i = choose|i: int| 0 <= i && i + p.len() <= t.len() && #[trigger] t.subrange(i, i + p.len()) == p;
            assert(s.subrange(i + 1, i + 1 + p.len()) =~= t.subrange(i, i + p.len()));
            assert(contains_seq(s, p));
        }
        if contains_seq(s, p) {
            let i = choose|i: int| 0 <= i && i + p.len() <= s.len() && #[trigger] s.subrange(i, i + p.len()) == p;
            if i == 0 {
                assert(s.subrange(0, p.len() as int) == p);
                assert(p.is_prefix_of(s));
            } else {
                assert(t.subrange(i - 1, i - 1 + p.len()) =~= s.subrange(i, i + p.len()));
                assert(contains_seq(t, p));
            }
        }
        if let Some(j) = find_seq(t, p) {
            assert(s.subrange(j + 1, j + 1 + p.len()) =~= t.subrange(j, j + p.len()));
        }
    }
}

/// No owning package comes back exactly when the query failed or its answer
/// lacks `is owned by `.
pub proof fn lemma_no_owner(out: ProcessOutput)
    ensures
        owner_spec(out) is None <==> (!out.success || !contains_seq(
            utf8_lossy(out.stdout@),
            "is owned by "@,
        )),
{
    lemma_find_seq(utf8_lossy(out.stdout@), "is owned by "@);
}

} // verus!
