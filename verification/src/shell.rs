//! What the user's shell knows about a command name: aliases, functions,
//! builtins, fish abbreviations and environment variables.
//!
//! The shell integration script exports these as text in `WHERE_*` variables;
//! this module reads that text.
use vstd::prelude::*;
use crate::text::{
    chars_eq, chars_of, concat, contains, contains_seq, join_from, join_spec, lemma_chars_deep_view,
    lines_of, lines_spec, string_of, strip_prefix, unescape_newlines, unescape_newlines_chars,
    unquote, unquote_chars, words_of, words_spec,
};

verus! {

/// The values of the variables that the shell integration exports, each
/// `None` where the variable is unset.
pub struct ShellEnv {
    /// `WHERE_SHELL`: the name of the shell.
    pub shell: Option<String>,
    /// `WHERE_ALIASES`: the output of `alias`.
    pub aliases: Option<String>,
    /// `WHERE_FUNCTIONS`: the names of shell functions.
    pub functions: Option<String>,
    /// `WHERE_BUILTINS`: the names of shell builtins.
    pub builtins: Option<String>,
    /// `WHERE_ABBRS`: the output of fish's `abbr --show`.
    pub abbrs: Option<String>,
}

/// What the shell knows about one command name.
pub struct ShellContext {
    /// The shell's name, where the integration reported one.
    pub shell_name: Option<String>,
    /// The alias's expansion, unquoted.
    pub alias: Option<String>,
    /// The name is a shell function.
    pub is_function: bool,
    /// The name is a shell builtin.
    pub is_builtin: bool,
    /// The fish abbreviation's expansion, unquoted.
    pub abbreviation: Option<String>,
    /// The value of the environment variable of that name.
    pub env_var: Option<String>,
}

/// How a command name resolves, in the shell's order of precedence.
pub enum Resolution {
    /// A shell alias, with its expansion.
    Alias(String),
    /// A shell function.
    Function,
    /// A shell builtin.
    Builtin,
    /// A fish abbreviation, with its expansion.
    Abbreviation(String),
    /// An environment variable, with its value.
    EnvVar(String),
    /// An executable file, with its path.
    Executable(String),
    /// Nothing of that name.
    Unresolved,
}

/// The view of an optional string.
pub open spec fn opt_view(o: Option<String>) -> Option<Seq<char>> {
    match o {
        Some(s) => Some(s@),
        None => None,
    }
}

/// The word `alias` followed by a space.
pub open spec fn alias_keyword() -> Seq<char> {
    seq!['a', 'l', 'i', 'a', 's', ' ']
}

/// The definition that one line of `alias` output gives to `cmd`: bash writes
/// `alias cmd='...'`, fish `alias cmd '...'`, zsh `cmd='...'`.
pub open spec fn line_alias(line: Seq<char>, cmd: Seq<char>) -> Option<Seq<char>> {
    let p1 = alias_keyword() + cmd + seq!['='];
    let p2 = alias_keyword() + cmd + seq![' '];
    let p3 = cmd + seq!['='];
    if p1.is_prefix_of(line) {
        Some(line.skip(p1.len() as int))
    } else if p2.is_prefix_of(line) {
        Some(line.skip(p2.len() as int))
    } else if p3.is_prefix_of(line) {
        Some(line.skip(p3.len() as int))
    } else {
        None
    }
}

/// The definition of `cmd` on the first line of `lines` that defines it.
pub open spec fn first_alias(lines: Seq<Seq<char>>, cmd: Seq<char>) -> Option<Seq<char>>
    decreases lines.len(),
{
    if lines.len() == 0 {
        None
    } else {
        match line_alias(lines[0], cmd) {
            Some(d) => Some(d),
            None => first_alias(lines.drop_first(), cmd),
        }
    }
}

/// The unquoted alias expansion of `cmd` that the `alias` output `text` gives.
pub open spec fn alias_spec(text: Option<Seq<char>>, cmd: Seq<char>) -> Option<Seq<char>> {
    match text {
        None => None,
        Some(t) => match first_alias(lines_spec(unescape_newlines(t)), cmd) {
            Some(d) => Some(unquote(d)),
            None => None,
        },
    }
}

/// `cmd` is one of the whitespace-separated names in `text`.
pub open spec fn listed(text: Option<Seq<char>>, cmd: Seq<char>) -> bool {
    match text {
        None => false,
        Some(t) => words_spec(unescape_newlines(t)).contains(cmd),
    }
}

/// The expansion that one line of `abbr --show` output (`abbr --add cmd '...'`)
/// gives to `cmd`: the line holds ` cmd `, has at least four words and its
/// third word is `cmd`; the expansion is the words from the fourth on.
pub open spec fn line_abbr(line: Seq<char>, cmd: Seq<char>) -> Option<Seq<char>> {
    let words = words_spec(line);
    if contains_seq(line, seq![' '] + cmd + seq![' ']) && words.len() >= 4 && words[2] == cmd {
        Some(unquote(join_spec(words.skip(3), seq![' '])))
    } else {
        None
    }
}

/// The expansion of `cmd` on the first line of `lines` that abbreviates it.
pub open spec fn first_abbr(lines: Seq<Seq<char>>, cmd: Seq<char>) -> Option<Seq<char>>
    decreases lines.len(),
{
    if lines.len() == 0 {
        None
    } else {
        match line_abbr(lines[0], cmd) {
            Some(d) => Some(d),
            None => first_abbr(lines.drop_first(), cmd),
        }
    }
}

/// The abbreviation of `cmd` that the `abbr --show` output `text` gives.
pub open spec fn abbr_spec(text: Option<Seq<char>>, cmd: Seq<char>) -> Option<Seq<char>> {
    match text {
        None => None,
        Some(t) => first_abbr(lines_spec(unescape_newlines(t)), cmd),
    }
}

impl ShellContext {
    /// The shell knows the name in some form.
    pub open spec fn found(&self) -> bool {
        ||| self.alias is Some
        ||| self.is_function
        ||| self.is_builtin
        ||| self.abbreviation is Some
        ||| self.env_var is Some
    }

    /// What the shell knows about `cmd`, read from the integration's variables in
    /// `env`; `cmd_value` is the value of the environment variable named `cmd`.
    pub fn parse(cmd: &str, cmd_value: Option<String>, env: &ShellEnv) -> (ctx: ShellContext)
        ensures
            ctx.env_var == cmd_value,
            ctx.shell_name == env.shell,
            opt_view(ctx.alias) == alias_spec(opt_view(env.aliases), cmd@),
            ctx.is_function == listed(opt_view(env.functions), cmd@),
            ctx.is_builtin == listed(opt_view(env.builtins), cmd@),
            opt_view(ctx.abbreviation) == abbr_spec(opt_view(env.abbrs), cmd@),
    {
        let name = chars_of(cmd);
        let alias = match &env.aliases {
            None => None,
            Some(t) => {
                let lines = lines_of(&unescape_newlines_chars(&chars_of(t.as_str())));
                match find_alias(&lines, &name) {
                    Some(d) => Some(string_of(&unquote_chars(&d))),
                    None => None,
                }
            },
        };
        let is_function = match &env.functions {
            None => false,
            Some(t) => is_listed(&unescape_newlines_chars(&chars_of(t.as_str())), &name),
        };
        let is_builtin = match &env.builtins {
            None => false,
            Some(t) => is_listed(&unescape_newlines_chars(&chars_of(t.as_str())), &name),
        };
        let abbreviation = match &env.abbrs {
            None => None,
            Some(t) => {
                let lines = lines_of(&unescape_newlines_chars(&chars_of(t.as_str())));
                match find_abbr(&lines, &name) {
                    Some(d) => Some(string_of(&d)),
                    None => None,
                }
            },
        };
        let shell_name = match &env.shell {
            None => None,
            Some(s) => Some(s.clone()),
        };
        ShellContext {
            shell_name,
            alias,
            is_function,
            is_builtin,
            abbreviation,
            env_var: cmd_value,
        }
    }

    /// Whether the shell knows the name in some form.
    pub fn is_found(&self) -> (r: bool)
        ensures
            r == self.found(),
    {
        self.alias.is_some() || self.is_function || self.is_builtin || self.abbreviation.is_some()
            || self.env_var.is_some()
    }

    /// What the name resolves to, given the first executable found (if any).
    pub open spec fn selection(&self, first_match: Option<String>) -> Resolution {
        if self.alias is Some {
            Resolution::Alias(self.alias->0)
        } else if self.is_function {
            Resolution::Function
        } else if self.is_builtin {
            Resolution::Builtin
        } else if self.abbreviation is Some {
            Resolution::Abbreviation(self.abbreviation->0)
        } else if self.env_var is Some {
            Resolution::EnvVar(self.env_var->0)
        } else if first_match is Some {
            Resolution::Executable(first_match->0)
        } else {
            Resolution::Unresolved
        }
    }

    /// What `cmd` resolves to: a shell alias first, then a function, a builtin,
    /// a fish abbreviation, an environment variable, and last the first
    /// executable found on the search path.
    pub fn resolve(&self, first_match: Option<&String>) -> (r: Resolution)
        ensures
            r == self.selection(
                match first_match {
                    Some(p) => Some(*p),
                    None => None,
                },
            ),
            self.alias matches Some(a) ==> r == Resolution::Alias(a),
            self.alias is None && self.is_function ==> r == Resolution::Function,
            self.alias is None && !self.is_function && self.is_builtin ==> r
                == Resolution::Builtin,
            self.alias is None && !self.is_function && !self.is_builtin
                && self.abbreviation is Some ==> r == Resolution::Abbreviation(
                self.abbreviation->0,
            ),
            self.alias is None && !self.is_function && !self.is_builtin
                && self.abbreviation is None && self.env_var is Some ==> r == Resolution::EnvVar(
                self.env_var->0,
            ),
            !self.found() && first_match is Some ==> r == Resolution::Executable(
                *first_match->0,
            ),
            !self.found() && first_match is None ==> r == Resolution::Unresolved,
    {
        if let Some(a) = &self.alias {
            Resolution::Alias(a.clone())
        } else if self.is_function {
            Resolution::Function
        } else if self.is_builtin {
            Resolution::Builtin
        } else if let Some(b) = &self.abbreviation {
            Resolution::Abbreviation(b.clone())
        } else if let Some(v) = &self.env_var {
            Resolution::EnvVar(v.clone())
        } else if let Some(p) = first_match {
            Resolution::Executable(p.clone())
        } else {
            Resolution::Unresolved
        }
    }
}

/// `prefix` followed by `cmd` followed by `suffix`.
fn framed(prefix: &Vec<char>, cmd: &Vec<char>, suffix: &Vec<char>) -> (r: Vec<char>)
    ensures
        r@ == prefix@ + cmd@ + suffix@,
{
    let r = concat(prefix, cmd);
    concat(&r, suffix)
}

/// The definition that one line of `alias` output gives to `cmd`.
fn alias_on_line(line: &Vec<char>, cmd: &Vec<char>) -> (r: Option<Vec<char>>)
    ensures
        r matches Some(d) ==> line_alias(line@, cmd@) == Some(d@),
        r is None ==> line_alias(line@, cmd@) is None,
{
    let keyword = vec!['a', 'l', 'i', 'a', 's', ' '];
    assert(keyword@ == alias_keyword());
    let equals = vec!['='];
    let space = vec![' '];
    assert(equals@ == seq!['=']);
    assert(space@ == seq![' ']);
    let p1 = framed(&keyword, cmd, &equals);
    let p2 = framed(&keyword, cmd, &space);
    let p3 = framed(&Vec::new(), cmd, &equals);
    assert(p3@ == cmd@ + seq!['=']);
    if let Some(d) = strip_prefix(line, &p1) {
        Some(d)
    } else if let Some(d) = strip_prefix(line, &p2) {
        Some(d)
    } else if let Some(d) = strip_prefix(line, &p3) {
        Some(d)
    } else {
        None
    }
}

/// The definition of `cmd` on the first line that defines it.
fn find_alias(lines: &Vec<Vec<char>>, cmd: &Vec<char>) -> (r: Option<Vec<char>>)
    ensures
        r matches Some(d) ==> first_alias(lines.deep_view(), cmd@) == Some(d@),
        r is None ==> first_alias(lines.deep_view(), cmd@) is None,
{
    assert(lines.deep_view().skip(0) == lines.deep_view());
    for i in 0..lines.len()
        invariant
            first_alias(lines.deep_view().skip(i as int), cmd@) == first_alias(
                lines.deep_view(),
                cmd@,
            ),
    {
        proof {
            lemma_chars_deep_view(lines@[i as int]);
        }
        let ghost rest = lines.deep_view().skip(i as int);
        assert(rest[0] == lines@[i as int]@);
        assert(rest.drop_first() == lines.deep_view().skip(i + 1));
        if let Some(d) = alias_on_line(&lines[i], cmd) {
            return Some(d);
        }
    }
    assert(lines.deep_view().skip(lines.len() as int) =~= Seq::<Seq<char>>::empty());
    None
}

/// Whether `cmd` is one of the whitespace-separated words of `text`.
fn is_listed(text: &Vec<char>, cmd: &Vec<char>) -> (r: bool)
    ensures
        r == words_spec(text@).contains(cmd@),
{
    let words = words_of(text);
    for i in 0..words.len()
        invariant
            words.deep_view() == words_spec(text@),
            forall|k: int| 0 <= k < i ==> words.deep_view()[k] != cmd@,
    {
        proof {
            lemma_chars_deep_view(words@[i as int]);
        }
        if chars_eq(&words[i], cmd) {
            assert(words.deep_view()[i as int] == cmd@);
            return true;
        }
    }
    false
}

/// The expansion that one line of `abbr --show` output gives to `cmd`.
fn abbr_on_line(line: &Vec<char>, cmd: &Vec<char>) -> (r: Option<Vec<char>>)
    ensures
        r matches Some(d) ==> line_abbr(line@, cmd@) == Some(d@),
        r is None ==> line_abbr(line@, cmd@) is None,
{
    let space = vec![' '];
    assert(space@ == seq![' ']);
    let needle = framed(&space, cmd, &space);
    if !contains(line, &needle) {
        return None;
    }
    let words = words_of(line);
    if words.len() < 4 {
        return None;
    }
    proof {
        lemma_chars_deep_view(words@[2]);
    }
    if !chars_eq(&words[2], cmd) {
        return None;
    }
    let joined = join_from(&words, 3, &space);
    Some(unquote_chars(&joined))
}

/// The expansion of `cmd` on the first line that abbreviates it.
fn find_abbr(lines: &Vec<Vec<char>>, cmd: &Vec<char>) -> (r: Option<Vec<char>>)
    ensures
        r matches Some(d) ==> first_abbr(lines.deep_view(), cmd@) == Some(d@),
        r is None ==> first_abbr(lines.deep_view(), cmd@) is None,
{
    assert(lines.deep_view().skip(0) == lines.deep_view());
    for i in 0..lines.len()
        invariant
            first_abbr(lines.deep_view().skip(i as int), cmd@) == first_abbr(
                lines.deep_view(),
                cmd@,
            ),
    {
        proof {
            lemma_chars_deep_view(lines@[i as int]);
        }
        let ghost rest = lines.deep_view().skip(i as int);
        assert(rest[0] == lines@[i as int]@);
        assert(rest.drop_first() == lines.deep_view().skip(i + 1));
        if let Some(d) = abbr_on_line(&lines[i], cmd) {
            return Some(d);
        }
    }
    assert(lines.deep_view().skip(lines.len() as int) =~= Seq::<Seq<char>>::empty());
    None
}

} // verus!
