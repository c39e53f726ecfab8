use where_cmd::shell::{Resolution, ShellContext, ShellEnv};

fn env_with(aliases: Option<&str>, functions: Option<&str>, builtins: Option<&str>, abbrs: Option<&str>) -> ShellEnv {
    ShellEnv {
        shell: Some("bash".to_string()),
        aliases: aliases.map(|s| s.to_string()),
        functions: functions.map(|s| s.to_string()),
        builtins: builtins.map(|s| s.to_string()),
        abbrs: abbrs.map(|s| s.to_string()),
    }
}

#[test]
fn bash_alias_is_unquoted() {
    let env = env_with(Some("alias la='ls -A'\nalias ll='ls -alF'"), None, None, None);
    let ctx = ShellContext::parse("ll", None, &env);
    assert_eq!(ctx.alias.as_deref(), Some("ls -alF"));
    assert!(ctx.is_found());
}

#[test]
fn zsh_and_fish_alias_forms() {
    let zsh = env_with(Some("ll='ls -l'"), None, None, None);
    assert_eq!(ShellContext::parse("ll", None, &zsh).alias.as_deref(), Some("ls -l"));
    let fish = env_with(Some("alias ll 'ls -l'"), None, None, None);
    assert_eq!(ShellContext::parse("ll", None, &fish).alias.as_deref(), Some("ls -l"));
    let dq = env_with(Some("alias g=\"git\""), None, None, None);
    assert_eq!(ShellContext::parse("g", None, &dq).alias.as_deref(), Some("git"));
}

#[test]
fn escaped_newlines_separate_lines() {
    let env = env_with(Some("alias la='ls -A'\\nalias ll='ls -l'"), None, None, None);
    assert_eq!(ShellContext::parse("ll", None, &env).alias.as_deref(), Some("ls -l"));
}

#[test]
fn alias_prefix_must_match_whole_name() {
    let env = env_with(Some("alias lll='ls'"), None, None, None);
    assert_eq!(ShellContext::parse("ll", None, &env).alias, None);
}

#[test]
fn functions_and_builtins_are_word_lists() {
    let env = env_with(None, Some("foo bar\\nbaz"), Some("cd\necho\tpwd"), None);
    let bar = ShellContext::parse("bar", None, &env);
    assert!(bar.is_function);
    assert!(!bar.is_builtin);
    let baz = ShellContext::parse("baz", None, &env);
    assert!(baz.is_function);
    let pwd = ShellContext::parse("pwd", None, &env);
    assert!(pwd.is_builtin);
    let ba = ShellContext::parse("ba", None, &env);
    assert!(!ba.is_function);
}

#[test]
fn fish_abbreviations() {
    let env = env_with(None, None, None, Some("abbr --add gco 'git checkout'\\nabbr --add gs git status"));
    assert_eq!(ShellContext::parse("gco", None, &env).abbreviation.as_deref(), Some("git checkout"));
    assert_eq!(ShellContext::parse("gs", None, &env).abbreviation.as_deref(), Some("git status"));
    assert_eq!(ShellContext::parse("git", None, &env).abbreviation, None);
}

#[test]
fn nothing_known_without_integration() {
    let env = ShellEnv { shell: None, aliases: None, functions: None, builtins: None, abbrs: None };
    let ctx = ShellContext::parse("ls", None, &env);
    assert!(!ctx.is_found());
    assert_eq!(ctx.shell_name, None);
    let with_var = ShellContext::parse("EDITOR", Some("vim".to_string()), &env);
    assert!(with_var.is_found());
    assert_eq!(with_var.env_var.as_deref(), Some("vim"));
}

#[test]
fn resolution_order() {
    let env = env_with(Some("alias ls='ls --color'"), Some("ls"), Some("ls"), None);
    let ctx = ShellContext::parse("ls", Some("x".to_string()), &env);
    let path = "/usr/bin/ls".to_string();
    assert!(matches!(ctx.resolve(Some(&path)), Resolution::Alias(a) if a == "ls --color"));

    let env = env_with(None, Some("f"), Some("f"), None);
    let ctx = ShellContext::parse("f", None, &env);
    assert!(matches!(ctx.resolve(Some(&path)), Resolution::Function));

    let env = env_with(None, None, Some("cd"), None);
    let ctx = ShellContext::parse("cd", None, &env);
    assert!(matches!(ctx.resolve(None), Resolution::Builtin));

    let env = env_with(None, None, None, None);
    let ctx = ShellContext::parse("ls", None, &env);
    assert!(matches!(ctx.resolve(Some(&path)), Resolution::Executable(p) if p == "/usr/bin/ls"));
    assert!(matches!(ctx.resolve(None), Resolution::Unresolved));

    let ctx = ShellContext::parse("HOME", Some("/root".to_string()), &env);
    assert!(matches!(ctx.resolve(Some(&path)), Resolution::EnvVar(v) if v == "/root"));
}
