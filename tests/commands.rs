use coal::codec::{decode_records, encode_records, escape_text, format_record, parse_record, unescape_text};
use coal::commands::{
    add_alias, delete, error_statement, load, new, remove_alias, render, setup, show_aliases,
    show_all, CoalError,
};
use coal::names::is_valid_con_name;
use coal::shell::{get_shell, Shell};

fn s(x: &str) -> String {
    x.to_string()
}

fn names(xs: &[&str]) -> Vec<String> {
    xs.iter().map(|x| x.to_string()).collect()
}

#[test]
fn scenario_work_container() {
    let sh = Shell::Bash;
    let first = setup(sh, &None);
    assert_eq!(render(&first), "export COAL_ACTIVE='NO CON';");
    let var = Some(s("NO CON"));
    let mut cons: Vec<String> = Vec::new();
    let out = new(sh, &var, &cons, "work", &None).unwrap();
    assert_eq!(render(&out), "export COAL_ACTIVE='work';");
    cons.push(s("work"));
    let mut file: Vec<String> = Vec::new();
    let var = Some(s("work"));
    let line = add_alias(&var, "gs", "git status", &Some(file.clone())).unwrap();
    assert_eq!(line, "alias gs=\"git status\"");
    file.push(line);
    let shown = show_aliases(&cons, "work", &Some(file.clone())).unwrap();
    assert!(render(&shown).contains("echo \"gs -> git status\""));
    let (kept, st) = remove_alias(&var, "gs", &Some(file.clone())).unwrap();
    assert!(kept.is_empty());
    assert_eq!(st, "unalias gs");
    assert!(render(&vec![st]).contains("unalias gs"));
}

#[test]
fn new_then_load_is_rejected() {
    let sh = Shell::Zsh;
    let out = new(sh, &Some(s("NO CON")), &Vec::new(), "proj.x-1_a", &None).unwrap();
    assert_eq!(out, names(&["export COAL_ACTIVE='proj.x-1_a'"]));
    let r = load(sh, &Some(s("proj.x-1_a")), &names(&["proj.x-1_a"]), "proj.x-1_a", &None, &Some(Vec::new()));
    let f = r.unwrap_err();
    assert_eq!(f.kind, CoalError::AlreadyLoaded);
    assert_eq!(f.message, "Container already loaded");
}

#[test]
fn new_then_show_marks_once() {
    let cons = names(&["a", "b"]);
    new(Shell::Bash, &Some(s("a")), &cons, "c", &Some(Vec::new())).unwrap();
    let after = names(&["a", "b", "c"]);
    let out = show_all(&Some(s("c")), &after);
    assert_eq!(
        out,
        names(&["echo 'a'", "echo 'b'", "echo 'c\\033[39m*\\033[39m'"])
    );
}

#[test]
fn new_rejects_bad_names() {
    let cons = names(&["x"]);
    for bad in ["", "a b", "a/b", "NO CON", "é"] {
        let f = new(Shell::Bash, &None, &cons, bad, &None).unwrap_err();
        assert_eq!(f.kind, CoalError::InvalidName);
    }
    let f = new(Shell::Bash, &None, &cons, "x", &None).unwrap_err();
    assert_eq!(f.kind, CoalError::AlreadyExists);
    assert_eq!(f.message, "Container x already exists.");
}

#[test]
fn name_grammar() {
    assert!(is_valid_con_name("Ab-_.09"));
    assert!(!is_valid_con_name("a\n"));
    assert!(!is_valid_con_name("a*"));
}

#[test]
fn load_switches_aliases() {
    let cons = names(&["one", "two"]);
    let cur = names(&["alias a=\"ls\"", "alias b=\"pwd\""]);
    let target = names(&["alias c=\"cd ..\""]);
    let out = load(Shell::Bash, &Some(s("one")), &cons, "two", &Some(cur), &Some(target)).unwrap();
    assert_eq!(
        render(&out),
        "unalias a;unalias b;export COAL_ACTIVE='two';alias c=\"cd ..\";"
    );
}

#[test]
fn load_from_sentinel_does_not_unalias() {
    let cons = names(&["two"]);
    let out = load(Shell::Tcsh, &Some(s("NO CON")), &cons, "two", &None, &Some(Vec::new())).unwrap();
    assert_eq!(out, names(&["setenv COAL_ACTIVE 'two'"]));
}

#[test]
fn load_missing_container_emits_nothing() {
    let f = load(Shell::Bash, &Some(s("one")), &names(&["one"]), "nope", &Some(Vec::new()), &None).unwrap_err();
    assert_eq!(f.kind, CoalError::NoSuchContainer);
    assert_eq!(f.message, "No such container: nope");
    assert_eq!(error_statement(&f.message), "echo 'Error: No such container: nope'");
}

#[test]
fn load_errors_on_unreadable_or_corrupt_files() {
    let cons = names(&["one", "two"]);
    let f = load(Shell::Bash, &Some(s("one")), &cons, "two", &None, &Some(Vec::new())).unwrap_err();
    assert_eq!(f.kind, CoalError::AliasAccess);
    let f = load(Shell::Bash, &Some(s("one")), &cons, "two", &Some(names(&["garbage"])), &Some(Vec::new())).unwrap_err();
    assert_eq!(f.kind, CoalError::InvalidAliasFile);
    assert_eq!(f.message, "Invalid alias file");
    let f = load(Shell::Bash, &None, &cons, "two", &None, &None).unwrap_err();
    assert_eq!(f.kind, CoalError::AliasAccess);
    assert_eq!(f.message, "Unable to access aliases");
}

#[test]
fn delete_active_unaliases_first() {
    let cons = names(&["w"]);
    let lines = names(&["alias gs=\"git status\"", "alias ll=\"ls -l\""]);
    let out = delete(Shell::Bash, &Some(s("w")), &cons, "w", &Some(lines)).unwrap();
    assert_eq!(
        out,
        names(&["unalias gs", "unalias ll", "export COAL_ACTIVE='NO CON'"])
    );
}

#[test]
fn delete_inactive_emits_nothing() {
    let cons = names(&["w", "y"]);
    let out = delete(Shell::Bash, &Some(s("w")), &cons, "y", &Some(names(&["alias a=\"b\""]))).unwrap();
    assert!(out.is_empty());
    let f = delete(Shell::Bash, &None, &cons, "z", &None).unwrap_err();
    assert_eq!(f.kind, CoalError::NoSuchContainer);
}

#[test]
fn add_twice_is_duplicate() {
    let var = Some(s("w"));
    let mut file = names(&["alias gst=\"git stash\""]);
    let line = add_alias(&var, "gs", "git status", &Some(file.clone())).unwrap();
    file.push(line);
    let f = add_alias(&var, "gs", "other", &Some(file.clone())).unwrap_err();
    assert_eq!(f.kind, CoalError::DuplicateAlias);
    assert_eq!(f.message, "Alias gs already exists");
    assert_eq!(file.iter().filter(|l| l.starts_with("alias gs=")).count(), 1);
}

#[test]
fn add_needs_active_container() {
    let f = add_alias(&None, "a", "b", &Some(Vec::new())).unwrap_err();
    assert_eq!(f.kind, CoalError::VarMissing);
    assert_eq!(f.message, "$COAL_ACTIVE does not exist. Rerun setup.");
    let f = add_alias(&Some(s("NO CON")), "a", "b", &Some(Vec::new())).unwrap_err();
    assert_eq!(f.kind, CoalError::NoActive);
    assert_eq!(f.message, "No alias container active.");
    let f = add_alias(&Some(s("w")), "a", "b", &None).unwrap_err();
    assert_eq!(f.kind, CoalError::AliasAccess);
}

#[test]
fn remove_uses_exact_names() {
    let var = Some(s("w"));
    let file = names(&["alias gst=\"git stash\"", "alias gs=\"git status\""]);
    let (kept, st) = remove_alias(&var, "gs", &Some(file.clone())).unwrap();
    assert_eq!(kept, names(&["alias gst=\"git stash\""]));
    assert_eq!(st, "unalias gs");
    let f = remove_alias(&var, "g", &Some(file)).unwrap_err();
    assert_eq!(f.kind, CoalError::NoSuchAlias);
    assert_eq!(f.message, "No such alias: g");
    let f = remove_alias(&Some(s("NO CON")), "g", &None).unwrap_err();
    assert_eq!(f.kind, CoalError::NoActive);
}

#[test]
fn show_escapes_quotes() {
    let cons = names(&["w"]);
    let line = format_record("say", "echo \"hi\"");
    assert_eq!(line, "alias say=\"echo \\\"hi\\\"\"");
    let out = show_aliases(&cons, "w", &Some(vec![line])).unwrap();
    assert_eq!(out, names(&["echo \"say -> echo \\\"hi\\\"\""]));
    let f = show_aliases(&cons, "v", &None).unwrap_err();
    assert_eq!(f.kind, CoalError::NoSuchContainer);
    let f = show_aliases(&cons, "w", &Some(names(&["alias x=unquoted"]))).unwrap_err();
    assert_eq!(f.kind, CoalError::InvalidAliasFile);
}

#[test]
fn codec_round_trip() {
    let records = vec![
        (s("a"), s("ls -la")),
        (s("q"), s("echo \"x\" \\ y")),
        (s("e"), s("")),
        (s("k"), s("a=b")),
    ];
    let lines = encode_records(&records);
    assert_eq!(lines[0], "alias a=\"ls -la\"");
    assert_eq!(lines[1], "alias q=\"echo \\\"x\\\" \\\\ y\"");
    assert_eq!(decode_records(&lines), Some(records));
}

#[test]
fn codec_rejects_malformed_lines() {
    assert_eq!(parse_record("alias =\"x\""), None);
    assert_eq!(parse_record("alias a=\"x"), None);
    assert_eq!(parse_record("alias a=\"x\"y\""), None);
    assert_eq!(parse_record("unalias a=\"x\""), None);
    assert_eq!(parse_record("alias a\"x\""), None);
    assert_eq!(parse_record("alias a=\"x\""), Some((s("a"), s("x"))));
}

#[test]
fn escaping() {
    assert_eq!(escape_text("a\"b\\c"), "a\\\"b\\\\c");
    assert_eq!(unescape_text("a\\\"b\\\\c"), Some(s("a\"b\\c")));
    assert_eq!(unescape_text("a\\"), None);
    assert_eq!(unescape_text("a\"b"), None);
}

#[test]
fn shell_syntax() {
    assert_eq!(Shell::Windows.setenv("K", "v"), "set K=v");
    assert_eq!(Shell::Tcsh.setenv("K", "v"), "setenv K 'v'");
    assert_eq!(Shell::Ksh.setenv("K", "v"), "export K='v'");
    assert_eq!(Shell::Bash.get_unset_function(), "unset -f");
}

#[test]
fn shell_detection() {
    assert_eq!(get_shell(true, Some("/bin/bash"), None, None, None), Shell::Windows);
    assert_eq!(get_shell(false, Some("/bin/bash"), Some("zsh"), None, None), Shell::Bash);
    assert_eq!(get_shell(false, None, Some("zsh"), None, None), Shell::Zsh);
    assert_eq!(get_shell(false, None, None, Some("/usr/bin/tcsh"), None), Shell::Tcsh);
    assert_eq!(get_shell(false, None, None, None, Some("/bin/ksh")), Shell::Ksh);
    assert_eq!(get_shell(false, None, None, None, Some("/bin/zsh")), Shell::Zsh);
    assert_eq!(get_shell(false, None, None, None, Some("/bin/fish")), Shell::Bash);
    assert_eq!(get_shell(false, None, None, None, None), Shell::Bash);
}

#[test]
fn setup_only_on_first_use() {
    assert_eq!(setup(Shell::Windows, &None), names(&["set COAL_ACTIVE=NO CON"]));
    assert!(setup(Shell::Bash, &Some(s("w"))).is_empty());
}
