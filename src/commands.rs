//! The commands on alias containers. Each one takes a snapshot of what it reads
//! (the active-container variable, the container names, the lines of an alias
//! file) and returns the shell statements to evaluate, or the failure that
//! aborts the invocation. The caller performs the file changes that a success
//! implies.

use vstd::prelude::*;
use crate::text::{concat2, concat3, str_eq};
use crate::shell::{Shell, setenv_text};
use crate::codec::{
    alias_prefix, decode, decode_records, drop_named, escape, escape_text, format_record,
    has_named, lines_view, contains_alias, opt_string_view, record_line, remove_by_name,
};
use crate::names::{NO_CON_ACTIVE, sentinel, valid_con_name, is_valid_con_name};

verus! {

/// The environment variable that holds the active container.
pub const COAL_VAR: &'static str = "COAL_ACTIVE";

/// Appended to the active container's name in listings.
pub const ACTIVE_MARKER: &'static str = "\\033[39m*\\033[39m";

/// Why a command fails.
#[derive(PartialEq, Eq, Structural, Clone, Copy, Debug)]
pub enum CoalError {
    InvalidName,
    AlreadyExists,
    NoSuchContainer,
    AlreadyLoaded,
    VarMissing,
    NoActive,
    DuplicateAlias,
    NoSuchAlias,
    AliasAccess,
    InvalidAliasFile,
}

/// A failed command: why, and the message shown to the user.
#[derive(Debug)]
pub struct Failure {
    pub kind: CoalError,
    pub message: String,
}

/// The message for failure `kind` of a command about `subject`.
pub open spec fn message_text(kind: CoalError, subject: Seq<char>) -> Seq<char> {
    match kind {
        CoalError::InvalidName =>
            "Not a valid container name. Only numbers, letters, period, underscore, and hyphen allowed."@,
        CoalError::AlreadyExists => "Container "@ + subject + " already exists."@,
        CoalError::NoSuchContainer => "No such container: "@ + subject,
        CoalError::AlreadyLoaded => "Container already loaded"@,
        CoalError::VarMissing => "$COAL_ACTIVE does not exist. Rerun setup."@,
        CoalError::NoActive => "No alias container active."@,
        CoalError::DuplicateAlias => "Alias "@ + subject + " already exists"@,
        CoalError::NoSuchAlias => "No such alias: "@ + subject,
        CoalError::AliasAccess => "Unable to access aliases"@,
        CoalError::InvalidAliasFile => "Invalid alias file"@,
    }
}

/// Builds the failure of kind `kind` for a command about `subject`.
pub fn fail(kind: CoalError, subject: &str) -> (f: Failure)
    ensures
        f.kind == kind,
        f.message@ == message_text(kind, subject@),
{
    let message = match kind {
        CoalError::InvalidName => String::from_str(
            "Not a valid container name. Only numbers, letters, period, underscore, and hyphen allowed.",
        ),
        CoalError::AlreadyExists => concat3("Container ", subject, " already exists."),
        CoalError::NoSuchContainer => concat2("No such container: ", subject),
        CoalError::AlreadyLoaded => String::from_str("Container already loaded"),
        CoalError::VarMissing => String::from_str("$COAL_ACTIVE does not exist. Rerun setup."),
        CoalError::NoActive => String::from_str("No alias container active."),
        CoalError::DuplicateAlias => concat3("Alias ", subject, " already exists"),
        CoalError::NoSuchAlias => concat2("No such alias: ", subject),
        CoalError::AliasAccess => String::from_str("Unable to access aliases"),
        CoalError::InvalidAliasFile => String::from_str("Invalid alias file"),
    };
    Failure { kind, message }
}

/// The statement that reports a failure with message `msg`.
pub open spec fn error_text(msg: Seq<char>) -> Seq<char> {
    "echo 'Error: "@ + msg + "'"@
}

/// Returns the statement that reports a failure with message `msg`.
pub fn error_statement(msg: &str) -> (r: String)
    ensures
        r@ == error_text(msg@),
{
    concat3("echo 'Error: ", msg, "'")
}

pub open spec fn opt_lines_view(o: Option<Vec<String>>) -> Option<Seq<Seq<char>>> {
    match o {
        Some(v) => Some(lines_view(v@)),
        None => None,
    }
}

pub open spec fn out_view(r: Result<Vec<String>, Failure>) -> Result<Seq<Seq<char>>, CoalError> {
    match r {
        Ok(v) => Ok(lines_view(v@)),
        Err(f) => Err(f.kind),
    }
}

/// A failure, if any, carries the message of its kind for `subject`.
pub open spec fn fails_with<T>(r: Result<T, Failure>, subject: Seq<char>) -> bool {
    match r {
        Ok(_) => true,
        Err(f) => f.message@ == message_text(f.kind, subject),
    }
}

/// The statement that asks the shell to set the active-container variable to `v`.
pub open spec fn set_var_stmt(sh: Shell, v: Seq<char>) -> Seq<char> {
    setenv_text(sh, COAL_VAR@, v)
}

pub open spec fn unalias_stmt(n: Seq<char>) -> Seq<char> {
    "unalias "@ + n
}

/// The statements that undefine every alias of a file, in file order.
pub open spec fn unalias_all_spec(lines: Option<Seq<Seq<char>>>) -> Result<Seq<Seq<char>>, CoalError> {
    match lines {
        None => Err(CoalError::AliasAccess),
        Some(ls) => match decode(ls) {
            None => Err(CoalError::InvalidAliasFile),
            Some(rs) => Ok(rs.map_values(|p: (Seq<char>, Seq<char>)| unalias_stmt(p.0))),
        },
    }
}

/// What `load` emits: unalias the active container's aliases (where some other
/// container is active), set the variable, define the new container's aliases.
pub open spec fn load_spec(
    sh: Shell,
    var: Option<Seq<char>>,
    cons: Seq<Seq<char>>,
    con: Seq<char>,
    cur: Option<Seq<Seq<char>>>,
    target: Option<Seq<Seq<char>>>,
) -> Result<Seq<Seq<char>>, CoalError> {
    if !cons.contains(con) {
        Err(CoalError::NoSuchContainer)
    } else if var == Some(con) {
        Err(CoalError::AlreadyLoaded)
    } else {
        let pre = match var {
            Some(v) => if v != sentinel() {
                unalias_all_spec(cur)
            } else {
                Ok(seq![])
            },
            None => Ok(seq![]),
        };
        match pre {
            Err(e) => Err(e),
            Ok(u) => match target {
                None => Err(CoalError::AliasAccess),
                Some(t) => Ok(u.push(set_var_stmt(sh, con)) + t),
            },
        }
    }
}

/// What `new` emits: where the name is valid and free, what loading the new,
/// empty container emits.
pub open spec fn new_spec(
    sh: Shell,
    var: Option<Seq<char>>,
    cons: Seq<Seq<char>>,
    con: Seq<char>,
    cur: Option<Seq<Seq<char>>>,
) -> Result<Seq<Seq<char>>, CoalError> {
    if !valid_con_name(con) {
        Err(CoalError::InvalidName)
    } else if cons.contains(con) {
        Err(CoalError::AlreadyExists)
    } else {
        load_spec(sh, var, cons.push(con), con, cur, Some(seq![]))
    }
}

/// What `delete` emits before the container is removed: where it is the active
/// one, unalias its aliases and reset the variable to the sentinel.
pub open spec fn delete_spec(
    sh: Shell,
    var: Option<Seq<char>>,
    cons: Seq<Seq<char>>,
    con: Seq<char>,
    lines: Option<Seq<Seq<char>>>,
) -> Result<Seq<Seq<char>>, CoalError> {
    if !cons.contains(con) {
        Err(CoalError::NoSuchContainer)
    } else if var == Some(con) {
        match unalias_all_spec(lines) {
            Err(e) => Err(e),
            Ok(u) => Ok(u.push(set_var_stmt(sh, sentinel()))),
        }
    } else {
        Ok(seq![])
    }
}

/// The listing line of container `c`.
pub open spec fn echo_con(c: Seq<char>, active: bool) -> Seq<char> {
    if active {
        "echo '"@ + c + ACTIVE_MARKER@ + "'"@
    } else {
        "echo '"@ + c + "'"@
    }
}

/// One listing line per container, in the order given, the active one marked.
pub open spec fn show_all_spec(var: Option<Seq<char>>, cons: Seq<Seq<char>>) -> Seq<Seq<char>> {
    cons.map_values(|c: Seq<char>| echo_con(c, var == Some(c)))
}

/// The line that shows alias `n` for command `c`.
pub open spec fn show_line(n: Seq<char>, c: Seq<char>) -> Seq<char> {
    "echo \""@ + n + " -> "@ + escape(c) + "\""@
}

/// One line per alias record of container `con`, in file order.
pub open spec fn show_aliases_spec(
    cons: Seq<Seq<char>>,
    con: Seq<char>,
    lines: Option<Seq<Seq<char>>>,
) -> Result<Seq<Seq<char>>, CoalError> {
    if !cons.contains(con) {
        Err(CoalError::NoSuchContainer)
    } else {
        match lines {
            None => Err(CoalError::AliasAccess),
            Some(ls) => match decode(ls) {
                None => Err(CoalError::InvalidAliasFile),
                Some(rs) => Ok(rs.map_values(|p: (Seq<char>, Seq<char>)| show_line(p.0, p.1))),
            },
        }
    }
}

/// The failure, if any, of a command that needs an active container.
pub open spec fn active_check(var: Option<Seq<char>>) -> Option<CoalError> {
    match var {
        None => Some(CoalError::VarMissing),
        Some(v) => if v == sentinel() {
            Some(CoalError::NoActive)
        } else {
            None
        },
    }
}

/// What `add` yields: the record line that is appended to the active
/// container's file and emitted as the statement that defines the alias.
pub open spec fn add_spec(
    var: Option<Seq<char>>,
    alias: Seq<char>,
    command: Seq<char>,
    lines: Option<Seq<Seq<char>>>,
) -> Result<Seq<char>, CoalError> {
    match active_check(var) {
        Some(e) => Err(e),
        None => match lines {
            None => Err(CoalError::AliasAccess),
            Some(ls) => if has_named(ls, alias) {
                Err(CoalError::DuplicateAlias)
            } else {
                Ok(record_line(alias, command))
            },
        },
    }
}

/// What `remove` yields: the new lines of the active container's file and the
/// statement that undefines the alias.
pub open spec fn remove_spec(
    var: Option<Seq<char>>,
    alias: Seq<char>,
    lines: Option<Seq<Seq<char>>>,
) -> Result<(Seq<Seq<char>>, Seq<char>), CoalError> {
    match active_check(var) {
        Some(e) => Err(e),
        None => match lines {
            None => Err(CoalError::AliasAccess),
            Some(ls) => if !has_named(ls, alias) {
                Err(CoalError::NoSuchAlias)
            } else {
                Ok((drop_named(ls, alias), unalias_stmt(alias)))
            },
        },
    }
}

/// What setup emits: the sentinel assignment where the variable is unset.
pub open spec fn setup_spec(sh: Shell, var: Option<Seq<char>>) -> Seq<Seq<char>> {
    if var is None {
        seq![set_var_stmt(sh, sentinel())]
    } else {
        seq![]
    }
}

/// The output line: every statement followed by `;`.
pub open spec fn render_spec(stmts: Seq<Seq<char>>) -> Seq<char>
    decreases stmts.len(),
{
    if stmts.len() == 0 {
        seq![]
    } else {
        render_spec(stmts.drop_last()) + stmts.last() + ";"@
    }
}

/// Whether `name` is among `names`.
fn contains_name(names: &Vec<String>, name: &str) -> (r: bool)
    ensures
        r == lines_view(names@).contains(name@),
{
    let ghost ns = lines_view(names@);
    let mut i: usize = 0;
    while i < names.len()
        invariant
            i <= names@.len(),
            ns == lines_view(names@),
            forall|j: int| 0 <= j < i ==> ns[j] != name@,
        decreases names@.len() - i,
    {
        if str_eq(names[i].as_str(), name) {
            assert(ns[i as int] == name@);
            return true;
        }
        i = i + 1;
    }
    false
}

/// Appends copies of `more` to `out`.
fn append_lines(out: &mut Vec<String>, more: &Vec<String>)
    ensures
        lines_view(final(out)@) == lines_view(old(out)@) + lines_view(more@),
{
    let mut i: usize = 0;
    while i < more.len()
        invariant
            i <= more@.len(),
            lines_view(out@) == lines_view(old(out)@) + lines_view(more@).subrange(0, i as int),
        decreases more@.len() - i,
    {
        let ghost prev = out@;
        let l = String::from_str(more[i].as_str());
        out.push(l);
        assert(lines_view(out@) =~= lines_view(prev).push(more@[i as int]@));
        assert(lines_view(more@).subrange(0, i + 1) =~= lines_view(more@).subrange(0, i as int).push(
            more@[i as int]@,
        ));
        i = i + 1;
    }
    assert(lines_view(more@).subrange(0, i as int) =~= lines_view(more@));
}

/// Returns the statement that sets the active-container variable to `status`.
pub fn set_alias_var(shell: Shell, status: &str) -> (r: String)
    ensures
        r@ == set_var_stmt(shell, status@),
{
    shell.setenv(COAL_VAR, status)
}

/// Returns the statements that undefine every alias stored in `lines`.
pub fn unalias_all(lines: &Option<Vec<String>>) -> (r: Result<Vec<String>, Failure>)
    ensures
        out_view(r) == unalias_all_spec(opt_lines_view(*lines)),
        r is Err ==> (r->Err_0.kind == CoalError::AliasAccess || r->Err_0.kind
            == CoalError::InvalidAliasFile),
        fails_with(r, seq![]),
{
    match lines {
        None => Err(fail(CoalError::AliasAccess, "")),
        Some(ls) => match decode_records(ls) {
            None => Err(fail(CoalError::InvalidAliasFile, "")),
            Some(rs) => {
                let ghost target = crate::codec::records_view(rs@).map_values(
                    |p: (Seq<char>, Seq<char>)| unalias_stmt(p.0),
                );
                let mut out: Vec<String> = Vec::new();
                let mut i: usize = 0;
                while i < rs.len()
                    invariant
                        i <= rs@.len(),
                        target.len() == rs@.len(),
                        target == crate::codec::records_view(rs@).map_values(
                            |p: (Seq<char>, Seq<char>)| unalias_stmt(p.0),
                        ),
                        lines_view(out@) =~= target.subrange(0, i as int),
                    decreases rs@.len() - i,
                {
                    let st = concat2("unalias ", rs[i].0.as_str());
                    assert(target[i as int] == st@);
                    let ghost prev = out@;
                    out.push(st);
                    assert(lines_view(out@) =~= lines_view(prev).push(st@));
                    assert(target.subrange(0, i + 1) =~= target.subrange(0, i as int).push(st@));
                    i = i + 1;
                }
                assert(target.subrange(0, i as int) =~= target);
                Ok(out)
            },
        },
    }
}

proof fn lemma_subject_free(k: CoalError, a: Seq<char>, b: Seq<char>)
    requires
        k == CoalError::AliasAccess || k == CoalError::InvalidAliasFile,
    ensures
        message_text(k, a) == message_text(k, b),
{
}

/// Switches to container `con`: `var` is the active-container variable, `cons`
/// the existing containers, `cur` the lines of the active container's alias
/// file and `target` those of `con`'s (`None` where a file cannot be read).
/// A missing container fails before any statement is produced.
pub fn load(
    shell: Shell,
    var: &Option<String>,
    cons: &Vec<String>,
    con: &str,
    cur: &Option<Vec<String>>,
    target: &Option<Vec<String>>,
) -> (r: Result<Vec<String>, Failure>)
    ensures
        out_view(r) == load_spec(
            shell,
            opt_string_view(*var),
            lines_view(cons@),
            con@,
            opt_lines_view(*cur),
            opt_lines_view(*target),
        ),
        !lines_view(cons@).contains(con@) ==> (r matches Err(f) && f.kind
            == CoalError::NoSuchContainer),
        fails_with(r, con@),
{
    if !contains_name(cons, con) {
        return Err(fail(CoalError::NoSuchContainer, con));
    }
    let mut out: Vec<String> = Vec::new();
    assert(lines_view(out@) =~= Seq::<Seq<char>>::empty());
    match var {
        Some(v) => {
            if str_eq(v.as_str(), con) {
                return Err(fail(CoalError::AlreadyLoaded, con));
            }
            if !str_eq(v.as_str(), NO_CON_ACTIVE) {
                match unalias_all(cur) {
                    Ok(u) => {
                        out = u;
                    },
                    Err(e) => {
                        proof {
                            lemma_subject_free(e.kind, seq![], con@);
                        }
                        return Err(e);
                    },
                }
            }
        },
        None => {},
    }
    let ghost u = lines_view(out@);
    let st = set_alias_var(shell, con);
    out.push(st);
    assert(lines_view(out@) =~= u.push(st@));
    match target {
        None => Err(fail(CoalError::AliasAccess, con)),
        Some(t) => {
            append_lines(&mut out, t);
            Ok(out)
        },
    }
}

/// Creates container `con` and switches to it. On success the caller creates
/// the container's directory and empty alias file, then emits the statements.
pub fn new(
    shell: Shell,
    var: &Option<String>,
    cons: &Vec<String>,
    con: &str,
    cur: &Option<Vec<String>>,
) -> (r: Result<Vec<String>, Failure>)
    ensures
        out_view(r) == new_spec(
            shell,
            opt_string_view(*var),
            lines_view(cons@),
            con@,
            opt_lines_view(*cur),
        ),
        fails_with(r, con@),
{
    if !is_valid_con_name(con) {
        return Err(fail(CoalError::InvalidName, con));
    }
    if contains_name(cons, con) {
        return Err(fail(CoalError::AlreadyExists, con));
    }
    let mut with_new: Vec<String> = Vec::new();
    append_lines(&mut with_new, cons);
    let ghost before = lines_view(with_new@);
    with_new.push(String::from_str(con));
    assert(lines_view(with_new@) =~= lines_view(cons@).push(con@));
    let empty: Vec<String> = Vec::new();
    assert(lines_view(empty@) =~= Seq::<Seq<char>>::empty());
    load(shell, var, &with_new, con, cur, &Some(empty))
}

/// Deletes container `con`; `lines` are those of its alias file. On success the
/// caller removes the container's directory after emitting the statements.
pub fn delete(
    shell: Shell,
    var: &Option<String>,
    cons: &Vec<String>,
    con: &str,
    lines: &Option<Vec<String>>,
) -> (r: Result<Vec<String>, Failure>)
    ensures
        out_view(r) == delete_spec(
            shell,
            opt_string_view(*var),
            lines_view(cons@),
            con@,
            opt_lines_view(*lines),
        ),
        fails_with(r, con@),
{
    if !contains_name(cons, con) {
        return Err(fail(CoalError::NoSuchContainer, con));
    }
    let active = match var {
        Some(v) => str_eq(v.as_str(), con),
        None => false,
    };
    if active {
        match unalias_all(lines) {
            Ok(u) => {
                let mut out = u;
                let ghost prev = lines_view(out@);
                let st = set_alias_var(shell, NO_CON_ACTIVE);
                out.push(st);
                assert(lines_view(out@) =~= prev.push(st@));
                Ok(out)
            },
            Err(e) => {
                proof {
                    lemma_subject_free(e.kind, seq![], con@);
                }
                Err(e)
            },
        }
    } else {
        let out: Vec<String> = Vec::new();
        assert(lines_view(out@) =~= Seq::<Seq<char>>::empty());
        Ok(out)
    }
}

/// Lists the containers `cons`, one `echo` per container, the active one marked.
pub fn show_all(var: &Option<String>, cons: &Vec<String>) -> (r: Vec<String>)
    ensures
        lines_view(r@) == show_all_spec(opt_string_view(*var), lines_view(cons@)),
{
    let ghost target = show_all_spec(opt_string_view(*var), lines_view(cons@));
    let mut out: Vec<String> = Vec::new();
    let mut i: usize = 0;
    while i < cons.len()
        invariant
            i <= cons@.len(),
            target == show_all_spec(opt_string_view(*var), lines_view(cons@)),
            lines_view(out@) =~= target.subrange(0, i as int),
        decreases cons@.len() - i,
    {
        let c = cons[i].as_str();
        let active = match var {
            Some(v) => str_eq(v.as_str(), c),
            None => false,
        };
        let mut st = concat2("echo '", c);
        if active {
            st.append(ACTIVE_MARKER);
        }
        st.append("'");
        assert(target[i as int] == st@);
        let ghost prev = out@;
        out.push(st);
        assert(lines_view(out@) =~= lines_view(prev).push(st@));
        assert(target.subrange(0, i + 1) =~= target.subrange(0, i as int).push(st@));
        i = i + 1;
    }
    assert(target.subrange(0, i as int) =~= target);
    out
}

/// Shows the aliases of container `con`, whose alias file holds `lines`: one
/// `echo "NAME -> COMMAND"` per record, with the command's quotes escaped.
pub fn show_aliases(cons: &Vec<String>, con: &str, lines: &Option<Vec<String>>) -> (r: Result<
    Vec<String>,
    Failure,
>)
    ensures
        out_view(r) == show_aliases_spec(lines_view(cons@), con@, opt_lines_view(*lines)),
        fails_with(r, con@),
{
    if !contains_name(cons, con) {
        return Err(fail(CoalError::NoSuchContainer, con));
    }
    match lines {
        None => Err(fail(CoalError::AliasAccess, con)),
        Some(ls) => match decode_records(ls) {
            None => Err(fail(CoalError::InvalidAliasFile, con)),
            Some(rs) => {
                let ghost target = crate::codec::records_view(rs@).map_values(
                    |p: (Seq<char>, Seq<char>)| show_line(p.0, p.1),
                );
                let mut out: Vec<String> = Vec::new();
                let mut i: usize = 0;
                while i < rs.len()
                    invariant
                        i <= rs@.len(),
                        target == crate::codec::records_view(rs@).map_values(
                            |p: (Seq<char>, Seq<char>)| show_line(p.0, p.1),
                        ),
                        lines_view(out@) =~= target.subrange(0, i as int),
                    decreases rs@.len() - i,
                {
                    let e = escape_text(rs[i].1.as_str());
                    let mut st = concat3("echo \"", rs[i].0.as_str(), " -> ");
                    st.append(e.as_str());
                    st.append("\"");
                    assert(target[i as int] == st@);
                    let ghost prev = out@;
                    out.push(st);
                    assert(lines_view(out@) =~= lines_view(prev).push(st@));
                    assert(target.subrange(0, i + 1) =~= target.subrange(0, i as int).push(st@));
                    i = i + 1;
                }
                assert(target.subrange(0, i as int) =~= target);
                Ok(out)
            },
        },
    }
}

/// Fails unless some container is active.
fn require_active(var: &Option<String>) -> (r: Option<CoalError>)
    ensures
        r == active_check(opt_string_view(*var)),
{
    match var {
        None => Some(CoalError::VarMissing),
        Some(v) => if str_eq(v.as_str(), NO_CON_ACTIVE) {
            Some(CoalError::NoActive)
        } else {
            None
        },
    }
}

pub open spec fn str_res_view(r: Result<String, Failure>) -> Result<Seq<char>, CoalError> {
    match r {
        Ok(s) => Ok(s@),
        Err(f) => Err(f.kind),
    }
}

/// Adds alias `alias` for `command` to the active container, whose alias file
/// holds `lines`. On success the caller appends the returned line to that file
/// and emits it as the statement that defines the alias.
pub fn add_alias(var: &Option<String>, alias: &str, command: &str, lines: &Option<Vec<String>>) -> (r:
    Result<String, Failure>)
    ensures
        str_res_view(r) == add_spec(opt_string_view(*var), alias@, command@, opt_lines_view(*lines)),
        fails_with(r, alias@),
{
    if let Some(k) = require_active(var) {
        return Err(fail(k, alias));
    }
    match lines {
        None => Err(fail(CoalError::AliasAccess, alias)),
        Some(ls) => if contains_alias(ls, alias) {
            Err(fail(CoalError::DuplicateAlias, alias))
        } else {
            Ok(format_record(alias, command))
        },
    }
}

pub open spec fn remove_res_view(r: Result<(Vec<String>, String), Failure>) -> Result<
    (Seq<Seq<char>>, Seq<char>),
    CoalError,
> {
    match r {
        Ok(p) => Ok((lines_view(p.0@), p.1@)),
        Err(f) => Err(f.kind),
    }
}

/// Removes alias `alias` from the active container, whose alias file holds
/// `lines`. On success the caller rewrites that file with the returned lines
/// and emits the returned statement.
pub fn remove_alias(var: &Option<String>, alias: &str, lines: &Option<Vec<String>>) -> (r: Result<
    (Vec<String>, String),
    Failure,
>)
    ensures
        remove_res_view(r) == remove_spec(opt_string_view(*var), alias@, opt_lines_view(*lines)),
        fails_with(r, alias@),
{
    if let Some(k) = require_active(var) {
        return Err(fail(k, alias));
    }
    match lines {
        None => Err(fail(CoalError::AliasAccess, alias)),
        Some(ls) => {
            let (kept, found) = remove_by_name(ls, alias);
            if !found {
                Err(fail(CoalError::NoSuchAlias, alias))
            } else {
                Ok((kept, concat2("unalias ", alias)))
            }
        },
    }
}

/// The statements run before every command: the variable is set to the
/// sentinel on first use.
pub fn setup(shell: Shell, var: &Option<String>) -> (r: Vec<String>)
    ensures
        lines_view(r@) == setup_spec(shell, opt_string_view(*var)),
{
    let mut out: Vec<String> = Vec::new();
    if var.is_none() {
        let st = set_alias_var(shell, NO_CON_ACTIVE);
        out.push(st);
        assert(lines_view(out@) =~= seq![st@]);
    } else {
        assert(lines_view(out@) =~= Seq::<Seq<char>>::empty());
    }
    out
}

/// Joins the statements into the output line, each one followed by `;`.
pub fn render(stmts: &Vec<String>) -> (r: String)
    ensures
        r@ == render_spec(lines_view(stmts@)),
{
    let ghost ss = lines_view(stmts@);
    let mut out = String::new();
    let mut i: usize = 0;
    assert(ss.subrange(0, 0) =~= Seq::<Seq<char>>::empty());
    while i < stmts.len()
        invariant
            i <= stmts@.len(),
            ss == lines_view(stmts@),
            out@ == render_spec(ss.subrange(0, i as int)),
        decreases stmts@.len() - i,
    {
        out.append(stmts[i].as_str());
        out.append(";");
        let ghost pre = ss.subrange(0, i + 1);
        assert(pre.drop_last() =~= ss.subrange(0, i as int));
        i = i + 1;
    }
    assert(ss.subrange(0, i as int) =~= ss);
    out
}

} // verus!
