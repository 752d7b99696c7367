//! The shell adapter: which shell the user runs, and how each one spells
//! "set this variable".

use vstd::prelude::*;
use crate::text::{concat4, has_suffix, ends_with, str_eq};

verus! {

/// The shells whose syntax is known.
#[derive(PartialEq, Eq, Structural, Clone, Copy, Debug)]
pub enum Shell {
    Windows,
    /// The default when the shell cannot be recognised.
    Bash,
    Tcsh,
    Zsh,
    Ksh,
}

/// Whether an optional environment value is present and ends with `suf`.
pub open spec fn hint_ends(v: Option<Seq<char>>, suf: Seq<char>) -> bool {
    match v {
        Some(s) => has_suffix(s, suf),
        None => false,
    }
}

pub open spec fn opt_view(v: Option<&str>) -> Option<Seq<char>> {
    match v {
        Some(s) => Some(s@),
        None => None,
    }
}

/// The shell chosen from the environment hints: the platform flag first, then
/// `BASH`, `ZSH_NAME`, `shell` and finally the suffix of `SHELL`.
pub open spec fn shell_from_hints(
    is_windows: bool,
    bash: Option<Seq<char>>,
    zsh_name: Option<Seq<char>>,
    shell: Option<Seq<char>>,
    shell_path: Option<Seq<char>>,
) -> Shell {
    if is_windows {
        Shell::Windows
    } else if hint_ends(bash, "/bash"@) {
        Shell::Bash
    } else if zsh_name == Some("zsh"@) {
        Shell::Zsh
    } else if hint_ends(shell, "/tcsh"@) {
        Shell::Tcsh
    } else if hint_ends(shell_path, "/bash"@) {
        Shell::Bash
    } else if hint_ends(shell_path, "/ksh"@) {
        Shell::Ksh
    } else if hint_ends(shell_path, "/zsh"@) {
        Shell::Zsh
    } else if hint_ends(shell_path, "/tcsh"@) {
        Shell::Tcsh
    } else {
        Shell::Bash
    }
}

fn opt_ends_with(v: Option<&str>, suf: &str) -> (r: bool)
    ensures
        r == hint_ends(opt_view(v), suf@),
{
    match v {
        Some(s) => ends_with(s, suf),
        None => false,
    }
}

/// Figures out the user's shell from a snapshot of the environment: whether the
/// platform is Windows and the values of `BASH`, `ZSH_NAME`, `shell` and `SHELL`.
/// Falls back to `Bash`, whose `export` syntax most shells share.
pub fn get_shell(
    is_windows: bool,
    bash: Option<&str>,
    zsh_name: Option<&str>,
    shell: Option<&str>,
    shell_path: Option<&str>,
) -> (r: Shell)
    ensures
        r == shell_from_hints(
            is_windows,
            opt_view(bash),
            opt_view(zsh_name),
            opt_view(shell),
            opt_view(shell_path),
        ),
{
    if is_windows {
        return Shell::Windows;
    }
    if opt_ends_with(bash, "/bash") {
        return Shell::Bash;
    }
    if let Some(z) = zsh_name {
        if str_eq(z, "zsh") {
            return Shell::Zsh;
        }
    }
    if opt_ends_with(shell, "/tcsh") {
        return Shell::Tcsh;
    }
    if opt_ends_with(shell_path, "/bash") {
        Shell::Bash
    } else if opt_ends_with(shell_path, "/ksh") {
        Shell::Ksh
    } else if opt_ends_with(shell_path, "/zsh") {
        Shell::Zsh
    } else if opt_ends_with(shell_path, "/tcsh") {
        Shell::Tcsh
    } else {
        Shell::Bash
    }
}

/// The statement that sets variable `k` to `v` in shell `sh`.
pub open spec fn setenv_text(sh: Shell, k: Seq<char>, v: Seq<char>) -> Seq<char> {
    match sh {
        Shell::Windows => "set "@ + k + "="@ + v,
        Shell::Tcsh => "setenv "@ + k + " '"@ + v + "'"@,
        _ => "export "@ + k + "='"@ + v + "'"@,
    }
}

impl Shell {
    /// Returns the statement that sets the environment variable `k` to `v`.
    pub fn setenv(&self, k: &str, v: &str) -> (r: String)
        ensures
            r@ == setenv_text(*self, k@, v@),
    {
        match *self {
            Shell::Windows => {
                let r = concat4("set ", k, "=", v);
                r
            },
            Shell::Tcsh => {
                let mut r = concat4("setenv ", k, " '", v);
                r.append("'");
                r
            },
            _ => {
                let mut r = concat4("export ", k, "='", v);
                r.append("'");
                r
            },
        }
    }

    /// Returns the command that unsets a shell function.
    pub fn get_unset_function(&self) -> (r: String)
        ensures
            r@ == "unset -f"@,
    {
        String::from_str("unset -f")
    }
}

} // verus!
