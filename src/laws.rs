//! Laws that relate the commands to one another, proved over their
//! specifications.

use vstd::prelude::*;
use crate::text::has_prefix;
use crate::codec::{
    all_parse, alias_prefix, decode, drop_named, has_named, lemma_parse_record_line,
    lemma_parsed_has_prefix, lemma_record_has_prefix, parse_line, valid_alias_name,
};
use crate::commands::{
    add_spec, delete_spec, echo_con, load_spec, new_spec, remove_spec, set_var_stmt,
    show_aliases_spec, show_all_spec, show_line, unalias_all_spec, unalias_stmt, CoalError,
};
use crate::names::sentinel;
use crate::shell::Shell;

verus! {

proof fn lemma_unalias_prefix(n: Seq<char>)
    ensures
        has_prefix(unalias_stmt(n), "unalias "@),
{
    assert(unalias_stmt(n).subrange(0, ("unalias "@).len() as int) =~= "unalias "@);
}

/// Creating a container and then loading it is rejected as already loaded:
/// the creation's statements undefine aliases and end by setting the variable
/// to the new name, and a load of the name that the variable holds fails.
pub proof fn law_new_then_load_rejected(
    sh: Shell,
    var: Option<Seq<char>>,
    cons: Seq<Seq<char>>,
    con: Seq<char>,
    cur: Option<Seq<Seq<char>>>,
    cur_after: Option<Seq<Seq<char>>>,
    target: Option<Seq<Seq<char>>>,
)
    requires
        new_spec(sh, var, cons, con, cur) is Ok,
    ensures
        exists|u: Seq<Seq<char>>|
            new_spec(sh, var, cons, con, cur)->Ok_0 == u.push(set_var_stmt(sh, con)) && forall|i: int|
                0 <= i < u.len() ==> has_prefix(#[trigger] u[i], "unalias "@),
        load_spec(sh, Some(con), cons.push(con), con, cur_after, target) == Err::<Seq<Seq<char>>, CoalError>(
            CoalError::AlreadyLoaded,
        ),
{
    let out = new_spec(sh, var, cons, con, cur)->Ok_0;
    let cons2 = cons.push(con);
    assert(cons2[cons.len() as int] == con);
    let u: Seq<Seq<char>> = match var {
        Some(v) => if v != sentinel() {
            unalias_all_spec(cur)->Ok_0
        } else {
            seq![]
        },
        None => seq![],
    };
    assert(out =~= u.push(set_var_stmt(sh, con)));
    assert forall|i: int| 0 <= i < u.len() implies has_prefix(#[trigger] u[i], "unalias "@) by {
        let rs = decode(cur->0)->0;
        lemma_unalias_prefix(rs[i].0);
    }
}

/// After a container is created, the listing of all containers shows it once,
/// marked active, and every other container unmarked.
pub proof fn law_new_then_show(
    sh: Shell,
    var: Option<Seq<char>>,
    cons: Seq<Seq<char>>,
    con: Seq<char>,
    cur: Option<Seq<Seq<char>>>,
)
    requires
        new_spec(sh, var, cons, con, cur) is Ok,
    ensures
        show_all_spec(Some(con), cons.push(con)).len() == cons.len() + 1,
        show_all_spec(Some(con), cons.push(con))[cons.len() as int] == echo_con(con, true),
        forall|i: int|
            0 <= i < cons.len() ==> cons[i] != con && show_all_spec(Some(con), cons.push(con))[i]
                == echo_con(cons[i], false),
{
    assert forall|i: int| 0 <= i < cons.len() implies cons[i] != con by {
        if cons[i] == con {
            assert(cons.contains(con));
        }
    }
}

/// After an alias is added to the active container, showing that container
/// ends with the line that renders the alias and its command.
pub proof fn law_add_then_show(
    var: Option<Seq<char>>,
    x: Seq<char>,
    cons: Seq<Seq<char>>,
    alias: Seq<char>,
    command: Seq<char>,
    lines: Seq<Seq<char>>,
)
    requires
        var == Some(x),
        cons.contains(x),
        all_parse(lines),
        valid_alias_name(alias),
        add_spec(var, alias, command, Some(lines)) is Ok,
    ensures
        show_aliases_spec(
            cons,
            x,
            Some(lines.push(add_spec(var, alias, command, Some(lines))->Ok_0)),
        ) is Ok,
        show_aliases_spec(
            cons,
            x,
            Some(lines.push(add_spec(var, alias, command, Some(lines))->Ok_0)),
        )->Ok_0.last() == show_line(alias, command),
{
    let l = add_spec(var, alias, command, Some(lines))->Ok_0;
    let ls = lines.push(l);
    lemma_parse_record_line(alias, command);
    assert(ls[lines.len() as int] == l);
    assert(all_parse(ls)) by {
        assert forall|i: int| 0 <= i < ls.len() implies parse_line(ls[i]) is Some by {
            if i < lines.len() {
                assert(ls[i] == lines[i]);
            }
        }
    }
}

/// The lines kept by `drop_named` are lines of the file that do not define `n`.
pub proof fn lemma_drop_named(ls: Seq<Seq<char>>, n: Seq<char>)
    ensures
        forall|i: int|
            0 <= i < drop_named(ls, n).len() ==> !has_prefix(
                #[trigger] drop_named(ls, n)[i],
                alias_prefix(n),
            ) && (all_parse(ls) ==> parse_line(drop_named(ls, n)[i]) is Some),
    decreases ls.len(),
{
    if ls.len() > 0 {
        let init = ls.drop_last();
        lemma_drop_named(init, n);
        if all_parse(ls) {
            assert forall|i: int| 0 <= i < init.len() implies parse_line(init[i]) is Some by {
                assert(init[i] == ls[i]);
            }
        }
    }
}

/// After an alias is removed from the active container, every record left in
/// its file has another name, and showing the container shows exactly those.
pub proof fn law_remove_then_show(
    var: Option<Seq<char>>,
    x: Seq<char>,
    cons: Seq<Seq<char>>,
    alias: Seq<char>,
    lines: Seq<Seq<char>>,
)
    requires
        cons.contains(x),
        all_parse(lines),
        remove_spec(var, alias, Some(lines)) is Ok,
    ensures
        decode(remove_spec(var, alias, Some(lines))->Ok_0.0) is Some,
        forall|i: int|
            0 <= i < decode(remove_spec(var, alias, Some(lines))->Ok_0.0)->0.len() ==> (#[trigger] decode(
                remove_spec(var, alias, Some(lines))->Ok_0.0,
            )->0[i]).0 != alias,
        show_aliases_spec(cons, x, Some(remove_spec(var, alias, Some(lines))->Ok_0.0)) == Ok::<Seq<Seq<char>>, CoalError>(
            decode(remove_spec(var, alias, Some(lines))->Ok_0.0)->0.map_values(
                |p: (Seq<char>, Seq<char>)| show_line(p.0, p.1),
            ),
        ),
{
    let kept = drop_named(lines, alias);
    assert(remove_spec(var, alias, Some(lines))->Ok_0.0 == kept);
    lemma_drop_named(lines, alias);
    assert(all_parse(kept));
    let rs = decode(kept)->0;
    assert forall|i: int| 0 <= i < rs.len() implies (#[trigger] rs[i]).0 != alias by {
        lemma_parsed_has_prefix(kept[i]);
        assert(rs[i] == parse_line(kept[i])->0);
    }
}

/// Adding the same alias twice fails the second time as a duplicate, and the
/// file then holds exactly one line for it: the one the first call added.
pub proof fn law_add_twice(
    var: Option<Seq<char>>,
    alias: Seq<char>,
    first: Seq<char>,
    second: Seq<char>,
    lines: Seq<Seq<char>>,
)
    requires
        add_spec(var, alias, first, Some(lines)) is Ok,
    ensures
        add_spec(var, alias, second, Some(lines.push(add_spec(var, alias, first, Some(lines))->Ok_0)))
            == Err::<Seq<char>, CoalError>(CoalError::DuplicateAlias),
        has_prefix(add_spec(var, alias, first, Some(lines))->Ok_0, alias_prefix(alias)),
        forall|i: int| 0 <= i < lines.len() ==> !has_prefix(#[trigger] lines[i], alias_prefix(alias)),
{
    let l = add_spec(var, alias, first, Some(lines))->Ok_0;
    let ls = lines.push(l);
    lemma_record_has_prefix(alias, first);
    assert(ls[lines.len() as int] == l);
    assert(has_named(ls, alias));
}

/// Deleting the active container emits the statements that undefine its
/// aliases and then one that sets the variable to the sentinel.
pub proof fn law_delete_active(
    sh: Shell,
    cons: Seq<Seq<char>>,
    con: Seq<char>,
    lines: Option<Seq<Seq<char>>>,
)
    requires
        delete_spec(sh, Some(con), cons, con, lines) is Ok,
    ensures
        unalias_all_spec(lines) is Ok,
        delete_spec(sh, Some(con), cons, con, lines)->Ok_0 == unalias_all_spec(lines)->Ok_0.push(
            set_var_stmt(sh, sentinel()),
        ),
{
}

/// Deleting a container that is not the active one emits no statement at all.
pub proof fn law_delete_inactive(
    sh: Shell,
    var: Option<Seq<char>>,
    cons: Seq<Seq<char>>,
    con: Seq<char>,
    lines: Option<Seq<Seq<char>>>,
)
    requires
        var != Some(con),
        delete_spec(sh, var, cons, con, lines) is Ok,
    ensures
        delete_spec(sh, var, cons, con, lines)->Ok_0 == Seq::<Seq<char>>::empty(),
{
}

} // verus!
