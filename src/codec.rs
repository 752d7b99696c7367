//! The alias file format: one record per line, `alias NAME="COMMAND"`, where
//! `"` and `\` inside COMMAND are written with a leading `\`.

use vstd::prelude::*;
use crate::text::{has_prefix, starts_with, push_char_at, concat3};

verus! {

/// Characters that must be written with a leading backslash inside a command.
pub open spec fn needs_escape(c: char) -> bool {
    c == '"' || c == '\\'
}

/// `s` with every `"` and `\` preceded by a backslash.
pub open spec fn escape(s: Seq<char>) -> Seq<char>
    decreases s.len(),
{
    if s.len() == 0 {
        seq![]
    } else if needs_escape(s[0]) {
        seq!['\\', s[0]] + escape(s.subrange(1, s.len() as int))
    } else {
        seq![s[0]] + escape(s.subrange(1, s.len() as int))
    }
}

/// The text that `s` escapes, or `None` where `s` holds a bare `"` or ends in
/// a lone backslash.
pub open spec fn unescape(s: Seq<char>) -> Option<Seq<char>>
    decreases s.len(),
{
    if s.len() == 0 {
        Some(seq![])
    } else if s[0] == '\\' {
        if s.len() < 2 {
            None
        } else {
            prepend(seq![s[1]], unescape(s.subrange(2, s.len() as int)))
        }
    } else if s[0] == '"' {
        None
    } else {
        prepend(seq![s[0]], unescape(s.subrange(1, s.len() as int)))
    }
}

pub open spec fn prepend(p: Seq<char>, o: Option<Seq<char>>) -> Option<Seq<char>> {
    match o {
        Some(t) => Some(p + t),
        None => None,
    }
}

/// A name that a record can carry: not empty, and free of `=`.
pub open spec fn valid_alias_name(n: Seq<char>) -> bool {
    n.len() > 0 && forall|i: int| 0 <= i < n.len() ==> n[i] != '='
}

/// The line that stores alias `n` for command `c`.
pub open spec fn record_line(n: Seq<char>, c: Seq<char>) -> Seq<char> {
    "alias "@ + n + "=\""@ + escape(c) + "\""@
}

/// What every line that defines alias `n` starts with.
pub open spec fn alias_prefix(n: Seq<char>) -> Seq<char> {
    "alias "@ + n + "="@
}

/// Position of the first `=` in `r`, or -1.
pub open spec fn first_eq(r: Seq<char>) -> int
    decreases r.len(),
{
    if r.len() == 0 {
        -1
    } else if r[0] == '=' {
        0
    } else {
        let k = first_eq(r.subrange(1, r.len() as int));
        if k < 0 {
            -1
        } else {
            k + 1
        }
    }
}

/// The record a line holds: after `alias `, the name runs up to the first `=`,
/// and the rest is an escaped command in double quotes.
pub open spec fn parse_line(l: Seq<char>) -> Option<(Seq<char>, Seq<char>)> {
    if !has_prefix(l, "alias "@) {
        None
    } else {
        let r = l.subrange(6, l.len() as int);
        let k = first_eq(r);
        if k <= 0 {
            None
        } else {
            let after = r.subrange(k + 1, r.len() as int);
            if after.len() < 2 || after[0] != '"' || after[after.len() - 1] != '"' {
                None
            } else {
                match unescape(after.subrange(1, after.len() - 1)) {
                    Some(c) => Some((r.subrange(0, k), c)),
                    None => None,
                }
            }
        }
    }
}

pub proof fn lemma_first_eq_at(r: Seq<char>, k: int)
    requires
        0 <= k <= r.len(),
        forall|j: int| 0 <= j < k ==> r[j] != '=',
        k == r.len() || r[k] == '=',
    ensures
        first_eq(r) == (if k == r.len() { -1 } else { k }),
    decreases k,
{
    if k > 0 {
        let t = r.subrange(1, r.len() as int);
        lemma_first_eq_at(t, k - 1);
    }
}

pub proof fn lemma_first_eq_props(r: Seq<char>)
    ensures
        first_eq(r) >= -1,
        first_eq(r) >= 0 ==> first_eq(r) < r.len() && r[first_eq(r)] == '=' && forall|j: int|
            0 <= j < first_eq(r) ==> r[j] != '=',
    decreases r.len(),
{
    if r.len() > 0 && r[0] != '=' {
        let t = r.subrange(1, r.len() as int);
        lemma_first_eq_props(t);
        assert forall|j: int| 0 <= j < first_eq(r) implies r[j] != '=' by {
            if j > 0 {
                assert(r[j] == t[j - 1]);
            }
        }
    }
}

/// Escaping then unescaping gives the text back.
pub proof fn lemma_unescape_escape(s: Seq<char>)
    ensures
        unescape(escape(s)) == Some(s),
    decreases s.len(),
{
    if s.len() > 0 {
        let rest = s.subrange(1, s.len() as int);
        lemma_unescape_escape(rest);
        let e = escape(s);
        if needs_escape(s[0]) {
            assert(e.subrange(2, e.len() as int) =~= escape(rest));
        } else {
            assert(e.subrange(1, e.len() as int) =~= escape(rest));
        }
        assert(seq![s[0]] + rest =~= s);
    }
}

/// A record line parses back to the record it stores.
pub proof fn lemma_parse_record_line(n: Seq<char>, c: Seq<char>)
    requires
        valid_alias_name(n),
    ensures
        parse_line(record_line(n, c)) == Some((n, c)),
{
    reveal_strlit("alias ");
    reveal_strlit("=\"");
    reveal_strlit("\"");
    let l = record_line(n, c);
    let e = escape(c);
    assert(l.subrange(0, 6) =~= "alias "@);
    let r = l.subrange(6, l.len() as int);
    assert(r =~= n + "=\""@ + e + "\""@);
    lemma_first_eq_at(r, n.len() as int);
    let k = n.len() as int;
    let after = r.subrange(k + 1, r.len() as int);
    assert(after =~= "\""@ + e + "\""@);
    assert(after.subrange(1, after.len() - 1) =~= e);
    lemma_unescape_escape(c);
    assert(r.subrange(0, k) =~= n);
}

/// Every line that parses starts with the alias prefix of the name it holds.
pub proof fn lemma_parsed_has_prefix(l: Seq<char>)
    requires
        parse_line(l) is Some,
    ensures
        has_prefix(l, alias_prefix((parse_line(l)->0).0)),
{
    reveal_strlit("alias ");
    reveal_strlit("=");
    let r = l.subrange(6, l.len() as int);
    lemma_first_eq_props(r);
    let k = first_eq(r);
    let n = r.subrange(0, k);
    assert(l.subrange(0, alias_prefix(n).len() as int) =~= alias_prefix(n));
}

/// A record line starts with the alias prefix of its own name.
pub proof fn lemma_record_has_prefix(n: Seq<char>, c: Seq<char>)
    ensures
        has_prefix(record_line(n, c), alias_prefix(n)),
{
    reveal_strlit("=");
    reveal_strlit("=\"");
    let l = record_line(n, c);
    assert(l.subrange(0, alias_prefix(n).len() as int) =~= alias_prefix(n));
}

/// Returns `s` with `"` and `\` escaped by a backslash.
pub fn escape_text(s: &str) -> (r: String)
    ensures
        r@ == escape(s@),
{
    let n = s.unicode_len();
    let mut out = String::new();
    let mut i: usize = 0;
    assert(s@.subrange(0, n as int) =~= s@);
    assert(out@ + escape(s@) =~= escape(s@));
    while i < n
        invariant
            n == s@.len(),
            i <= n,
            escape(s@) == out@ + escape(s@.subrange(i as int, n as int)),
        decreases n - i,
    {
        let c = s.get_char(i);
        let ghost rest = s@.subrange(i as int, n as int);
        assert(rest.subrange(1, rest.len() as int) =~= s@.subrange(i + 1, n as int));
        let ghost before = out@;
        if c == '"' || c == '\\' {
            out.append("\\");
            proof {
                reveal_strlit("\\");
            }
            push_char_at(&mut out, s, i);
            assert(before + (seq!['\\', c] + escape(s@.subrange(i + 1, n as int))) =~= out@
                + escape(s@.subrange(i + 1, n as int)));
        } else {
            push_char_at(&mut out, s, i);
            assert(before + (seq![c] + escape(s@.subrange(i + 1, n as int))) =~= out@ + escape(
                s@.subrange(i + 1, n as int),
            ));
        }
        i = i + 1;
    }
    assert(s@.subrange(n as int, n as int) =~= Seq::<char>::empty());
    assert(out@ + Seq::<char>::empty() =~= out@);
    out
}

pub open spec fn opt_string_view(o: Option<String>) -> Option<Seq<char>> {
    match o {
        Some(s) => Some(s@),
        None => None,
    }
}

/// The text that `s` escapes, or `None` where `s` is not a well-formed escaped text.
pub fn unescape_text(s: &str) -> (r: Option<String>)
    ensures
        opt_string_view(r) == unescape(s@),
{
    let n = s.unicode_len();
    let mut out = String::new();
    let mut i: usize = 0;
    assert(s@.subrange(0, n as int) =~= s@);
    proof {
        match unescape(s@) {
            Some(t) => {
                assert(out@ + t =~= t);
            },
            None => {},
        }
    }
    while i < n
        invariant
            n == s@.len(),
            i <= n,
            unescape(s@) == prepend(out@, unescape(s@.subrange(i as int, n as int))),
        decreases n - i,
    {
        let c = s.get_char(i);
        let ghost rest = s@.subrange(i as int, n as int);
        let ghost before = out@;
        if c == '\\' {
            if i + 1 >= n {
                return None;
            }
            assert(rest.subrange(2, rest.len() as int) =~= s@.subrange(i + 2, n as int));
            push_char_at(&mut out, s, i + 1);
            proof {
                match unescape(s@.subrange(i + 2, n as int)) {
                    Some(t) => {
                        assert(before + (seq![s@[i + 1]] + t) =~= out@ + t);
                    },
                    None => {},
                }
            }
            i = i + 2;
        } else if c == '"' {
            return None;
        } else {
            assert(rest.subrange(1, rest.len() as int) =~= s@.subrange(i + 1, n as int));
            push_char_at(&mut out, s, i);
            proof {
                match unescape(s@.subrange(i + 1, n as int)) {
                    Some(t) => {
                        assert(before + (seq![c] + t) =~= out@ + t);
                    },
                    None => {},
                }
            }
            i = i + 1;
        }
    }
    assert(s@.subrange(n as int, n as int) =~= Seq::<char>::empty());
    assert(out@ + Seq::<char>::empty() =~= out@);
    Some(out)
}

/// Returns the line that stores alias `name` for command `command`.
pub fn format_record(name: &str, command: &str) -> (r: String)
    ensures
        r@ == record_line(name@, command@),
{
    let e = escape_text(command);
    let mut r = concat3("alias ", name, "=\"");
    r.append(e.as_str());
    r.append("\"");
    r
}

pub open spec fn opt_record_view(o: Option<(String, String)>) -> Option<(Seq<char>, Seq<char>)> {
    match o {
        Some(p) => Some((p.0@, p.1@)),
        None => None,
    }
}

/// Reads the record that a line holds, or `None` where the line is malformed.
pub fn parse_record(l: &str) -> (r: Option<(String, String)>)
    ensures
        opt_record_view(r) == parse_line(l@),
{
    proof {
        reveal_strlit("alias ");
    }
    if !starts_with(l, "alias ") {
        return None;
    }
    let n = l.unicode_len();
    let mut i: usize = 6;
    loop
        invariant
            6 <= i <= n,
            n == l@.len(),
            forall|j: int| 6 <= j < i ==> l@[j] != '=',
        ensures
            6 <= i <= n,
            forall|j: int| 6 <= j < i ==> l@[j] != '=',
            i == n || l@[i as int] == '=',
        decreases n - i,
    {
        if i == n || l.get_char(i) == '=' {
            break;
        }
        i = i + 1;
    }
    let ghost r = l@.subrange(6, n as int);
    let ghost k = i - 6;
    assert forall|j: int| 0 <= j < k implies r[j] != '=' by {
        assert(r[j] == l@[j + 6]);
    }
    proof {
        lemma_first_eq_at(r, k);
    }
    if i == n || i == 6 {
        return None;
    }
    let ghost after = r.subrange(k + 1, r.len() as int);
    assert(after =~= l@.subrange(i + 1, n as int));
    if n - i < 3 || l.get_char(i + 1) != '"' || l.get_char(n - 1) != '"' {
        return None;
    }
    assert(after.subrange(1, after.len() - 1) =~= l@.subrange(i + 2, n - 1));
    assert(r.subrange(0, k) =~= l@.subrange(6, i as int));
    let body = l.substring_char(i + 2, n - 1);
    match unescape_text(body) {
        Some(c) => {
            let name = String::from_str(l.substring_char(6, i));
            Some((name, c))
        },
        None => None,
    }
}

pub open spec fn lines_view(v: Seq<String>) -> Seq<Seq<char>> {
    v.map_values(|s: String| s@)
}

pub open spec fn records_view(v: Seq<(String, String)>) -> Seq<(Seq<char>, Seq<char>)> {
    v.map_values(|p: (String, String)| (p.0@, p.1@))
}

/// Every line is a well-formed record.
pub open spec fn all_parse(ls: Seq<Seq<char>>) -> bool {
    forall|i: int| 0 <= i < ls.len() ==> parse_line(ls[i]) is Some
}

/// The records that the lines of a file hold, in order, or `None` where some
/// line is malformed.
pub open spec fn decode(ls: Seq<Seq<char>>) -> Option<Seq<(Seq<char>, Seq<char>)>> {
    if all_parse(ls) {
        Some(ls.map_values(|l: Seq<char>| parse_line(l)->0))
    } else {
        None
    }
}

/// The lines of a file that holds the records `rs`, in order.
pub open spec fn encode(rs: Seq<(Seq<char>, Seq<char>)>) -> Seq<Seq<char>> {
    rs.map_values(|p: (Seq<char>, Seq<char>)| record_line(p.0, p.1))
}

pub open spec fn opt_records_view(o: Option<Vec<(String, String)>>) -> Option<
    Seq<(Seq<char>, Seq<char>)>,
> {
    match o {
        Some(v) => Some(records_view(v@)),
        None => None,
    }
}

/// Returns the lines that store `records`, one per record, in order.
pub fn encode_records(records: &Vec<(String, String)>) -> (r: Vec<String>)
    ensures
        lines_view(r@) == encode(records_view(records@)),
{
    let mut out: Vec<String> = Vec::new();
    let mut i: usize = 0;
    while i < records.len()
        invariant
            i <= records@.len(),
            lines_view(out@) =~= encode(records_view(records@)).subrange(0, i as int),
        decreases records@.len() - i,
    {
        let line = format_record(records[i].0.as_str(), records[i].1.as_str());
        let ghost e = encode(records_view(records@));
        assert(e[i as int] == line@);
        let ghost prev = out@;
        out.push(line);
        assert(lines_view(out@) =~= lines_view(prev).push(line@));
        assert(e.subrange(0, i + 1) =~= e.subrange(0, i as int).push(line@));
        i = i + 1;
    }
    out
}

/// Reads every line of a file as a record; `None` where some line is malformed.
pub fn decode_records(lines: &Vec<String>) -> (r: Option<Vec<(String, String)>>)
    ensures
        opt_records_view(r) == decode(lines_view(lines@)),
{
    let ghost ls = lines_view(lines@);
    let mut out: Vec<(String, String)> = Vec::new();
    let mut i: usize = 0;
    while i < lines.len()
        invariant
            i <= lines@.len(),
            ls == lines_view(lines@),
            forall|j: int| 0 <= j < i ==> parse_line(ls[j]) is Some,
            records_view(out@) =~= ls.subrange(0, i as int).map_values(
                |l: Seq<char>| parse_line(l)->0,
            ),
        decreases lines@.len() - i,
    {
        assert(ls[i as int] == lines@[i as int]@);
        let ghost prev = out@;
        match parse_record(lines[i].as_str()) {
            Some(p) => {
                out.push(p);
                assert(records_view(out@) =~= records_view(prev).push((p.0@, p.1@)));
                assert(ls.subrange(0, i + 1) =~= ls.subrange(0, i as int).push(ls[i as int]));
            },
            None => {
                assert(!all_parse(ls));
                return None;
            },
        }
        i = i + 1;
    }
    assert(ls.subrange(0, i as int) =~= ls);
    Some(out)
}

/// Reading back the lines written for a sequence of records whose names are
/// valid gives the same records, in the same order, with every command intact.
pub proof fn law_codec_round_trip(rs: Seq<(Seq<char>, Seq<char>)>)
    requires
        forall|i: int| 0 <= i < rs.len() ==> valid_alias_name(#[trigger] rs[i].0),
    ensures
        decode(encode(rs)) == Some(rs),
{
    let ls = encode(rs);
    assert forall|i: int| 0 <= i < ls.len() implies parse_line(ls[i]) == Some(rs[i]) by {
        lemma_parse_record_line(rs[i].0, rs[i].1);
    }
    assert(ls.map_values(|l: Seq<char>| parse_line(l)->0) =~= rs);
}

/// Some line starts with the alias prefix of `n`.
pub open spec fn has_named(ls: Seq<Seq<char>>, n: Seq<char>) -> bool {
    exists|i: int| 0 <= i < ls.len() && has_prefix(ls[i], alias_prefix(n))
}

/// The lines that do not start with the alias prefix of `n`, in order.
pub open spec fn drop_named(ls: Seq<Seq<char>>, n: Seq<char>) -> Seq<Seq<char>>
    decreases ls.len(),
{
    if ls.len() == 0 {
        seq![]
    } else {
        let init = drop_named(ls.drop_last(), n);
        if has_prefix(ls.last(), alias_prefix(n)) {
            init
        } else {
            init.push(ls.last())
        }
    }
}

/// Whether some line defines alias `name`, by exact prefix `alias NAME=`.
pub fn contains_alias(lines: &Vec<String>, name: &str) -> (r: bool)
    ensures
        r == has_named(lines_view(lines@), name@),
{
    let prefix = concat3("alias ", name, "=");
    let ghost ls = lines_view(lines@);
    let mut i: usize = 0;
    while i < lines.len()
        invariant
            i <= lines@.len(),
            ls == lines_view(lines@),
            prefix@ == alias_prefix(name@),
            forall|j: int| 0 <= j < i ==> !has_prefix(ls[j], alias_prefix(name@)),
        decreases lines@.len() - i,
    {
        if starts_with(lines[i].as_str(), prefix.as_str()) {
            assert(has_prefix(ls[i as int], alias_prefix(name@)));
            return true;
        }
        i = i + 1;
    }
    false
}

/// Returns the lines without those that define alias `name`, and whether any
/// line was dropped.
pub fn remove_by_name(lines: &Vec<String>, name: &str) -> (r: (Vec<String>, bool))
    ensures
        lines_view(r.0@) == drop_named(lines_view(lines@), name@),
        r.1 == has_named(lines_view(lines@), name@),
{
    let prefix = concat3("alias ", name, "=");
    let ghost ls = lines_view(lines@);
    let mut out: Vec<String> = Vec::new();
    let mut found = false;
    let mut i: usize = 0;
    assert(ls.subrange(0, 0) =~= Seq::<Seq<char>>::empty());
    assert(lines_view(out@) =~= Seq::<Seq<char>>::empty());
    while i < lines.len()
        invariant
            i <= lines@.len(),
            ls == lines_view(lines@),
            prefix@ == alias_prefix(name@),
            lines_view(out@) == drop_named(ls.subrange(0, i as int), name@),
            found == has_named(ls.subrange(0, i as int), name@),
        decreases lines@.len() - i,
    {
        let ghost pre = ls.subrange(0, i as int + 1);
        assert(pre.drop_last() =~= ls.subrange(0, i as int));
        assert(pre.last() == ls[i as int]);
        if starts_with(lines[i].as_str(), prefix.as_str()) {
            found = true;
            assert(pre[i as int] == ls[i as int]);
        } else {
            let l = lines[i].clone();
            out.push(l);
            assert(lines_view(out@) =~= drop_named(ls.subrange(0, i as int), name@).push(
                ls[i as int],
            ));
            assert(has_named(pre, name@) ==> has_named(ls.subrange(0, i as int), name@)) by {
                if has_named(pre, name@) {
                    let j = choose|j: int| 0 <= j < pre.len() && has_prefix(pre[j], alias_prefix(name@));
                    assert(ls.subrange(0, i as int)[j] == pre[j]);
                }
            }
        }
        proof {
            if has_named(ls.subrange(0, i as int), name@) {
                let j = choose|j: int|
                    0 <= j < i && has_prefix(ls.subrange(0, i as int)[j], alias_prefix(name@));
                assert(pre[j] == ls.subrange(0, i as int)[j]);
            }
        }
        i = i + 1;
    }
    assert(ls.subrange(0, i as int) =~= ls);
    (out, found)
}

} // verus!
