//! Reading plain shell history files (bash and zsh) into entries, and the
//! synthetic timestamps given to entries that have none.
use vstd::prelude::*;
use crate::text::{is_prefix, parse_i64, parse_i64_spec, rtrim_spec, trim_spec};

verus! {

/// One command read from a shell history file.
#[derive(Debug, Clone, PartialEq, Eq)]
pub struct HistoryEntry {
    pub epoch: Option<i64>,
    pub cmd: String,
}

/// The pieces of `s` between newlines (a text ending in a newline ends
/// with an empty piece).
pub open spec fn split_lines(s: Seq<char>) -> Seq<Seq<char>>
    decreases s.len(),
{
    if s.len() == 0 {
        seq![seq![]]
    } else {
        let p = split_lines(s.drop_last());
        if s.last() == '\n' {
            p.push(seq![])
        } else {
            p.update(p.len() - 1, p.last().push(s.last()))
        }
    }
}

fn to_string(v: &[char]) -> (r: String)
    ensures
        r@ == v@,
{
    let mut s = String::new();
    let mut i: usize = 0;
    while i < v.len()
        invariant
            i <= v@.len(),
            s@ == v@.take(i as int),
        decreases v@.len() - i,
    {
        crate::text::push_char(&mut s, v[i]);
        assert(s@ =~= v@.take(i + 1));
        i = i + 1;
    }
    assert(v@.take(i as int) =~= v@);
    s
}

pub open spec fn lines_view(v: Seq<Vec<char>>) -> Seq<Seq<char>> {
    v.map_values(|l: Vec<char>| l@)
}

/// Splits text at newlines.
pub fn lines_of(text: &str) -> (r: Vec<Vec<char>>)
    ensures
        lines_view(r@) == split_lines(text@),
{
    let v = crate::text::chars_of(text);
    let mut done: Vec<Vec<char>> = Vec::new();
    let mut cur: Vec<char> = Vec::new();
    let mut i: usize = 0;
    while i < v.len()
        invariant
            i <= v@.len(),
            v@ == text@,
            lines_view(done@).push(cur@) == split_lines(v@.take(i as int)),
        decreases v@.len() - i,
    {
        let c = v[i];
        let ghost before = lines_view(done@).push(cur@);
        assert(v@.take(i + 1).drop_last() =~= v@.take(i as int));
        assert(v@.take(i + 1).last() == c);
        if c == '\n' {
            let line = cur;
            done.push(line);
            cur = Vec::new();
            assert(lines_view(done@).push(cur@) =~= before.push(seq![]));
        } else {
            cur.push(c);
            assert(lines_view(done@).push(cur@) =~= before.update(
                before.len() - 1,
                before.last().push(c),
            ));
        }
        i = i + 1;
    }
    assert(v@.take(i as int) =~= v@);
    done.push(cur);
    done
}

/// The timestamp a bash history line gives (`#` then an integer).
pub open spec fn bash_stamp(l: Seq<char>) -> Option<i64> {
    if l.len() > 0 && l[0] == '#' {
        parse_i64_spec(trim_spec(l.drop_first()))
    } else {
        None
    }
}

/// Bash history, line by line: blank lines are skipped, a `#<epoch>` line
/// dates the next command, every other line is a command. Returns the
/// entries and the timestamp still pending.
pub open spec fn bash_fold(lines: Seq<Seq<char>>) -> (Seq<(Option<i64>, Seq<char>)>, Option<i64>)
    decreases lines.len(),
{
    if lines.len() == 0 {
        (seq![], None)
    } else {
        let prev = bash_fold(lines.drop_last());
        let l = rtrim_spec(lines.last());
        if l.len() == 0 {
            prev
        } else if bash_stamp(l) is Some {
            (prev.0, bash_stamp(l))
        } else {
            (prev.0.push((prev.1, l)), None)
        }
    }
}

pub open spec fn entries_view(v: Seq<HistoryEntry>) -> Seq<(Option<i64>, Seq<char>)> {
    v.map_values(|e: HistoryEntry| (e.epoch, e.cmd@))
}

fn rtrim_len(l: &[char]) -> (n: usize)
    ensures
        n <= l@.len(),
        l@.take(n as int) == rtrim_spec(l@),
{
    let mut n = l.len();
    assert(l@.take(n as int) =~= l@);
    while n > 0 && crate::text::is_whitespace(l[n - 1])
        invariant
            n <= l@.len(),
            rtrim_spec(l@.take(n as int)) == rtrim_spec(l@),
        decreases n,
    {
        assert(l@.take(n as int).drop_last() =~= l@.take(n - 1));
        n = n - 1;
    }
    n
}

fn trim_slice(l: &[char]) -> (r: Vec<char>)
    ensures
        r@ == trim_spec(l@),
{
    let a = crate::text::skip_whitespace(l, 0);
    assert(l@.skip(0) =~= l@);
    let rest = &l[a..l.len()];
    assert(rest@ =~= crate::text::skip_ws(l@));
    let n = rtrim_len(rest);
    let mut r: Vec<char> = Vec::new();
    let mut i: usize = 0;
    while i < n
        invariant
            i <= n <= rest@.len(),
            r@ == rest@.take(i as int),
        decreases n - i,
    {
        r.push(rest[i]);
        assert(r@ =~= rest@.take(i + 1));
        i = i + 1;
    }
    assert(rest@.take(n as int) =~= r@);
    r
}

fn bash_stamp_exec(l: &[char]) -> (r: Option<i64>)
    ensures
        r == bash_stamp(l@),
{
    if l.len() > 0 && l[0] == '#' {
        let rest = &l[1..l.len()];
        assert(rest@ =~= l@.drop_first());
        let t = trim_slice(rest);
        parse_i64(t.as_slice())
    } else {
        None
    }
}

/// Reads a bash history file's text.
#[verifier::rlimit(30)]
pub fn parse_bash_history(text: &str) -> (r: Vec<HistoryEntry>)
    ensures
        entries_view(r@) == bash_fold(split_lines(text@)).0,
{
    let lines = lines_of(text);
    let ghost lv = lines_view(lines@);
    let mut out: Vec<HistoryEntry> = Vec::new();
    let mut pending: Option<i64> = None;
    let mut i: usize = 0;
    while i < lines.len()
        invariant
            i <= lines@.len(),
            lv == lines_view(lines@),
            lv == split_lines(text@),
            (entries_view(out@), pending) == bash_fold(lv.take(i as int)),
        decreases lines@.len() - i,
    {
        let line = lines[i].as_slice();
        assert(lv.take(i + 1).drop_last() =~= lv.take(i as int));
        assert(lv.take(i + 1).last() == line@);
        let n = rtrim_len(line);
        let l = &line[0..n];
        assert(l@ =~= rtrim_spec(line@));
        if n > 0 {
            let stamp = bash_stamp_exec(l);
            if stamp.is_some() {
                pending = stamp;
            } else {
                let ghost before = entries_view(out@);
                out.push(HistoryEntry { epoch: pending, cmd: to_string(l) });
                assert(entries_view(out@) =~= before.push((pending, l@)));
                pending = None;
            }
        }
        i = i + 1;
    }
    assert(lv.take(i as int) =~= lv);
    out
}

/// Position of the first `c` in `s`, or the length.
pub open spec fn find_char(s: Seq<char>, c: char, k: int) -> int
    decreases s.len() - k,
{
    if k >= s.len() {
        s.len() as int
    } else if s[k] == c {
        k
    } else {
        find_char(s, c, k + 1)
    }
}

/// A zsh history line: `: <epoch>:<duration>;<command>` in extended form,
/// else the line as a command without a time.
pub open spec fn zsh_entry(l: Seq<char>) -> (Option<i64>, Seq<char>) {
    if is_prefix(": "@, l) {
        let rest = l.skip(2);
        let semi = find_char(rest, ';', 0);
        let epoch_part = rest.take(semi);
        let epoch_str = epoch_part.take(find_char(epoch_part, ':', 0));
        if semi < rest.len() && parse_i64_spec(epoch_str) is Some {
            (parse_i64_spec(epoch_str), rest.skip(semi + 1))
        } else {
            (None, l)
        }
    } else {
        (None, l)
    }
}

/// Zsh history: blank lines are skipped, every other line is one entry.
pub open spec fn zsh_fold(lines: Seq<Seq<char>>) -> Seq<(Option<i64>, Seq<char>)>
    decreases lines.len(),
{
    if lines.len() == 0 {
        seq![]
    } else {
        let prev = zsh_fold(lines.drop_last());
        let l = rtrim_spec(lines.last());
        if l.len() == 0 {
            prev
        } else {
            prev.push(zsh_entry(l))
        }
    }
}

fn find_char_exec(s: &[char], c: char) -> (r: usize)
    ensures
        r == find_char(s@, c, 0),
        r <= s@.len(),
{
    let mut k: usize = 0;
    while k < s.len() && s[k] != c
        invariant
            k <= s@.len(),
            find_char(s@, c, k as int) == find_char(s@, c, 0),
        decreases s@.len() - k,
    {
        k = k + 1;
    }
    k
}

fn zsh_entry_exec(l: &[char]) -> (r: HistoryEntry)
    ensures
        (r.epoch, r.cmd@) == zsh_entry(l@),
{
    let pre: [char; 2] = [':', ' '];
    let ghost pv = ": "@;
    proof {
        reveal_strlit(": ");
    }
    assert(pre@ =~= pv);
    if crate::text::has_prefix(pre.as_slice(), l) {
        let rest = &l[2..l.len()];
        assert(rest@ =~= l@.skip(2));
        let semi = find_char_exec(rest, ';');
        let epoch_part = &rest[0..semi];
        assert(epoch_part@ =~= rest@.take(semi as int));
        let colon = find_char_exec(epoch_part, ':');
        let epoch_str = &epoch_part[0..colon];
        assert(epoch_str@ =~= epoch_part@.take(colon as int));
        if semi < rest.len() {
            match parse_i64(epoch_str) {
                Some(e) => {
                    let cmd_part = &rest[semi + 1..rest.len()];
                    assert(cmd_part@ =~= rest@.skip(semi + 1));
                    return HistoryEntry { epoch: Some(e), cmd: to_string(cmd_part) };
                },
                None => {},
            }
        }
    }
    HistoryEntry { epoch: None, cmd: to_string(l) }
}

/// Reads a zsh history file's text.
pub fn parse_zsh_history(text: &str) -> (r: Vec<HistoryEntry>)
    ensures
        entries_view(r@) == zsh_fold(split_lines(text@)),
{
    let lines = lines_of(text);
    let ghost lv = lines_view(lines@);
    let mut out: Vec<HistoryEntry> = Vec::new();
    let mut i: usize = 0;
    while i < lines.len()
        invariant
            i <= lines@.len(),
            lv == lines_view(lines@),
            lv == split_lines(text@),
            entries_view(out@) == zsh_fold(lv.take(i as int)),
        decreases lines@.len() - i,
    {
        let line = lines[i].as_slice();
        assert(lv.take(i + 1).drop_last() =~= lv.take(i as int));
        assert(lv.take(i + 1).last() == line@);
        let n = rtrim_len(line);
        let l = &line[0..n];
        assert(l@ =~= rtrim_spec(line@));
        if n > 0 {
            let ghost before = entries_view(out@);
            let e = zsh_entry_exec(l);
            out.push(e);
            assert(entries_view(out@) =~= before.push(zsh_entry(l@)));
        }
        i = i + 1;
    }
    assert(lv.take(i as int) =~= lv);
    out
}

/// Number of entries without a timestamp.
pub open spec fn missing_count(es: Seq<HistoryEntry>) -> nat
    decreases es.len(),
{
    if es.len() == 0 {
        0
    } else {
        missing_count(es.drop_last()) + if es.last().epoch is None {
            1nat
        } else {
            0nat
        }
    }
}

proof fn lemma_missing_count_bound(es: Seq<HistoryEntry>)
    ensures
        missing_count(es) <= es.len(),
    decreases es.len(),
{
    if es.len() > 0 {
        lemma_missing_count_bound(es.drop_last());
    }
}

/// The epoch of each entry: its own timestamp, or for the k-th entry
/// without one (k from 1) `1_000_000_000 - missing + k`, so that repeated
/// imports of one file give the same rows.
pub open spec fn epochs_spec(es: Seq<HistoryEntry>, missing: nat) -> Seq<i64>
    decreases es.len(),
{
    if es.len() == 0 {
        seq![]
    } else {
        let prev = epochs_spec(es.drop_last(), missing);
        prev.push(
            match es.last().epoch {
                Some(v) => v,
                None => (1_000_000_000 - missing + missing_count(es)) as i64,
            },
        )
    }
}

/// The epochs to record for imported entries.
#[verifier::rlimit(30)]
pub fn assign_epochs(entries: &Vec<HistoryEntry>) -> (r: Vec<i64>)
    requires
        entries@.len() <= i64::MAX / 4,
    ensures
        r@ == epochs_spec(entries@, missing_count(entries@)),
{
    let ghost es = entries@;
    let mut missing: u64 = 0;
    let mut i: usize = 0;
    while i < entries.len()
        invariant
            i <= es.len(),
            es == entries@,
            missing == missing_count(es.take(i as int)),
            missing <= i,
            es.len() <= i64::MAX / 4,
        decreases es.len() - i,
    {
        assert(es.take(i + 1).drop_last() =~= es.take(i as int));
        if entries[i].epoch.is_none() {
            missing = missing + 1;
        }
        i = i + 1;
    }
    assert(es.take(i as int) =~= es);
    let ghost total = missing_count(es);
    let mut next: i64 = 1_000_000_000 - missing as i64;
    let mut seen: u64 = 0;
    let mut out: Vec<i64> = Vec::new();
    let mut k: usize = 0;
    while k < entries.len()
        invariant
            k <= es.len(),
            es == entries@,
            total == missing_count(es),
            missing == total,
            missing <= es.len(),
            es.len() <= i64::MAX / 4,
            seen == missing_count(es.take(k as int)),
            seen <= k,
            next == 1_000_000_000 - missing + seen,
            out@ == epochs_spec(es.take(k as int), total),
        decreases es.len() - k,
    {
        assert(es.take(k + 1).drop_last() =~= es.take(k as int));
        proof {
            lemma_missing_count_bound(es.take(k + 1));
            lemma_missing_count_bound(es.take(k as int));
        }
        match entries[k].epoch {
            Some(v) => out.push(v),
            None => {
                next = next + 1;
                seen = seen + 1;
                out.push(next);
            },
        }
        k = k + 1;
    }
    assert(es.take(k as int) =~= es);
    out
}

} // verus!
