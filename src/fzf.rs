//! The lines handed to an interactive selector, and how a picked line is
//! read back.
use vstd::prelude::*;
use crate::text::{int_decimal, push_i64, trim_chars, trim_spec};

verus! {

/// First position, from `k` on, where `m` occurs in `t`; -1 when none.
pub open spec fn find_spec(t: Seq<char>, m: Seq<char>, k: int) -> int
    decreases t.len() + 1 - k,
{
    if k < 0 || k + m.len() > t.len() {
        -1
    } else if t.subrange(k, k + m.len()) == m {
        k
    } else {
        find_spec(t, m, k + 1)
    }
}

/// First position where `m` occurs in `t`.
pub fn find_str(t: &[char], m: &str) -> (r: Option<usize>)
    ensures
        match r {
            Some(k) => find_spec(t@, m@, 0) == k as int,
            None => find_spec(t@, m@, 0) == -1,
        },
        r matches Some(k) ==> k + m@.len() <= t@.len(),
{
    let mv = crate::text::chars_of(m);
    let n = mv.len();
    if n > t.len() {
        return None;
    }
    let last = t.len() - n;
    let mut k: usize = 0;
    loop
        invariant
            n == m@.len(),
            mv@ == m@,
            n <= t@.len(),
            t@.len() == t.len(),
            last == t@.len() - n,
            k <= last,
            find_spec(t@, m@, k as int) == find_spec(t@, m@, 0),
        decreases last - k,
    {
        if crate::text::chars_eq(&t[k..k + n], mv.as_slice()) {
            return Some(k);
        }
        if k == last {
            assert(find_spec(t@, m@, k + 1) == -1);
            return None;
        }
        k = k + 1;
    }
}

/// The text of a picked line before `marker`, once the line is trimmed.
pub open spec fn pick_before_spec(line: Seq<char>, marker: Seq<char>) -> Option<Seq<char>> {
    let t = trim_spec(line);
    let k = find_spec(t, marker, 0);
    if k < 0 {
        None
    } else {
        Some(t.take(k))
    }
}

fn to_string(v: &[char]) -> (r: String)
    ensures
        r@ == v@,
{
    let mut s = String::new();
    let mut i: usize = 0;
    while i < v.len()
        invariant
            i <= v@.len(),
            s@ == v@.take(i as int),
        decreases v@.len() - i,
    {
        crate::text::push_char(&mut s, v[i]);
        assert(s@ =~= v@.take(i + 1));
        i = i + 1;
    }
    assert(v@.take(i as int) =~= v@);
    s
}

/// Reads the key of a picked line: what stands before `marker`.
pub fn pick_before(line: &str, marker: &str) -> (r: Option<String>)
    ensures
        match r {
            Some(s) => pick_before_spec(line@, marker@) == Some(s@),
            None => pick_before_spec(line@, marker@) is None,
        },
{
    let t = trim_chars(line);
    match find_str(t.as_slice(), marker) {
        Some(k) => {
            let p = &t.as_slice()[0..k];
            assert(p@ =~= t@.take(k as int));
            Some(to_string(p))
        },
        None => None,
    }
}

/// The command of a picked summary line: before the counts, without the
/// directory, trimmed.
pub open spec fn pick_summary_spec(line: Seq<char>) -> Option<Seq<char>> {
    match pick_before_spec(line, "  ("@) {
        Some(c) => {
            let b = find_spec(c, " ["@, 0);
            Some(trim_spec(if b >= 0 { c.take(b) } else { c }))
        },
        None => None,
    }
}

/// Reads the command of a picked summary line.
pub fn pick_summary_command(line: &str) -> (r: Option<String>)
    ensures
        match r {
            Some(s) => pick_summary_spec(line@) == Some(s@),
            None => pick_summary_spec(line@) is None,
        },
{
    match pick_before(line, "  (") {
        Some(c) => {
            let cv = crate::text::chars_of(c.as_str());
            let cut = match find_str(cv.as_slice(), " [") {
                Some(b) => {
                    let p = &cv.as_slice()[0..b];
                    assert(p@ =~= c@.take(b as int));
                    to_string(p)
                },
                None => c,
            };
            let t = trim_chars(cut.as_str());
            Some(to_string(t.as_slice()))
        },
        None => None,
    }
}

/// A list or search row for the selector: `cmd  (time) [pwd]`.
pub fn list_line(cmd: &str, dt: &str, pwd: &str) -> (r: String)
    ensures
        r@ == cmd@ + "  ("@ + dt@ + ") ["@ + pwd@ + "]"@,
{
    let mut s = String::from_str(cmd);
    s.append("  (");
    s.append(dt);
    s.append(") [");
    s.append(pwd);
    s.append("]");
    s
}

/// A summary row for the selector: `cmd [pwd]  (n uses, last: time)`.
pub fn summary_line(cmd: &str, pwd: &Option<String>, count: i64, dt: &str) -> (r: String)
    ensures
        r@ == cmd@ + (match pwd {
            Some(p) => " ["@ + p@ + "]"@,
            None => seq![],
        }) + "  ("@ + int_decimal(count as int) + " uses, last: "@ + dt@ + ")"@,
{
    let mut s = String::from_str(cmd);
    match pwd {
        Some(p) => {
            s.append(" [");
            s.append(p.as_str());
            s.append("]");
        },
        None => {},
    }
    s.append("  (");
    push_i64(&mut s, count);
    s.append(" uses, last: ");
    s.append(dt);
    s.append(")");
    proof {
        if pwd is None {
            assert(s@ =~= cmd@ + Seq::<char>::empty() + "  ("@ + int_decimal(count as int) + " uses, last: "@
                + dt@ + ")"@);
        }
    }
    s
}

/// A top-commands row for the selector: `cmd  (n uses)`.
pub fn stats_top_line(cmd: &str, cnt: i64) -> (r: String)
    ensures
        r@ == cmd@ + "  ("@ + int_decimal(cnt as int) + " uses)"@,
{
    let mut s = String::from_str(cmd);
    s.append("  (");
    push_i64(&mut s, cnt);
    s.append(" uses)");
    s
}

/// A by-directory row for the selector: `cmd  [pwd]  (n uses)`.
pub fn stats_by_pwd_line(cmd: &str, pwd: &str, cnt: i64) -> (r: String)
    ensures
        r@ == cmd@ + "  ["@ + pwd@ + "]  ("@ + int_decimal(cnt as int) + " uses)"@,
{
    let mut s = String::from_str(cmd);
    s.append("  [");
    s.append(pwd);
    s.append("]  (");
    push_i64(&mut s, cnt);
    s.append(" uses)");
    s
}

/// A daily row for the selector: `day  (n commands)`.
pub fn stats_daily_line(day: &str, cnt: i64) -> (r: String)
    ensures
        r@ == day@ + "  ("@ + int_decimal(cnt as int) + " commands)"@,
{
    let mut s = String::from_str(day);
    s.append("  (");
    push_i64(&mut s, cnt);
    s.append(" commands)");
    s
}

} // verus!
