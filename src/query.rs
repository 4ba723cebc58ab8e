//! Parameterised SQL for the read commands. Every builder returns the SQL
//! text with `?` placeholders and the values to bind to them, in order; user
//! input only ever reaches the bind values, never the SQL text.
use vstd::prelude::*;
use crate::args::{ExportArgs, ListArgs, SearchArgs, StatsByPwdArgs, StatsDailyArgs, StatsTopArgs, SummaryArgs};
use crate::text::{chars_of, i64_to_string, int_decimal, parse_i64, parse_i64_spec, push_char, u32_to_string};

verus! {

/// What the query builders take from the process around them.
#[derive(Debug, Clone)]
pub struct QueryEnv {
    /// `(salt, ppid)` of the current shell session, when known.
    pub session: Option<(i64, i64)>,
    /// The working directory, when it can be read.
    pub cwd: Option<String>,
    /// Unix time now.
    pub now: i64,
}

/// Seconds in a day.
pub const SECS_PER_DAY: i64 = 86400;

/// The earliest `now` for which every window of `u32` days stays in `i64`.
pub open spec fn now_in_range(now: i64) -> bool {
    now >= i64::MIN + 86400 * (u32::MAX as int)
}

/// The views of a list of strings.
pub open spec fn binds_view(b: Seq<String>) -> Seq<Seq<char>> {
    b.map_values(|s: String| s@)
}

/// Escaping of one character inside a LIKE pattern whose escape is `\`.
pub open spec fn escape_like_char(c: char) -> Seq<char> {
    if c == '\\' || c == '%' || c == '_' {
        seq!['\\', c]
    } else {
        seq![c]
    }
}

/// `s` with `\`, `%` and `_` each preceded by `\`, so that a LIKE with
/// `ESCAPE '\'` matches it literally.
pub open spec fn escape_like_spec(s: Seq<char>) -> Seq<char>
    decreases s.len(),
{
    if s.len() == 0 {
        seq![]
    } else {
        escape_like_spec(s.drop_last()) + escape_like_char(s.last())
    }
}

/// Escapes the LIKE metacharacters `%` and `_` and the escape character `\`.
pub fn escape_like(s: &str) -> (r: String)
    ensures
        r@ == escape_like_spec(s@),
{
    let v = chars_of(s);
    let mut out = String::new();
    let mut i: usize = 0;
    while i < v.len()
        invariant
            i <= v@.len(),
            v@ == s@,
            out@ == escape_like_spec(v@.take(i as int)),
        decreases v@.len() - i,
    {
        let c = v[i];
        if c == '\\' || c == '%' || c == '_' {
            push_char(&mut out, '\\');
        }
        push_char(&mut out, c);
        assert(v@.take(i + 1).drop_last() =~= v@.take(i as int));
        assert(out@ =~= escape_like_spec(v@.take(i + 1)));
        i = i + 1;
    }
    assert(v@.take(i as int) =~= v@);
    out
}

/// The session filter: `(salt, ppid)` when asked for and known, else none.
pub open spec fn session_filter_spec(session_only: bool, env: QueryEnv) -> Option<(i64, i64)> {
    if session_only {
        env.session
    } else {
        None
    }
}

pub fn session_filter(session_only: bool, env: &QueryEnv) -> (r: Option<(i64, i64)>)
    ensures
        r == session_filter_spec(session_only, *env),
{
    if session_only {
        env.session
    } else {
        None
    }
}

/// The session of a shell from the text of its salt and ppid variables:
/// none unless both are present and read as integers.
pub open spec fn session_from_vars_spec(salt: Option<Seq<char>>, ppid: Option<Seq<char>>) -> Option<
    (i64, i64),
> {
    match (salt, ppid) {
        (Some(s), Some(p)) => match (parse_i64_spec(s), parse_i64_spec(p)) {
            (Some(a), Some(b)) => Some((a, b)),
            _ => None,
        },
        _ => None,
    }
}

pub open spec fn opt_view(o: Option<String>) -> Option<Seq<char>> {
    match o {
        Some(s) => Some(s@),
        None => None,
    }
}

pub fn session_from_vars(salt: &Option<String>, ppid: &Option<String>) -> (r: Option<(i64, i64)>)
    ensures
        r == session_from_vars_spec(opt_view(*salt), opt_view(*ppid)),
{
    match (salt, ppid) {
        (Some(s), Some(p)) => {
            let sv = chars_of(s.as_str());
            let pv = chars_of(p.as_str());
            match (parse_i64(sv.as_slice()), parse_i64(pv.as_slice())) {
                (Some(a), Some(b)) => Some((a, b)),
                _ => None,
            }
        },
        _ => None,
    }
}

/// The location filter: the directory (the override, else the working
/// directory) and whether it is a prefix (`under`) rather than exact (`here`).
pub open spec fn location_filter_spec(
    here: bool,
    under: bool,
    pwd_override: Option<String>,
    cwd: Option<String>,
) -> Option<(String, bool)> {
    if !(here || under) {
        None
    } else {
        match pwd_override {
            Some(p) => Some((p, under)),
            None => match cwd {
                Some(c) => Some((c, under)),
                None => None,
            },
        }
    }
}

pub fn location_filter(
    here: bool,
    under: bool,
    pwd_override: &Option<String>,
    cwd: &Option<String>,
) -> (r: Option<(String, bool)>)
    ensures
        r == location_filter_spec(here, under, *pwd_override, *cwd),
{
    if !(here || under) {
        return None;
    }
    match pwd_override {
        Some(p) => Some((p.clone(), under)),
        None => match cwd {
            Some(c) => Some((c.clone(), under)),
            None => None,
        },
    }
}

/// Start of the window of the last `days` days.
pub open spec fn days_cutoff_spec(now: i64, days: u32) -> int {
    now - 86400 * days
}

pub fn days_cutoff_epoch(now: i64, days: u32) -> (r: i64)
    requires
        now_in_range(now),
    ensures
        r == days_cutoff_spec(now, days),
{
    now - SECS_PER_DAY * (days as i64)
}

/// The limit bound to a query: the largest `u32` when unlimited.
pub open spec fn limit_spec(all: bool, limit: u32) -> u32 {
    if all {
        u32::MAX
    } else {
        limit
    }
}

/// A piece of a query: SQL text and the values of its placeholders.
pub open spec fn session_part(f: Option<(i64, i64)>) -> (Seq<char>, Seq<Seq<char>>) {
    match f {
        Some((salt, ppid)) => (
            "AND salt=? AND ppid=? "@,
            seq![int_decimal(salt as int), int_decimal(ppid as int)],
        ),
        None => (seq![], seq![]),
    }
}

pub open spec fn location_part(f: Option<(String, bool)>) -> (Seq<char>, Seq<Seq<char>>) {
    match f {
        Some((pwd, true)) => ("AND pwd LIKE ? ESCAPE '\\' "@, seq![escape_like_spec(pwd@).push('%')]),
        Some((pwd, false)) => ("AND pwd = ? "@, seq![pwd@]),
        None => (seq![], seq![]),
    }
}

/// A substring match on the command; with `starts`, a prefix match.
pub open spec fn pattern_part(q: Option<String>, starts: bool) -> (Seq<char>, Seq<Seq<char>>) {
    match q {
        Some(q) => (
            "AND cmd LIKE ? ESCAPE '\\' "@,
            seq![
                if starts {
                    escape_like_spec(q@).push('%')
                } else {
                    seq!['%'] + escape_like_spec(q@).push('%')
                },
            ],
        ),
        None => (seq![], seq![]),
    }
}

fn push_bind(bind: &mut Vec<String>, s: String)
    ensures
        binds_view(final(bind)@) == binds_view(old(bind)@).push(s@),
{
    bind.push(s);
    assert(binds_view(bind@) =~= binds_view(old(bind)@).push(s@));
}

fn push_session(sql: &mut String, bind: &mut Vec<String>, f: Option<(i64, i64)>)
    ensures
        final(sql)@ == old(sql)@ + session_part(f).0,
        binds_view(final(bind)@) == binds_view(old(bind)@) + session_part(f).1,
{
    match f {
        Some((salt, ppid)) => {
            sql.append("AND salt=? AND ppid=? ");
            push_bind(bind, i64_to_string(salt));
            push_bind(bind, i64_to_string(ppid));
            assert(binds_view(bind@) =~= binds_view(old(bind)@) + session_part(f).1);
        },
        None => {
            assert(sql@ =~= old(sql)@ + session_part(f).0);
            assert(binds_view(bind@) =~= binds_view(old(bind)@) + session_part(f).1);
        },
    }
}

fn push_location(sql: &mut String, bind: &mut Vec<String>, f: Option<(String, bool)>)
    ensures
        final(sql)@ == old(sql)@ + location_part(f).0,
        binds_view(final(bind)@) == binds_view(old(bind)@) + location_part(f).1,
{
    match f {
        Some((pwd, under)) => {
            if under {
                sql.append("AND pwd LIKE ? ESCAPE '\\' ");
                let mut p = escape_like(pwd.as_str());
                push_char(&mut p, '%');
                push_bind(bind, p);
            } else {
                sql.append("AND pwd = ? ");
                push_bind(bind, pwd);
            }
            assert(binds_view(bind@) =~= binds_view(old(bind)@) + location_part(f).1);
        },
        None => {
            assert(sql@ =~= old(sql)@ + location_part(f).0);
            assert(binds_view(bind@) =~= binds_view(old(bind)@) + location_part(f).1);
        },
    }
}

fn push_pattern(sql: &mut String, bind: &mut Vec<String>, q: &Option<String>, starts: bool)
    ensures
        final(sql)@ == old(sql)@ + pattern_part(*q, starts).0,
        binds_view(final(bind)@) == binds_view(old(bind)@) + pattern_part(*q, starts).1,
{
    match q {
        Some(q) => {
            sql.append("AND cmd LIKE ? ESCAPE '\\' ");
            let mut p = String::new();
            if !starts {
                push_char(&mut p, '%');
            }
            p.append(escape_like(q.as_str()).as_str());
            push_char(&mut p, '%');
            assert(p@ =~= pattern_part(Some(*q), starts).1[0]);
            push_bind(bind, p);
            assert(binds_view(bind@) =~= binds_view(old(bind)@) + pattern_part(Some(*q), starts).1);
        },
        None => {
            assert(sql@ =~= old(sql)@ + pattern_part(*q, starts).0);
            assert(binds_view(bind@) =~= binds_view(old(bind)@) + pattern_part(*q, starts).1);
        },
    }
}

fn limit_value(all: bool, limit: u32) -> (r: u32)
    ensures
        r == limit_spec(all, limit),
{
    if all {
        u32::MAX
    } else {
        limit
    }
}

/// SQL of the summary query.
pub open spec fn summary_sql_spec(a: SummaryArgs, env: QueryEnv) -> Seq<char> {
    let loc = location_filter_spec(a.here, a.under, a.pwd_override, env.cwd);
    "SELECT max(id) as mid, datetime(max(epoch), 'unixepoch', 'localtime') as dt, count(*) as cnt, cmd"@
        + (if a.pwd { ", pwd"@ } else { seq![] }) + " FROM history WHERE 1=1 "@
        + session_part(session_filter_spec(a.session, env)).0 + pattern_part(a.query, a.starts).0
        + location_part(loc).0 + "GROUP BY cmd "@ + (if a.pwd { ", pwd "@ } else { seq![] })
        + "ORDER BY max(id) DESC "@ + "LIMIT ?"@
}

/// Bind values of the summary query.
pub open spec fn summary_binds_spec(a: SummaryArgs, env: QueryEnv) -> Seq<Seq<char>> {
    let loc = location_filter_spec(a.here, a.under, a.pwd_override, env.cwd);
    session_part(session_filter_spec(a.session, env)).1 + pattern_part(a.query, a.starts).1
        + location_part(loc).1 + seq![int_decimal(limit_spec(a.all, a.limit) as int)]
}

/// The summary query: per command (and directory, with `pwd`) the largest
/// id, the last time seen and the count, most recently used first.
#[verifier::rlimit(30)]
pub fn build_summary_sql(args: &SummaryArgs, env: &QueryEnv) -> (r: (String, Vec<String>))
    ensures
        r.0@ == summary_sql_spec(*args, *env),
        binds_view(r.1@) == summary_binds_spec(*args, *env),
{
    let mut bind: Vec<String> = Vec::new();
    let mut sql = String::from_str(
        "SELECT max(id) as mid, datetime(max(epoch), 'unixepoch', 'localtime') as dt, count(*) as cnt, cmd",
    );
    if args.pwd {
        sql.append(", pwd");
    }
    sql.append(" FROM history WHERE 1=1 ");
    push_session(&mut sql, &mut bind, session_filter(args.session, env));
    push_pattern(&mut sql, &mut bind, &args.query, args.starts);
    push_location(
        &mut sql,
        &mut bind,
        location_filter(args.here, args.under, &args.pwd_override, &env.cwd),
    );
    sql.append("GROUP BY cmd ");
    if args.pwd {
        sql.append(", pwd ");
    }
    sql.append("ORDER BY max(id) DESC ");
    sql.append("LIMIT ?");
    push_bind(&mut bind, u32_to_string(limit_value(args.all, args.limit)));
    assert(binds_view(Seq::<String>::empty()) =~= Seq::<Seq<char>>::empty());
    assert(sql@ =~= summary_sql_spec(*args, *env));
    assert(binds_view(bind@) =~= summary_binds_spec(*args, *env));
    (sql, bind)
}

/// SQL of the list query.
pub open spec fn list_sql_spec(a: ListArgs, env: QueryEnv) -> Seq<char> {
    let loc = location_filter_spec(a.here, a.under, a.pwd_override, env.cwd);
    "SELECT id, datetime(epoch, 'unixepoch', 'localtime') as dt, pwd, cmd, epoch FROM history WHERE 1=1 "@
        + session_part(session_filter_spec(a.session, env)).0 + pattern_part(a.query, false).0
        + location_part(loc).0 + "ORDER BY epoch ASC, id ASC "@ + "LIMIT ? OFFSET ?"@
}

/// Bind values of the list query.
pub open spec fn list_binds_spec(a: ListArgs, env: QueryEnv) -> Seq<Seq<char>> {
    let loc = location_filter_spec(a.here, a.under, a.pwd_override, env.cwd);
    session_part(session_filter_spec(a.session, env)).1 + pattern_part(a.query, false).1
        + location_part(loc).1 + seq![
        int_decimal(limit_spec(a.all, a.limit) as int),
        int_decimal(a.offset as int),
    ]
}

/// The list query: rows oldest first, by epoch then id.
#[verifier::rlimit(30)]
pub fn build_list_sql(args: &ListArgs, env: &QueryEnv) -> (r: (String, Vec<String>))
    ensures
        r.0@ == list_sql_spec(*args, *env),
        binds_view(r.1@) == list_binds_spec(*args, *env),
{
    let mut bind: Vec<String> = Vec::new();
    let mut sql = String::from_str(
        "SELECT id, datetime(epoch, 'unixepoch', 'localtime') as dt, pwd, cmd, epoch FROM history WHERE 1=1 ",
    );
    push_session(&mut sql, &mut bind, session_filter(args.session, env));
    push_pattern(&mut sql, &mut bind, &args.query, false);
    push_location(
        &mut sql,
        &mut bind,
        location_filter(args.here, args.under, &args.pwd_override, &env.cwd),
    );
    sql.append("ORDER BY epoch ASC, id ASC ");
    sql.append("LIMIT ? OFFSET ?");
    push_bind(&mut bind, u32_to_string(limit_value(args.all, args.limit)));
    push_bind(&mut bind, u32_to_string(args.offset));
    assert(binds_view(Seq::<String>::empty()) =~= Seq::<Seq<char>>::empty());
    assert(sql@ =~= list_sql_spec(*args, *env));
    assert(binds_view(bind@) =~= list_binds_spec(*args, *env));
    (sql, bind)
}

/// The time bound of a search: an explicit epoch, else a window of days.
pub open spec fn since_part(since_epoch: Option<i64>, days: Option<u32>, now: i64) -> (
    Seq<char>,
    Seq<Seq<char>>,
) {
    match since_epoch {
        Some(e) => ("AND epoch >= ? "@, seq![int_decimal(e as int)]),
        None => match days {
            Some(d) => ("AND epoch >= ? "@, seq![int_decimal(days_cutoff_spec(now, d))]),
            None => (seq![], seq![]),
        },
    }
}

/// SQL of the search query.
pub open spec fn search_sql_spec(a: SearchArgs, env: QueryEnv) -> Seq<char> {
    let loc = location_filter_spec(a.here, a.under, a.pwd_override, env.cwd);
    "SELECT id, datetime(epoch, 'unixepoch', 'localtime') as dt, pwd, cmd, epoch FROM history WHERE 1=1 "@
        + since_part(a.since_epoch, a.days, env.now).0 + session_part(
        session_filter_spec(a.session, env),
    ).0 + pattern_part(Some(a.query), false).0 + location_part(loc).0
        + "ORDER BY epoch DESC, id DESC "@ + "LIMIT ?"@
}

/// Bind values of the search query.
pub open spec fn search_binds_spec(a: SearchArgs, env: QueryEnv) -> Seq<Seq<char>> {
    let loc = location_filter_spec(a.here, a.under, a.pwd_override, env.cwd);
    since_part(a.since_epoch, a.days, env.now).1 + session_part(session_filter_spec(a.session, env)).1
        + pattern_part(Some(a.query), false).1 + location_part(loc).1 + seq![
        int_decimal(limit_spec(a.all, a.limit) as int),
    ]
}

/// The search query: rows whose command contains the query, newest first.
/// LIKE compares ASCII letters without regard to case.
#[verifier::rlimit(30)]
pub fn build_search_sql(args: &SearchArgs, env: &QueryEnv) -> (r: (String, Vec<String>))
    requires
        now_in_range(env.now),
    ensures
        r.0@ == search_sql_spec(*args, *env),
        binds_view(r.1@) == search_binds_spec(*args, *env),
{
    let mut bind: Vec<String> = Vec::new();
    let mut sql = String::from_str(
        "SELECT id, datetime(epoch, 'unixepoch', 'localtime') as dt, pwd, cmd, epoch FROM history WHERE 1=1 ",
    );
    match args.since_epoch {
        Some(since) => {
            sql.append("AND epoch >= ? ");
            push_bind(&mut bind, i64_to_string(since));
        },
        None => match args.days {
            Some(days) => {
                sql.append("AND epoch >= ? ");
                push_bind(&mut bind, i64_to_string(days_cutoff_epoch(env.now, days)));
            },
            None => {},
        },
    }
    assert(binds_view(bind@) =~= since_part(args.since_epoch, args.days, env.now).1);
    push_session(&mut sql, &mut bind, session_filter(args.session, env));
    let q = Some(args.query.clone());
    push_pattern(&mut sql, &mut bind, &q, false);
    push_location(
        &mut sql,
        &mut bind,
        location_filter(args.here, args.under, &args.pwd_override, &env.cwd),
    );
    sql.append("ORDER BY epoch DESC, id DESC ");
    sql.append("LIMIT ?");
    push_bind(&mut bind, u32_to_string(limit_value(args.all, args.limit)));
    assert(sql@ =~= search_sql_spec(*args, *env));
    assert(binds_view(bind@) =~= search_binds_spec(*args, *env));
    (sql, bind)
}

/// SQL of a stats query: head, session filter, time window, tail.
pub open spec fn stats_sql_spec(head: Seq<char>, session: Option<(i64, i64)>, tail: Seq<char>) -> Seq<
    char,
> {
    head + session_part(session).0 + "AND epoch >= ? "@ + tail
}

/// Bind values of a stats query; `limit` is bound last when present.
pub open spec fn stats_binds_spec(
    session: Option<(i64, i64)>,
    now: i64,
    days: u32,
    limit: Option<u32>,
) -> Seq<Seq<char>> {
    session_part(session).1 + seq![int_decimal(days_cutoff_spec(now, days))] + match limit {
        Some(l) => seq![int_decimal(l as int)],
        None => seq![],
    }
}

fn build_stats_sql(
    head: &str,
    session: Option<(i64, i64)>,
    now: i64,
    days: u32,
    tail: &str,
    limit: Option<u32>,
) -> (r: (String, Vec<String>))
    requires
        now_in_range(now),
    ensures
        r.0@ == stats_sql_spec(head@, session, tail@),
        binds_view(r.1@) == stats_binds_spec(session, now, days, limit),
{
    let mut bind: Vec<String> = Vec::new();
    let mut sql = String::from_str(head);
    push_session(&mut sql, &mut bind, session);
    sql.append("AND epoch >= ? ");
    push_bind(&mut bind, i64_to_string(days_cutoff_epoch(now, days)));
    sql.append(tail);
    match limit {
        Some(l) => push_bind(&mut bind, u32_to_string(l)),
        None => {},
    }
    assert(binds_view(Seq::<String>::empty()) =~= Seq::<Seq<char>>::empty());
    assert(sql@ =~= stats_sql_spec(head@, session, tail@));
    assert(binds_view(bind@) =~= stats_binds_spec(session, now, days, limit));
    (sql, bind)
}

/// The top-commands query: counts per command in the window, most frequent
/// first, ties by most recent activity.
pub fn build_stats_top_sql(args: &StatsTopArgs, env: &QueryEnv) -> (r: (String, Vec<String>))
    requires
        now_in_range(env.now),
    ensures
        r.0@ == stats_sql_spec(
            "SELECT count(*) as cnt, cmd FROM history WHERE 1=1 "@,
            session_filter_spec(args.session, *env),
            "GROUP BY cmd ORDER BY cnt DESC, max(epoch) DESC LIMIT ?"@,
        ),
        binds_view(r.1@) == stats_binds_spec(
            session_filter_spec(args.session, *env),
            env.now,
            args.days,
            Some(limit_spec(args.all, args.limit)),
        ),
{
    build_stats_sql(
        "SELECT count(*) as cnt, cmd FROM history WHERE 1=1 ",
        session_filter(args.session, env),
        env.now,
        args.days,
        "GROUP BY cmd ORDER BY cnt DESC, max(epoch) DESC LIMIT ?",
        Some(limit_value(args.all, args.limit)),
    )
}

/// The by-directory query: counts per (directory, command) in the window,
/// most frequent first, ties by most recent activity.
pub fn build_stats_by_pwd_sql(args: &StatsByPwdArgs, env: &QueryEnv) -> (r: (String, Vec<String>))
    requires
        now_in_range(env.now),
    ensures
        r.0@ == stats_sql_spec(
            "SELECT count(*) as cnt, pwd, cmd FROM history WHERE 1=1 "@,
            session_filter_spec(args.session, *env),
            "GROUP BY pwd, cmd ORDER BY cnt DESC, max(epoch) DESC LIMIT ?"@,
        ),
        binds_view(r.1@) == stats_binds_spec(
            session_filter_spec(args.session, *env),
            env.now,
            args.days,
            Some(limit_spec(args.all, args.limit)),
        ),
{
    build_stats_sql(
        "SELECT count(*) as cnt, pwd, cmd FROM history WHERE 1=1 ",
        session_filter(args.session, env),
        env.now,
        args.days,
        "GROUP BY pwd, cmd ORDER BY cnt DESC, max(epoch) DESC LIMIT ?",
        Some(limit_value(args.all, args.limit)),
    )
}

/// The daily query: counts per local calendar day in the window, oldest
/// day first; it has no limit.
pub fn build_stats_daily_sql(args: &StatsDailyArgs, env: &QueryEnv) -> (r: (String, Vec<String>))
    requires
        now_in_range(env.now),
    ensures
        r.0@ == stats_sql_spec(
            "SELECT date(epoch, 'unixepoch', 'localtime') as day, count(*) as cnt FROM history WHERE 1=1 "@,
            session_filter_spec(args.session, *env),
            "GROUP BY day ORDER BY day ASC"@,
        ),
        binds_view(r.1@) == stats_binds_spec(
            session_filter_spec(args.session, *env),
            env.now,
            args.days,
            None,
        ),
{
    build_stats_sql(
        "SELECT date(epoch, 'unixepoch', 'localtime') as day, count(*) as cnt FROM history WHERE 1=1 ",
        session_filter(args.session, env),
        env.now,
        args.days,
        "GROUP BY day ORDER BY day ASC",
        None,
    )
}

/// ASCII letters folded to lower case; other characters as they are.
pub open spec fn fold_ascii(c: char) -> char {
    if 'A' <= c && c <= 'Z' {
        ((c as u32) + 32) as char
    } else {
        c
    }
}

/// How a SQL `LIKE` with `ESCAPE '\'` matches text against a pattern: `%`
/// takes any run of characters, `_` any one character, `\` makes the next
/// character literal, and letters compare without regard to ASCII case.
pub open spec fn like_match(p: Seq<char>, t: Seq<char>) -> bool
    decreases p.len(), t.len(),
{
    if p.len() == 0 {
        t.len() == 0
    } else if p[0] == '\\' && p.len() >= 2 {
        t.len() > 0 && fold_ascii(t[0]) == fold_ascii(p[1]) && like_match(p.skip(2), t.skip(1))
    } else if p[0] == '%' {
        like_match(p.skip(1), t) || (t.len() > 0 && like_match(p, t.skip(1)))
    } else if p[0] == '_' {
        t.len() > 0 && like_match(p.skip(1), t.skip(1))
    } else {
        t.len() > 0 && fold_ascii(t[0]) == fold_ascii(p[0]) && like_match(p.skip(1), t.skip(1))
    }
}

/// `a` and `b` are equal up to ASCII case.
pub open spec fn same_ignoring_case(a: Seq<char>, b: Seq<char>) -> bool {
    a.len() == b.len() && forall|k: int| 0 <= k < a.len() ==> fold_ascii(#[trigger] a[k]) == fold_ascii(b[k])
}

proof fn lemma_escape_like_front(s: Seq<char>)
    requires
        s.len() > 0,
    ensures
        escape_like_spec(s) == escape_like_char(s[0]) + escape_like_spec(s.drop_first()),
    decreases s.len(),
{
    if s.len() == 1 {
        assert(s.drop_last() =~= Seq::<char>::empty());
        assert(s.drop_first() =~= Seq::<char>::empty());
        assert(escape_like_spec(s) =~= escape_like_char(s[0]) + escape_like_spec(s.drop_first()));
    } else {
        lemma_escape_like_front(s.drop_last());
        assert(s.drop_last().drop_first() =~= s.drop_first().drop_last());
        assert(s.drop_first().last() == s.last());
        assert(escape_like_spec(s) =~= escape_like_char(s[0]) + escape_like_spec(s.drop_first()));
    }
}

#[verifier::rlimit(30)]
proof fn lemma_like_escaped_then(s: Seq<char>, rest: Seq<char>, t: Seq<char>)
    ensures
        like_match(escape_like_spec(s) + rest, t) <==> (s.len() <= t.len() && same_ignoring_case(
            s,
            t.take(s.len() as int),
        ) && like_match(rest, t.skip(s.len() as int))),
    decreases s.len(),
{
    if s.len() == 0 {
        assert(escape_like_spec(s) + rest =~= rest);
        assert(t.skip(0) =~= t);
    } else {
        lemma_escape_like_front(s);
        let p = escape_like_spec(s) + rest;
        let tail = escape_like_spec(s.drop_first()) + rest;
        lemma_like_escaped_then(s.drop_first(), rest, t.skip(1));
        if s[0] == '\\' || s[0] == '%' || s[0] == '_' {
            assert(p =~= seq!['\\', s[0]] + tail);
            assert(p.skip(2) =~= tail);
        } else {
            assert(p =~= seq![s[0]] + tail);
            assert(p.skip(1) =~= tail);
        }
        if t.len() > 0 {
            if s.len() <= t.len() {
                assert(t.skip(1).skip(s.len() - 1) =~= t.skip(s.len() as int));
                let a = s.drop_first();
                let b = t.skip(1).take(s.len() - 1);
                if same_ignoring_case(s, t.take(s.len() as int)) {
                    assert(fold_ascii(s[0]) == fold_ascii(t.take(s.len() as int)[0]));
                    assert forall|k: int| 0 <= k < a.len() implies fold_ascii(#[trigger] a[k]) == fold_ascii(
                        b[k],
                    ) by {
                        assert(a[k] == s[k + 1]);
                        assert(b[k] == t.take(s.len() as int)[k + 1]);
                    }
                }
                if fold_ascii(t[0]) == fold_ascii(s[0]) && same_ignoring_case(a, b) {
                    assert forall|k: int| 0 <= k < s.len() implies fold_ascii(#[trigger] s[k]) == fold_ascii(
                        t.take(s.len() as int)[k],
                    ) by {
                        if k > 0 {
                            assert(a[k - 1] == s[k]);
                            assert(b[k - 1] == t.take(s.len() as int)[k]);
                        }
                    }
                }
            }
        }
    }
}

/// An escaped string, used as a LIKE pattern, matches exactly the texts
/// equal to it up to ASCII case: its `%`, `_` and `\` match only themselves.
pub proof fn lemma_escape_like_matches_literally(s: Seq<char>, t: Seq<char>)
    ensures
        like_match(escape_like_spec(s), t) <==> same_ignoring_case(s, t),
{
    lemma_like_escaped_then(s, seq![], t);
    assert(escape_like_spec(s) + seq![] =~= escape_like_spec(s));
    if s.len() <= t.len() && t.skip(s.len() as int).len() == 0 {
        assert(t.take(s.len() as int) =~= t);
    }
    if same_ignoring_case(s, t) {
        assert(t.take(s.len() as int) =~= t);
    }
}

proof fn lemma_percent_matches_all(t: Seq<char>)
    ensures
        like_match(seq!['%'], t),
    decreases t.len(),
{
    let p = seq!['%'];
    assert(p.skip(1) =~= Seq::<char>::empty());
    assert(p[0] == '%' && p.len() == 1);
    if t.len() > 0 {
        lemma_percent_matches_all(t.skip(1));
        assert(like_match(p, t.skip(1)));
    } else {
        assert(like_match(p.skip(1), t));
    }
}

/// The pattern of the `under` filter (the escaped directory followed by
/// `%`) matches exactly the texts that start with the directory, up to
/// ASCII case; wildcards inside the directory match only themselves.
pub proof fn lemma_under_pattern_matches_prefix(dir: Seq<char>, t: Seq<char>)
    ensures
        like_match(escape_like_spec(dir).push('%'), t) <==> (dir.len() <= t.len() && same_ignoring_case(
            dir,
            t.take(dir.len() as int),
        )),
{
    lemma_like_escaped_then(dir, seq!['%'], t);
    assert(escape_like_spec(dir).push('%') =~= escape_like_spec(dir) + seq!['%']);
    lemma_percent_matches_all(t.skip(dir.len() as int));
}

/// SQL of the export query.
pub open spec fn export_sql_spec(a: ExportArgs, env: QueryEnv) -> Seq<char> {
    "SELECT id, hist_id, cmd, epoch, ppid, pwd, salt FROM history WHERE 1=1 "@ + session_part(
        session_filter_spec(a.session, env),
    ).0 + "ORDER BY epoch ASC, id ASC"@
}

/// The export query: every row (of the session, when asked), oldest first.
pub fn build_export_sql(args: &ExportArgs, env: &QueryEnv) -> (r: (String, Vec<String>))
    ensures
        r.0@ == export_sql_spec(*args, *env),
        binds_view(r.1@) == session_part(session_filter_spec(args.session, *env)).1,
{
    let mut bind: Vec<String> = Vec::new();
    let mut sql = String::from_str("SELECT id, hist_id, cmd, epoch, ppid, pwd, salt FROM history WHERE 1=1 ");
    push_session(&mut sql, &mut bind, session_filter(args.session, env));
    sql.append("ORDER BY epoch ASC, id ASC");
    assert(binds_view(Seq::<String>::empty()) =~= Seq::<Seq<char>>::empty());
    assert(sql@ =~= export_sql_spec(*args, *env));
    assert(binds_view(bind@) =~= session_part(session_filter_spec(args.session, *env)).1);
    (sql, bind)
}

} // verus!
