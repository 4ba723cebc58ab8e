use sdbh::args::{ListArgs, OutputFormat, SearchArgs, StatsByPwdArgs, StatsDailyArgs, StatsTopArgs, SummaryArgs};
use sdbh::query::{
    build_list_sql, build_search_sql, build_stats_by_pwd_sql, build_stats_daily_sql, build_stats_top_sql,
    build_summary_sql, days_cutoff_epoch, escape_like, location_filter, session_filter, session_from_vars,
    QueryEnv,
};
use sdbh::store::{INSERT_ROW_SQL, SCHEMA_SQL};

fn env() -> QueryEnv {
    QueryEnv { session: None, cwd: None, now: 1_700_100_000 }
}

fn summary_args(limit: u32, all: bool) -> SummaryArgs {
    SummaryArgs {
        query: None,
        limit,
        starts: false,
        all,
        session: false,
        pwd: false,
        pwd_override: None,
        here: false,
        under: false,
        verbose: false,
        fzf: false,
        multi_select: false,
    }
}

fn list_args() -> ListArgs {
    ListArgs {
        query: None,
        limit: 100,
        offset: 0,
        format: OutputFormat::Table,
        all: true,
        session: false,
        pwd_override: None,
        here: false,
        under: false,
        fzf: false,
        multi_select: false,
    }
}

fn memory_store() -> rusqlite::Connection {
    let conn = rusqlite::Connection::open_in_memory().unwrap();
    conn.execute_batch(SCHEMA_SQL).unwrap();
    conn
}

fn insert(conn: &rusqlite::Connection, cmd: &str, epoch: i64, pwd: &str) {
    let values: Vec<Option<String>> = vec![
        None,
        Some(cmd.to_string()),
        Some(epoch.to_string()),
        Some("123".to_string()),
        Some(pwd.to_string()),
        Some("42".to_string()),
    ];
    conn.execute(INSERT_ROW_SQL, rusqlite::params_from_iter(values.iter())).unwrap();
}

fn like(conn: &rusqlite::Connection, text: &str, pattern: &str) -> bool {
    let values = vec![text.to_string(), pattern.to_string()];
    conn.query_row("SELECT ?1 LIKE ?2 ESCAPE '\\'", rusqlite::params_from_iter(values.iter()), |r| {
        r.get::<_, i64>(0)
    })
    .unwrap()
        == 1
}

#[test]
fn escape_like_escapes_wildcards() {
    assert_eq!(escape_like("a%b_c\\d"), "a\\%b\\_c\\\\d");
}

#[test]
fn build_summary_sql_with_all_unlimited() {
    let args = summary_args(5, true);
    let (_sql, bind) = build_summary_sql(&args, &env());
    assert_eq!(bind.last().unwrap(), &u32::MAX.to_string());
}

#[test]
fn build_summary_sql_with_limit() {
    let args = summary_args(5, false);
    let (_sql, bind) = build_summary_sql(&args, &env());
    assert_eq!(bind.last().unwrap(), "5");
}

#[test]
fn build_stats_top_sql_basic() {
    let args = StatsTopArgs { days: 30, limit: 50, all: false, session: false, fzf: false, multi_select: false };
    let (sql, bind) = build_stats_top_sql(&args, &env());
    assert!(sql.contains("GROUP BY cmd"));
    assert!(sql.contains("ORDER BY cnt DESC"));
    assert!(bind.len() > 0);
}

#[test]
fn build_stats_by_pwd_sql_basic() {
    let args = StatsByPwdArgs { days: 30, limit: 50, all: false, session: false, fzf: false, multi_select: false };
    let (sql, bind) = build_stats_by_pwd_sql(&args, &env());
    assert!(sql.contains("GROUP BY pwd, cmd"));
    assert!(sql.contains("ORDER BY cnt DESC"));
    assert!(bind.len() > 0);
}

#[test]
fn build_stats_daily_sql_basic() {
    let args = StatsDailyArgs { days: 30, all: false, session: false, fzf: false, multi_select: false };
    let (sql, bind) = build_stats_daily_sql(&args, &env());
    assert!(sql.contains("GROUP BY day"));
    assert!(sql.contains("ORDER BY day ASC"));
    assert!(bind.len() > 0);
}

#[test]
fn stats_binds_cutoff_and_limit() {
    let args = StatsTopArgs { days: 30, limit: 50, all: false, session: false, fzf: false, multi_select: false };
    let (_sql, bind) = build_stats_top_sql(&args, &env());
    assert_eq!(bind, vec![(1_700_100_000i64 - 30 * 86400).to_string(), "50".to_string()]);
    let daily = StatsDailyArgs { days: 1, all: false, session: false, fzf: false, multi_select: false };
    let (sql, bind) = build_stats_daily_sql(&daily, &env());
    assert!(!sql.contains("LIMIT"));
    assert_eq!(bind, vec!["1700013600".to_string()]);
}

#[test]
fn days_cutoff_is_now_minus_whole_days() {
    assert_eq!(days_cutoff_epoch(1_000_000, 0), 1_000_000);
    assert_eq!(days_cutoff_epoch(1_000_000, 2), 1_000_000 - 172_800);
    assert_eq!(days_cutoff_epoch(0, u32::MAX), -(u32::MAX as i64) * 86400);
}

#[test]
fn summary_sql_with_every_filter() {
    let mut args = summary_args(10, false);
    args.query = Some("git_%".to_string());
    args.starts = true;
    args.session = true;
    args.pwd = true;
    args.under = true;
    args.pwd_override = Some("/tmp/a_b".to_string());
    let e = QueryEnv { session: Some((7, -3)), cwd: Some("/ignored".to_string()), now: 0 };
    let (sql, bind) = build_summary_sql(&args, &e);
    assert_eq!(
        sql,
        "SELECT max(id) as mid, datetime(max(epoch), 'unixepoch', 'localtime') as dt, count(*) as cnt, cmd, pwd \
         FROM history WHERE 1=1 AND salt=? AND ppid=? AND cmd LIKE ? ESCAPE '\\' AND pwd LIKE ? ESCAPE '\\' \
         GROUP BY cmd , pwd ORDER BY max(id) DESC LIMIT ?"
    );
    assert_eq!(bind, vec!["7", "-3", "git\\_\\%%", "/tmp/a\\_b%", "10"]);
}

#[test]
fn list_sql_orders_oldest_first_with_offset() {
    let mut args = list_args();
    args.all = false;
    args.limit = 3;
    args.offset = 4;
    args.query = Some("ls".to_string());
    args.here = true;
    let e = QueryEnv { session: None, cwd: Some("/home/x".to_string()), now: 0 };
    let (sql, bind) = build_list_sql(&args, &e);
    assert!(sql.ends_with("AND pwd = ? ORDER BY epoch ASC, id ASC LIMIT ? OFFSET ?"));
    assert_eq!(bind, vec!["%ls%", "/home/x", "3", "4"]);
}

#[test]
fn search_sql_time_bound_and_order() {
    let args = SearchArgs {
        query: "100%".to_string(),
        limit: 100,
        format: OutputFormat::Json,
        all: false,
        session: false,
        since_epoch: None,
        days: Some(2),
        pwd_override: None,
        here: false,
        under: false,
        fzf: false,
        multi_select: false,
    };
    let (sql, bind) = build_search_sql(&args, &env());
    assert!(sql.contains("AND epoch >= ? AND cmd LIKE ? ESCAPE '\\' ORDER BY epoch DESC, id DESC LIMIT ?"));
    assert_eq!(bind, vec!["1699927200", "%100\\%%", "100"]);
    let mut explicit = args.clone();
    explicit.since_epoch = Some(-12);
    let (_sql, bind) = build_search_sql(&explicit, &env());
    assert_eq!(bind[0], "-12");
}

#[test]
fn session_filter_degrades_to_none() {
    let e = QueryEnv { session: Some((1, 2)), cwd: None, now: 0 };
    assert_eq!(session_filter(true, &e), Some((1, 2)));
    assert_eq!(session_filter(false, &e), None);
    assert_eq!(session_from_vars(&Some("42".to_string()), &Some("+100".to_string())), Some((42, 100)));
    assert_eq!(session_from_vars(&Some("x42".to_string()), &Some("100".to_string())), None);
    assert_eq!(session_from_vars(&None, &Some("100".to_string())), None);
    assert_eq!(session_from_vars(&Some("9223372036854775808".to_string()), &Some("1".to_string())), None);
    assert_eq!(
        session_from_vars(&Some("-9223372036854775808".to_string()), &Some("1".to_string())),
        Some((i64::MIN, 1))
    );
}

#[test]
fn location_filter_prefers_override() {
    let cwd = Some("/cwd".to_string());
    assert_eq!(location_filter(false, false, &Some("/o".to_string()), &cwd), None);
    assert_eq!(location_filter(true, false, &Some("/o".to_string()), &cwd), Some(("/o".to_string(), false)));
    assert_eq!(location_filter(false, true, &None, &cwd), Some(("/cwd".to_string(), true)));
    assert_eq!(location_filter(true, false, &None, &None), None);
}

#[test]
fn like_escaping_round_trip() {
    let conn = memory_store();
    let pattern = escape_like("a%b_c\\d");
    assert!(like(&conn, "a%b_c\\d", &pattern));
    assert!(!like(&conn, "aXbYcZd", &pattern));
}

#[test]
fn under_filter_matches_wildcards_literally() {
    let conn = memory_store();
    insert(&conn, "echo a", 1_700_000_000, "/tmp/proj_%");
    insert(&conn, "echo b", 1_700_000_001, "/tmp/proj_x");
    let mut args = list_args();
    args.under = true;
    args.pwd_override = Some("/tmp/proj_%".to_string());
    let (sql, bind) = build_list_sql(&args, &env());
    let mut stmt = conn.prepare(&sql).unwrap();
    let cmds: Vec<String> = stmt
        .query_map(rusqlite::params_from_iter(bind.iter()), |r| r.get::<_, String>(3))
        .unwrap()
        .map(|r| r.unwrap())
        .collect();
    assert_eq!(cmds, vec!["echo a".to_string()]);
}

#[test]
fn summary_groups_by_command_most_recent_first() {
    let conn = memory_store();
    let t = 1_700_000_000;
    insert(&conn, "git status", t, "/tmp");
    insert(&conn, "git status", t + 1, "/tmp");
    insert(&conn, "ls", t + 2, "/tmp");
    let args = summary_args(100, true);
    let (sql, bind) = build_summary_sql(&args, &env());
    let mut stmt = conn.prepare(&sql).unwrap();
    let rows: Vec<(i64, i64, String)> = stmt
        .query_map(rusqlite::params_from_iter(bind.iter()), |r| {
            Ok((r.get::<_, i64>(0)?, r.get::<_, i64>(2)?, r.get::<_, String>(3)?))
        })
        .unwrap()
        .map(|r| r.unwrap())
        .collect();
    assert_eq!(rows, vec![(3, 1, "ls".to_string()), (2, 2, "git status".to_string())]);
    let git = rows.iter().position(|r| r.2 == "git status").unwrap();
    assert_eq!(rows[git].1, 2);
    assert_eq!(rows[git].0, 2);
}

#[test]
fn stats_daily_buckets_in_ascending_order() {
    let conn = memory_store();
    insert(&conn, "echo x", 1_700_000_000, "/tmp");
    insert(&conn, "echo x", 1_700_086_400, "/tmp");
    let args = StatsDailyArgs { days: 9999, all: true, session: false, fzf: false, multi_select: false };
    let (sql, bind) = build_stats_daily_sql(&args, &env());
    let mut stmt = conn.prepare(&sql).unwrap();
    let rows: Vec<(String, i64)> = stmt
        .query_map(rusqlite::params_from_iter(bind.iter()), |r| Ok((r.get::<_, String>(0)?, r.get::<_, i64>(1)?)))
        .unwrap()
        .map(|r| r.unwrap())
        .collect();
    assert_eq!(rows.len(), 2);
    assert!(rows[0].0 < rows[1].0);
    assert_eq!(rows[0].1, 1);
    assert_eq!(rows[1].1, 1);
}

#[test]
fn search_matches_ascii_case_insensitively() {
    let conn = memory_store();
    insert(&conn, "kubectl get pods", 1_700_000_000, "/tmp");
    insert(&conn, "KUBECTL describe pod", 1_700_000_001, "/tmp");
    insert(&conn, "git status", 1_700_000_002, "/tmp");
    let args = SearchArgs {
        query: "kubectl".to_string(),
        limit: 100,
        format: OutputFormat::Table,
        all: true,
        session: false,
        since_epoch: None,
        days: None,
        pwd_override: None,
        here: false,
        under: false,
        fzf: false,
        multi_select: false,
    };
    let (sql, bind) = build_search_sql(&args, &env());
    let mut stmt = conn.prepare(&sql).unwrap();
    let cmds: Vec<String> = stmt
        .query_map(rusqlite::params_from_iter(bind.iter()), |r| r.get::<_, String>(3))
        .unwrap()
        .map(|r| r.unwrap())
        .collect();
    assert_eq!(cmds, vec!["KUBECTL describe pod".to_string(), "kubectl get pods".to_string()]);
}
