use sdbh::fzf::{
    find_str, list_line, pick_before, pick_summary_command, stats_by_pwd_line, stats_daily_line, stats_top_line,
    summary_line,
};

#[test]
fn selector_lines() {
    assert_eq!(list_line("ls -la", "2023-11-14 22:13:20", "/tmp"), "ls -la  (2023-11-14 22:13:20) [/tmp]");
    assert_eq!(summary_line("git status", &None, 2, "d"), "git status  (2 uses, last: d)");
    assert_eq!(summary_line("git status", &Some("/p".to_string()), 2, "d"), "git status [/p]  (2 uses, last: d)");
    assert_eq!(stats_top_line("make", 7), "make  (7 uses)");
    assert_eq!(stats_by_pwd_line("make", "/src", 3), "make  [/src]  (3 uses)");
    assert_eq!(stats_daily_line("2023-11-14", 4), "2023-11-14  (4 commands)");
}

#[test]
fn picked_lines_read_back() {
    assert_eq!(pick_before("  ls -la  (t) [/tmp]\n", "  ("), Some("ls -la".to_string()));
    assert_eq!(pick_before("make  [/src]  (3 uses)", "  ["), Some("make".to_string()));
    assert_eq!(pick_before("   ", "  ("), None);
    assert_eq!(pick_before("no marker", "  ("), None);
    assert_eq!(pick_summary_command("git status [/p]  (2 uses, last: d)"), Some("git status".to_string()));
    assert_eq!(pick_summary_command("echo a  (1 uses, last: d)"), Some("echo a".to_string()));
    let t: Vec<char> = "abcabc".chars().collect();
    assert_eq!(find_str(&t, "ca"), Some(2));
    assert_eq!(find_str(&t, "x"), None);
    assert_eq!(find_str(&t, ""), Some(0));
}
