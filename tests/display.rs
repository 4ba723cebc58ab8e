use sdbh::display::{
    export_json_line, format_command_type, format_timestamp, json_row_object, json_string, status_str,
    truncate_for_display, CommandType, DoctorCheck, DoctorStatus,
};
use sdbh::domain::HistoryRow;
use sdbh::args::OutputFormat;

#[test]
fn json_string_escapes() {
    assert_eq!(json_string("a\"b\\c\nd\re\tf"), "\"a\\\"b\\\\c\\nd\\re\\tf\"");
    assert_eq!(json_string(""), "\"\"");
}

#[test]
fn json_lines() {
    assert_eq!(
        json_row_object(1, 1_700_000_000, "/tmp", "printf 'a'"),
        "{\"id\":1,\"epoch\":1700000000,\"pwd\":\"/tmp\",\"cmd\":\"printf 'a'\"}"
    );
    let row = HistoryRow { hist_id: None, cmd: "echo hi".to_string(), epoch: 5, ppid: 6, pwd: "/".to_string(), salt: -7 };
    assert_eq!(
        export_json_line(3, &row),
        "{\"id\":3,\"hist_id\":null,\"epoch\":5,\"ppid\":6,\"pwd\":\"/\",\"salt\":-7,\"cmd\":\"echo hi\"}"
    );
    assert_eq!(format_timestamp(-12), "-12");
}

#[test]
fn truncation() {
    assert_eq!(truncate_for_display("hello", 5), "hello");
    assert_eq!(truncate_for_display("hello world", 8), "hello...");
    assert_eq!(truncate_for_display("hello", 2), "...");
}

#[test]
fn command_kinds() {
    assert_eq!(CommandType::detect("GIT status"), CommandType::Git);
    assert_eq!(CommandType::detect("  kubens prod"), CommandType::Kubectl);
    assert_eq!(CommandType::detect("pip3 install x"), CommandType::Python);
    assert_eq!(CommandType::detect("uname -a"), CommandType::System);
    assert_eq!(CommandType::detect("echo"), CommandType::Generic);
    assert_eq!(format_command_type(CommandType::Go), "🐹 Go");
}

#[test]
fn statuses() {
    assert_eq!(status_str(DoctorStatus::Pass), "ok");
    assert_eq!(status_str(DoctorStatus::Fail), "fail");
    let c = DoctorCheck::warn("SDBH_SALT", "SDBH_SALT is not set".to_string());
    assert_eq!(c.status, DoctorStatus::Warn);
    assert_eq!(c.name, "SDBH_SALT");
    assert_eq!(OutputFormat::Json.name(), "json");
}

#[test]
fn relative_ages() {
    let now = 1_700_000_000;
    assert_eq!(sdbh::display::relative_age(now, now + 1).as_deref(), Some("in the future"));
    assert_eq!(sdbh::display::relative_age(now, now - 59).as_deref(), Some("59s ago"));
    assert_eq!(sdbh::display::relative_age(now, now - 3599).as_deref(), Some("59m ago"));
    assert_eq!(sdbh::display::relative_age(now, now - 7200).as_deref(), Some("2h ago"));
    assert_eq!(sdbh::display::relative_age(now, now - 86400 * 6).as_deref(), Some("6d ago"));
    assert_eq!(sdbh::display::relative_age(now, now - 604800), None);
    assert_eq!(sdbh::display::relative_age(i64::MAX, i64::MIN), None);
}
