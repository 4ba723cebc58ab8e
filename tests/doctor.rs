use sdbh::display::{DoctorCheck, DoctorStatus};
use sdbh::doctor::{
    bash_spawn_checks, check_env_i64, doctor_json, doctor_table_line, marked_line_value, parse_bash_inspect,
    parse_zsh_inspect, zsh_spawn_checks, BashInspect, ZshInspect,
};

#[test]
fn env_checks() {
    let c = check_env_i64("SDBH_SALT", &None);
    assert_eq!((c.status, c.detail.as_str()), (DoctorStatus::Warn, "SDBH_SALT is not set"));
    let c = check_env_i64("SDBH_PPID", &Some("123".to_string()));
    assert_eq!((c.status, c.detail.as_str()), (DoctorStatus::Pass, "SDBH_PPID=123"));
    let c = check_env_i64("SDBH_PPID", &Some("12a".to_string()));
    assert_eq!((c.status, c.detail.as_str()), (DoctorStatus::Warn, "SDBH_PPID is set but not an integer: 12a"));
}

#[test]
fn inspect_parsing_takes_last_marked_line() {
    let out = "noise\n__SDBH_PROMPT_COMMAND__=a\r\n__SDBH_PROMPT_COMMAND__=__sdbh_prompt; x\n__SDBH_TRAP_DEBUG__=\n";
    let rep = parse_bash_inspect(out);
    assert_eq!(rep.prompt_command, "__sdbh_prompt; x");
    assert_eq!(rep.trap_debug, "");
    assert_eq!(marked_line_value("k=1\r\n", "k="), "1");
    assert_eq!(marked_line_value("", "k="), "");
    let z = parse_zsh_inspect("__SDBH_PRECMD__=sdbh_precmd\n__SDBH_PREEXEC__=\n");
    assert_eq!(z.precmd_functions, "sdbh_precmd");
}

#[test]
fn spawn_checks_and_summaries() {
    let rep = BashInspect { prompt_command: "__sdbh_prompt".to_string(), trap_debug: "é".to_string() };
    assert_eq!(rep.summary(), "prompt_command_len=13, trap_debug_len=2");
    let checks = bash_spawn_checks(&rep);
    assert_eq!(checks[0].detail, "ok: prompt_command_len=13, trap_debug_len=2");
    assert_eq!(checks[1].status, DoctorStatus::Pass);
    assert_eq!(checks[2].status, DoctorStatus::Info);
    assert_eq!(checks[2].detail, "DEBUG trap missing __sdbh_debug_trap");
    let z = ZshInspect { precmd_functions: String::new(), preexec_functions: "a sdbh_preexec".to_string() };
    let checks = zsh_spawn_checks(&z);
    assert_eq!(checks[0].detail, "ok: precmd_len=0, preexec_len=14");
    assert_eq!(checks[1].status, DoctorStatus::Info);
    assert_eq!(checks[2].status, DoctorStatus::Pass);
}

#[test]
fn report_formats() {
    let checks = vec![
        DoctorCheck::ok("db.open", "opened x".to_string()),
        DoctorCheck::warn("SDBH_SALT", "SDBH_SALT is not set".to_string()),
    ];
    assert_eq!(doctor_table_line(&checks[0]), "db.open            | ok    | opened x");
    assert_eq!(
        doctor_json(&checks),
        "[{\"check\":\"db.open\",\"status\":\"ok\",\"detail\":\"opened x\"},\
{\"check\":\"SDBH_SALT\",\"status\":\"warn\",\"detail\":\"SDBH_SALT is not set\"}]"
    );
    assert_eq!(doctor_json(&vec![]), "[]");
}
