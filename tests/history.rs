use sdbh::history::{assign_epochs, parse_bash_history, parse_zsh_history, HistoryEntry};
use sdbh::shell::{bash_hook_snippet, shell_snippets, zsh_intercept_snippet};

fn entry(epoch: Option<i64>, cmd: &str) -> HistoryEntry {
    HistoryEntry { epoch, cmd: cmd.to_string() }
}

#[test]
fn bash_history_with_and_without_timestamps() {
    let text = "echo one\n#1700000000\necho two  \n\n#bad\n#17\n";
    assert_eq!(
        parse_bash_history(text),
        vec![entry(None, "echo one"), entry(Some(1_700_000_000), "echo two"), entry(None, "#bad")]
    );
    assert_eq!(parse_bash_history("echo one\necho two\n"), vec![entry(None, "echo one"), entry(None, "echo two")]);
}

#[test]
fn zsh_extended_history() {
    let text = ": 1700000000:0;echo zsh\nplain cmd\r\n: x:0;odd\n";
    assert_eq!(
        parse_zsh_history(text),
        vec![entry(Some(1_700_000_000), "echo zsh"), entry(None, "plain cmd"), entry(None, ": x:0;odd")]
    );
}

#[test]
fn synthetic_epochs_are_deterministic() {
    let es = vec![entry(None, "a"), entry(Some(5), "b"), entry(None, "c")];
    assert_eq!(assign_epochs(&es), vec![999_999_999, 5, 1_000_000_000]);
    assert_eq!(assign_epochs(&es), assign_epochs(&es));
}

#[test]
fn snippets_for_chosen_shells() {
    assert_eq!(shell_snippets(false, false, false).len(), 2);
    assert_eq!(shell_snippets(true, false, false), vec![bash_hook_snippet()]);
    assert_eq!(shell_snippets(false, true, true), vec![zsh_intercept_snippet()]);
    assert!(bash_hook_snippet().contains("__sdbh_prompt"));
}
