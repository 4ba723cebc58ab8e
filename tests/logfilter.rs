use sdbh::logfilter::{is_builtin_noisy_command, LogFilter};

#[test]
fn builtin_noisy_commands() {
    for c in ["ls", "pwd", "history", "clear", "exit", "cd", "cd /tmp", "cd\t..", "ls -la", "sdbh list"] {
        assert!(is_builtin_noisy_command(c), "{c}");
    }
    for c in ["lsof", "cdrecord", "git status", "sdbhx", "echo ls"] {
        assert!(!is_builtin_noisy_command(c), "{c}");
    }
}

#[test]
fn should_skip_blank_builtin_exact_and_prefix() {
    let f = LogFilter::load_default();
    assert!(f.should_skip("   "));
    assert!(f.should_skip("  ls  "));
    assert!(!f.should_skip("echo hello"));
    let custom = LogFilter {
        use_builtin_ignores: false,
        ignore_exact: vec![" echo hello ".to_string()],
        ignore_prefix: vec!["git ".to_string()],
    };
    assert!(!custom.should_skip("ls"));
    assert!(custom.should_skip("echo hello"));
    assert!(custom.should_skip(" git status"));
    assert!(!custom.should_skip("gitk"));
}
