use sdbh::display::CommandType;
use sdbh::preview::{
    find_semantic_related_commands, first_word, get_command_context, merge_suggestions, subcommand_info, text_contains,
    tool_pattern,
};

#[test]
fn contexts_by_kind_and_words() {
    assert_eq!(
        get_command_context("git status", CommandType::Git).as_deref(),
        Some("Shows working directory status and changes")
    );
    assert_eq!(get_command_context("git rebase", CommandType::Git).as_deref(), Some("Git version control operation"));
    assert_eq!(get_command_context("make clean", CommandType::Make).as_deref(), Some("Removes build artifacts"));
    assert_eq!(get_command_context("ls", CommandType::Navigation), None);
}

#[test]
fn related_commands_by_kind_and_words() {
    assert_eq!(
        find_semantic_related_commands("git fetch origin", CommandType::Git),
        vec!["git status", "git log --oneline -5", "git merge"]
    );
    assert_eq!(find_semantic_related_commands("cargo test", CommandType::Cargo), vec!["cargo build", "cargo run"]);
    assert_eq!(find_semantic_related_commands("make", CommandType::Make), vec!["make clean", "make install", "make test"]);
    assert!(find_semantic_related_commands("docker images", CommandType::Docker).is_empty());
    assert!(find_semantic_related_commands("ls", CommandType::Navigation).is_empty());
}

#[test]
fn substring_search() {
    let hay: Vec<char> = "docker ps -a".chars().collect();
    assert!(text_contains(&hay, "ps"));
    assert!(text_contains(&hay, ""));
    assert!(!text_contains(&hay, "build"));
    assert!(!text_contains(&['a'], "ab"));
}

#[test]
fn subcommand_descriptions() {
    assert_eq!(subcommand_info("git  log -p", CommandType::Git).as_deref(), Some("Shows commit history"));
    assert_eq!(subcommand_info("git", CommandType::Git), None);
    assert_eq!(subcommand_info("make", CommandType::Make).as_deref(), Some("Runs default make target"));
    assert_eq!(subcommand_info("make dist", CommandType::Make).as_deref(), Some("Runs make target: dist"));
    assert_eq!(subcommand_info("make docs", CommandType::Make).as_deref(), Some("Generates documentation"));
    assert_eq!(
        subcommand_info("kubectl port-forward svc/x 80", CommandType::Kubectl).as_deref(),
        Some("Forwards local port to pod")
    );
    assert_eq!(subcommand_info("ls -la", CommandType::Navigation), None);
}

#[test]
fn suggestions_are_distinct_capped_and_skip_the_command() {
    let c: Vec<String> = ["git status", "git push", "git status", "git log", "a", "b", "c", "d"]
        .iter()
        .map(|s| s.to_string())
        .collect();
    assert_eq!(merge_suggestions(&c, "git push"), vec!["git status", "git log", "a", "b", "c"]);
    assert_eq!(first_word("  cargo build"), "cargo");
    assert_eq!(tool_pattern("my_tool"), "my\\_tool %");
}
