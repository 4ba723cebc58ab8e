//! What the preview shows beside a command: a one-line description of
//! what it does, and commands that often follow it.
use vstd::prelude::*;
use crate::display::CommandType;
use crate::text::{chars_of, push_char, second_token, skip_whitespace, skip_word};

verus! {

/// `needle` occurs in `hay`.
pub open spec fn contains_spec(hay: Seq<char>, needle: Seq<char>) -> bool {
    exists|i: int| 0 <= i <= hay.len() - needle.len() && #[trigger] hay.subrange(i, i + needle.len()) == needle
}

/// Whether `needle` occurs in `hay`.
pub fn text_contains(hay: &[char], needle: &str) -> (r: bool)
    ensures
        r == contains_spec(hay@, needle@),
{
    let nv = chars_of(needle);
    let n = nv.len();
    if n > hay.len() {
        return false;
    }
    let last = hay.len() - n;
    let mut i: usize = 0;
    loop
        invariant
            n == needle@.len(),
            nv@ == needle@,
            n <= hay@.len(),
            last == hay@.len() - n,
            hay@.len() == hay.len(),
            i <= last,
            forall|j: int| 0 <= j < i ==> #[trigger] hay@.subrange(j, j + n) != needle@,
        decreases last - i,
    {
        let w = &hay[i..i + n];
        if crate::text::chars_eq(w, nv.as_slice()) {
            return true;
        }
        if i == last {
            return false;
        }
        i = i + 1;
    }
}

/// A one-line description of what a command of the given kind does.
pub open spec fn context_spec(cmd: Seq<char>, kind: CommandType) -> Option<Seq<char>> {
    match kind {
        CommandType::Git => Some(
            if contains_spec(cmd, "status"@) {
                "Shows working directory status and changes"@
            } else if contains_spec(cmd, "commit"@) {
                "Records changes to repository"@
            } else if contains_spec(cmd, "push"@) {
                "Uploads local commits to remote"@
            } else if contains_spec(cmd, "pull"@) {
                "Downloads and integrates remote changes"@
            } else {
                "Git version control operation"@
            }
        ),
        CommandType::Docker => Some(
            if contains_spec(cmd, "build"@) {
                "Builds image from Dockerfile"@
            } else if contains_spec(cmd, "run"@) {
                "Creates and starts new container"@
            } else if contains_spec(cmd, "ps"@) {
                "Lists running containers"@
            } else {
                "Docker container management"@
            }
        ),
        CommandType::Cargo => Some(
            if contains_spec(cmd, "build"@) {
                "Compiles the current package"@
            } else if contains_spec(cmd, "test"@) {
                "Runs package tests"@
            } else if contains_spec(cmd, "run"@) {
                "Builds and runs the current package"@
            } else {
                "Rust package management"@
            }
        ),
        CommandType::Npm => Some(
            if contains_spec(cmd, "install"@) {
                "Installs package dependencies"@
            } else if contains_spec(cmd, "start"@) {
                "Starts the application"@
            } else if contains_spec(cmd, "test"@) {
                "Runs test suite"@
            } else {
                "Node.js package management"@
            }
        ),
        CommandType::Make => Some(
            if contains_spec(cmd, "clean"@) {
                "Removes build artifacts"@
            } else if contains_spec(cmd, "test"@) {
                "Runs test suite"@
            } else if contains_spec(cmd, "install"@) {
                "Installs project files"@
            } else {
                "Builds project targets"@
            }
        ),
        _ => None,
    }
}

/// A one-line description of what `cmd` does, for the kinds that have one.
pub fn get_command_context(cmd: &str, cmd_type: CommandType) -> (r: Option<String>)
    ensures
        match r {
            Some(s) => context_spec(cmd@, cmd_type) == Some(s@),
            None => context_spec(cmd@, cmd_type) is None,
        },
{
    let v = chars_of(cmd);
    let c = v.as_slice();
    match cmd_type {
        CommandType::Git => {
            if text_contains(c, "status") {
                Some(String::from_str("Shows working directory status and changes"))
            } else if text_contains(c, "commit") {
                Some(String::from_str("Records changes to repository"))
            } else if text_contains(c, "push") {
                Some(String::from_str("Uploads local commits to remote"))
            } else if text_contains(c, "pull") {
                Some(String::from_str("Downloads and integrates remote changes"))
            } else {
                Some(String::from_str("Git version control operation"))
            }
        },
        CommandType::Docker => {
            if text_contains(c, "build") {
                Some(String::from_str("Builds image from Dockerfile"))
            } else if text_contains(c, "run") {
                Some(String::from_str("Creates and starts new container"))
            } else if text_contains(c, "ps") {
                Some(String::from_str("Lists running containers"))
            } else {
                Some(String::from_str("Docker container management"))
            }
        },
        CommandType::Cargo => {
            if text_contains(c, "build") {
                Some(String::from_str("Compiles the current package"))
            } else if text_contains(c, "test") {
                Some(String::from_str("Runs package tests"))
            } else if text_contains(c, "run") {
                Some(String::from_str("Builds and runs the current package"))
            } else {
                Some(String::from_str("Rust package management"))
            }
        },
        CommandType::Npm => {
            if text_contains(c, "install") {
                Some(String::from_str("Installs package dependencies"))
            } else if text_contains(c, "start") {
                Some(String::from_str("Starts the application"))
            } else if text_contains(c, "test") {
                Some(String::from_str("Runs test suite"))
            } else {
                Some(String::from_str("Node.js package management"))
            }
        },
        CommandType::Make => {
            if text_contains(c, "clean") {
                Some(String::from_str("Removes build artifacts"))
            } else if text_contains(c, "test") {
                Some(String::from_str("Runs test suite"))
            } else if text_contains(c, "install") {
                Some(String::from_str("Installs project files"))
            } else {
                Some(String::from_str("Builds project targets"))
            }
        },
        _ => None,
    }
}

/// Commands that often follow a command of the given kind.
pub open spec fn related_spec(cmd: Seq<char>, kind: CommandType) -> Seq<Seq<char>> {
    match kind {
        CommandType::Git => {
            if contains_spec(cmd, "commit"@) {
                seq!["git status"@, "git log --oneline"@, "git push"@]
            } else if contains_spec(cmd, "push"@) {
                seq!["git status"@, "git log --oneline -5"@, "git pull"@]
            } else if contains_spec(cmd, "pull"@) || contains_spec(cmd, "fetch"@) {
                seq!["git status"@, "git log --oneline -5"@, "git merge"@]
            } else if contains_spec(cmd, "branch"@) {
                seq!["git checkout"@, "git branch -a"@]
            } else if contains_spec(cmd, "checkout"@) || contains_spec(cmd, "switch"@) {
                seq!["git status"@, "git branch"@]
            } else {
                seq![]
            }
        },
        CommandType::Docker => {
            if contains_spec(cmd, "build"@) {
                seq!["docker images"@, "docker run"@, "docker ps -a"@]
            } else if contains_spec(cmd, "run"@) {
                seq!["docker ps"@, "docker logs"@, "docker stop"@]
            } else if contains_spec(cmd, "ps"@) {
                seq!["docker logs"@, "docker exec"@]
            } else {
                seq![]
            }
        },
        CommandType::Cargo => {
            if contains_spec(cmd, "build"@) {
                seq!["cargo run"@, "cargo test"@, "cargo check"@]
            } else if contains_spec(cmd, "test"@) {
                seq!["cargo build"@, "cargo run"@]
            } else if contains_spec(cmd, "run"@) {
                seq!["cargo build"@, "cargo test"@]
            } else {
                seq![]
            }
        },
        CommandType::Npm => {
            if contains_spec(cmd, "install"@) {
                seq!["npm start"@, "npm run build"@, "npm test"@]
            } else if contains_spec(cmd, "start"@) {
                seq!["npm run build"@, "npm test"@]
            } else {
                seq![]
            }
        },
        CommandType::Make => {
            seq!["make clean"@, "make install"@, "make test"@]
        },
        _ => seq![],
    }
}

fn strings_of(items: &[&str]) -> (r: Vec<String>)
    ensures
        r@.map_values(|s: String| s@) == items@.map_values(|s: &str| s@),
{
    let mut out: Vec<String> = Vec::new();
    let mut i: usize = 0;
    while i < items.len()
        invariant
            i <= items@.len(),
            out@.map_values(|s: String| s@) == items@.take(i as int).map_values(|s: &str| s@),
        decreases items@.len() - i,
    {
        let ghost before = out@.map_values(|s: String| s@);
        let item = String::from_str(items[i]);
        assert(item@ == items@[i as int]@);
        out.push(item);
        assert(out@.map_values(|s: String| s@) =~= before.push(items@[i as int]@));
        assert(items@.take(i + 1).map_values(|s: &str| s@) =~= items@.take(i as int).map_values(|s: &str| s@).push(
            items@[i as int]@,
        ));
        i = i + 1;
    }
    assert(items@.take(i as int) =~= items@);
    out
}

/// Commands that often follow `base_cmd`, by its kind and its words.
pub fn find_semantic_related_commands(base_cmd: &str, cmd_type: CommandType) -> (r: Vec<String>)
    ensures
        r@.map_values(|s: String| s@) == related_spec(base_cmd@, cmd_type),
{
    let v = chars_of(base_cmd);
    let c = v.as_slice();
    let picked: Vec<String> = match cmd_type {
        CommandType::Git => {
            if text_contains(c, "commit") {
                strings_of(&["git status", "git log --oneline", "git push"])
            } else if text_contains(c, "push") {
                strings_of(&["git status", "git log --oneline -5", "git pull"])
            } else if text_contains(c, "pull") || text_contains(c, "fetch") {
                strings_of(&["git status", "git log --oneline -5", "git merge"])
            } else if text_contains(c, "branch") {
                strings_of(&["git checkout", "git branch -a"])
            } else if text_contains(c, "checkout") || text_contains(c, "switch") {
                strings_of(&["git status", "git branch"])
            } else {
                Vec::new()
            }
        },
        CommandType::Docker => {
            if text_contains(c, "build") {
                strings_of(&["docker images", "docker run", "docker ps -a"])
            } else if text_contains(c, "run") {
                strings_of(&["docker ps", "docker logs", "docker stop"])
            } else if text_contains(c, "ps") {
                strings_of(&["docker logs", "docker exec"])
            } else {
                Vec::new()
            }
        },
        CommandType::Cargo => {
            if text_contains(c, "build") {
                strings_of(&["cargo run", "cargo test", "cargo check"])
            } else if text_contains(c, "test") {
                strings_of(&["cargo build", "cargo run"])
            } else if text_contains(c, "run") {
                strings_of(&["cargo build", "cargo test"])
            } else {
                Vec::new()
            }
        },
        CommandType::Npm => {
            if text_contains(c, "install") {
                strings_of(&["npm start", "npm run build", "npm test"])
            } else if text_contains(c, "start") {
                strings_of(&["npm run build", "npm test"])
            } else {
                Vec::new()
            }
        },
        CommandType::Make => {
            strings_of(&["make clean", "make install", "make test"])
        },
        _ => Vec::new(),
    };
    picked
}

/// What a subcommand of a known tool does, by the command's second word.
pub open spec fn subcommand_info_spec(cmd: Seq<char>, kind: CommandType) -> Option<Seq<char>> {
    let sub = second_token(cmd);
    match kind {
        CommandType::Git => if sub.len() == 0 {
            None
        } else if sub == "status"@ {
            Some("Shows working directory status and changes"@)
        } else if sub == "log"@ {
            Some("Shows commit history"@)
        } else if sub == "diff"@ {
            Some("Shows changes between commits/working directory"@)
        } else if sub == "branch"@ {
            Some("Manages branches"@)
        } else if sub == "checkout"@ || sub == "switch"@ {
            Some("Switches branches or restores files"@)
        } else if sub == "commit"@ {
            Some("Records changes to repository"@)
        } else if sub == "push"@ {
            Some("Uploads local commits to remote"@)
        } else if sub == "pull"@ {
            Some("Downloads and integrates remote changes"@)
        } else if sub == "clone"@ {
            Some("Creates local copy of remote repository"@)
        } else if sub == "add"@ {
            Some("Stages files for commit"@)
        } else if sub == "reset"@ {
            Some("Undoes commits or unstages files"@)
        } else if sub == "merge"@ {
            Some("Joins development histories"@)
        } else if sub == "rebase"@ {
            Some("Reapplies commits on new base"@)
        } else {
            Some("Git version control operation"@)
        },
        CommandType::Docker => if sub.len() == 0 {
            None
        } else if sub == "run"@ {
            Some("Creates and starts new container"@)
        } else if sub == "build"@ {
            Some("Builds image from Dockerfile"@)
        } else if sub == "ps"@ {
            Some("Lists running containers"@)
        } else if sub == "images"@ {
            Some("Lists local images"@)
        } else if sub == "exec"@ {
            Some("Runs command in running container"@)
        } else if sub == "logs"@ {
            Some("Shows container logs"@)
        } else if sub == "stop"@ {
            Some("Stops running container"@)
        } else if sub == "rm"@ {
            Some("Removes stopped container"@)
        } else if sub == "rmi"@ {
            Some("Removes local image"@)
        } else if sub == "pull"@ {
            Some("Downloads image from registry"@)
        } else if sub == "push"@ {
            Some("Uploads image to registry"@)
        } else {
            Some("Docker container management"@)
        },
        CommandType::Kubectl => if sub.len() == 0 {
            None
        } else if sub == "get"@ {
            Some("Displays resources"@)
        } else if sub == "describe"@ {
            Some("Shows detailed resource information"@)
        } else if sub == "logs"@ {
            Some("Shows container logs"@)
        } else if sub == "exec"@ {
            Some("Executes command in container"@)
        } else if sub == "apply"@ {
            Some("Applies configuration changes"@)
        } else if sub == "delete"@ {
            Some("Removes resources"@)
        } else if sub == "create"@ {
            Some("Creates resources"@)
        } else if sub == "scale"@ {
            Some("Changes number of replicas"@)
        } else if sub == "rollout"@ {
            Some("Manages resource rollouts"@)
        } else if sub == "port-forward"@ {
            Some("Forwards local port to pod"@)
        } else {
            Some("Kubernetes cluster management"@)
        },
        CommandType::Cargo => if sub.len() == 0 {
            None
        } else if sub == "build"@ {
            Some("Compiles the current package"@)
        } else if sub == "run"@ {
            Some("Builds and runs the current package"@)
        } else if sub == "test"@ {
            Some("Runs package tests"@)
        } else if sub == "check"@ {
            Some("Checks code without building"@)
        } else if sub == "doc"@ {
            Some("Builds documentation"@)
        } else if sub == "fmt"@ {
            Some("Formats code"@)
        } else if sub == "clippy"@ {
            Some("Runs linter"@)
        } else if sub == "update"@ {
            Some("Updates dependencies"@)
        } else if sub == "add"@ {
            Some("Adds dependency"@)
        } else if sub == "remove"@ {
            Some("Removes dependency"@)
        } else {
            Some("Rust package management"@)
        },
        CommandType::Npm => if sub.len() == 0 {
            None
        } else if sub == "install"@ {
            Some("Installs package dependencies"@)
        } else if sub == "start"@ {
            Some("Starts the application"@)
        } else if sub == "run"@ {
            Some("Runs package scripts"@)
        } else if sub == "test"@ {
            Some("Runs test suite"@)
        } else if sub == "build"@ {
            Some("Builds the application"@)
        } else if sub == "dev"@ {
            Some("Starts development server"@)
        } else if sub == "lint"@ {
            Some("Runs code linter"@)
        } else if sub == "format"@ {
            Some("Formats code"@)
        } else {
            Some("Node.js package management"@)
        },
        CommandType::Make => if sub.len() == 0 {
            Some("Runs default make target"@)
        } else if sub == "all"@ || sub == "build"@ {
            Some("Builds the entire project"@)
        } else if sub == "clean"@ {
            Some("Removes build artifacts"@)
        } else if sub == "install"@ {
            Some("Installs project files"@)
        } else if sub == "test"@ {
            Some("Runs test suite"@)
        } else if sub == "check"@ {
            Some("Performs code checks"@)
        } else if sub == "doc"@ || sub == "docs"@ {
            Some("Generates documentation"@)
        } else if sub == "fmt"@ || sub == "format"@ {
            Some("Formats source code"@)
        } else if sub == "lint"@ {
            Some("Runs code linter"@)
        } else {
            Some("Runs make target: "@ + sub)
        },
        _ => None,
    }
}

fn is_lit(w: &[char], lit: &str) -> (r: bool)
    ensures
        r == (w@ == lit@),
{
    let l = chars_of(lit);
    crate::text::chars_eq(w, l.as_slice())
}

/// What a subcommand of git, docker, kubectl, cargo, npm or make does.
pub fn subcommand_info(cmd: &str, cmd_type: CommandType) -> (r: Option<String>)
    ensures
        match r {
            Some(s) => subcommand_info_spec(cmd@, cmd_type) == Some(s@),
            None => subcommand_info_spec(cmd@, cmd_type) is None,
        },
{
    let v = chars_of(cmd);
    let vs = v.as_slice();
    let a = skip_whitespace(vs, 0);
    let b = skip_word(vs, a);
    let c = skip_whitespace(vs, b);
    let d = skip_word(vs, c);
    assert(vs@.skip(0) =~= vs@);
    assert(crate::text::after_first_token(cmd@) =~= vs@.skip(b as int));
    let w = &vs[c..d];
    assert(w@ =~= second_token(cmd@));
    match cmd_type {
        CommandType::Git => if w.len() == 0 {
            None
        } else if is_lit(w, "status") {
            Some(String::from_str("Shows working directory status and changes"))
        } else if is_lit(w, "log") {
            Some(String::from_str("Shows commit history"))
        } else if is_lit(w, "diff") {
            Some(String::from_str("Shows changes between commits/working directory"))
        } else if is_lit(w, "branch") {
            Some(String::from_str("Manages branches"))
        } else if is_lit(w, "checkout") || is_lit(w, "switch") {
            Some(String::from_str("Switches branches or restores files"))
        } else if is_lit(w, "commit") {
            Some(String::from_str("Records changes to repository"))
        } else if is_lit(w, "push") {
            Some(String::from_str("Uploads local commits to remote"))
        } else if is_lit(w, "pull") {
            Some(String::from_str("Downloads and integrates remote changes"))
        } else if is_lit(w, "clone") {
            Some(String::from_str("Creates local copy of remote repository"))
        } else if is_lit(w, "add") {
            Some(String::from_str("Stages files for commit"))
        } else if is_lit(w, "reset") {
            Some(String::from_str("Undoes commits or unstages files"))
        } else if is_lit(w, "merge") {
            Some(String::from_str("Joins development histories"))
        } else if is_lit(w, "rebase") {
            Some(String::from_str("Reapplies commits on new base"))
        } else {
            Some(String::from_str("Git version control operation"))
        },
        CommandType::Docker => if w.len() == 0 {
            None
        } else if is_lit(w, "run") {
            Some(String::from_str("Creates and starts new container"))
        } else if is_lit(w, "build") {
            Some(String::from_str("Builds image from Dockerfile"))
        } else if is_lit(w, "ps") {
            Some(String::from_str("Lists running containers"))
        } else if is_lit(w, "images") {
            Some(String::from_str("Lists local images"))
        } else if is_lit(w, "exec") {
            Some(String::from_str("Runs command in running container"))
        } else if is_lit(w, "logs") {
            Some(String::from_str("Shows container logs"))
        } else if is_lit(w, "stop") {
            Some(String::from_str("Stops running container"))
        } else if is_lit(w, "rm") {
            Some(String::from_str("Removes stopped container"))
        } else if is_lit(w, "rmi") {
            Some(String::from_str("Removes local image"))
        } else if is_lit(w, "pull") {
            Some(String::from_str("Downloads image from registry"))
        } else if is_lit(w, "push") {
            Some(String::from_str("Uploads image to registry"))
        } else {
            Some(String::from_str("Docker container management"))
        },
        CommandType::Kubectl => if w.len() == 0 {
            None
        } else if is_lit(w, "get") {
            Some(String::from_str("Displays resources"))
        } else if is_lit(w, "describe") {
            Some(String::from_str("Shows detailed resource information"))
        } else if is_lit(w, "logs") {
            Some(String::from_str("Shows container logs"))
        } else if is_lit(w, "exec") {
            Some(String::from_str("Executes command in container"))
        } else if is_lit(w, "apply") {
            Some(String::from_str("Applies configuration changes"))
        } else if is_lit(w, "delete") {
            Some(String::from_str("Removes resources"))
        } else if is_lit(w, "create") {
            Some(String::from_str("Creates resources"))
        } else if is_lit(w, "scale") {
            Some(String::from_str("Changes number of replicas"))
        } else if is_lit(w, "rollout") {
            Some(String::from_str("Manages resource rollouts"))
        } else if is_lit(w, "port-forward") {
            Some(String::from_str("Forwards local port to pod"))
        } else {
            Some(String::from_str("Kubernetes cluster management"))
        },
        CommandType::Cargo => if w.len() == 0 {
            None
        } else if is_lit(w, "build") {
            Some(String::from_str("Compiles the current package"))
        } else if is_lit(w, "run") {
            Some(String::from_str("Builds and runs the current package"))
        } else if is_lit(w, "test") {
            Some(String::from_str("Runs package tests"))
        } else if is_lit(w, "check") {
            Some(String::from_str("Checks code without building"))
        } else if is_lit(w, "doc") {
            Some(String::from_str("Builds documentation"))
        } else if is_lit(w, "fmt") {
            Some(String::from_str("Formats code"))
        } else if is_lit(w, "clippy") {
            Some(String::from_str("Runs linter"))
        } else if is_lit(w, "update") {
            Some(String::from_str("Updates dependencies"))
        } else if is_lit(w, "add") {
            Some(String::from_str("Adds dependency"))
        } else if is_lit(w, "remove") {
            Some(String::from_str("Removes dependency"))
        } else {
            Some(String::from_str("Rust package management"))
        },
        CommandType::Npm => if w.len() == 0 {
            None
        } else if is_lit(w, "install") {
            Some(String::from_str("Installs package dependencies"))
        } else if is_lit(w, "start") {
            Some(String::from_str("Starts the application"))
        } else if is_lit(w, "run") {
            Some(String::from_str("Runs package scripts"))
        } else if is_lit(w, "test") {
            Some(String::from_str("Runs test suite"))
        } else if is_lit(w, "build") {
            Some(String::from_str("Builds the application"))
        } else if is_lit(w, "dev") {
            Some(String::from_str("Starts development server"))
        } else if is_lit(w, "lint") {
            Some(String::from_str("Runs code linter"))
        } else if is_lit(w, "format") {
            Some(String::from_str("Formats code"))
        } else {
            Some(String::from_str("Node.js package management"))
        },
        CommandType::Make => if w.len() == 0 {
            Some(String::from_str("Runs default make target"))
        } else if is_lit(w, "all") || is_lit(w, "build") {
            Some(String::from_str("Builds the entire project"))
        } else if is_lit(w, "clean") {
            Some(String::from_str("Removes build artifacts"))
        } else if is_lit(w, "install") {
            Some(String::from_str("Installs project files"))
        } else if is_lit(w, "test") {
            Some(String::from_str("Runs test suite"))
        } else if is_lit(w, "check") {
            Some(String::from_str("Performs code checks"))
        } else if is_lit(w, "doc") || is_lit(w, "docs") {
            Some(String::from_str("Generates documentation"))
        } else if is_lit(w, "fmt") || is_lit(w, "format") {
            Some(String::from_str("Formats source code"))
        } else if is_lit(w, "lint") {
            Some(String::from_str("Runs code linter"))
        } else {
            let mut s = String::from_str("Runs make target: ");
            let mut i = c;
            while i < d
                invariant
                    c <= i <= d <= vs@.len(),
                    s@ == "Runs make target: "@ + vs@.subrange(c as int, i as int),
                decreases d - i,
            {
                push_char(&mut s, vs[i]);
                assert(s@ =~= "Runs make target: "@ + vs@.subrange(c as int, i + 1));
                i = i + 1;
            }
            Some(s)
        },
        _ => None,
    }
}

/// The first five distinct suggestions, in order, other than the command itself.
pub open spec fn suggestions_spec(cands: Seq<Seq<char>>, base: Seq<char>) -> Seq<Seq<char>>
    decreases cands.len(),
{
    if cands.len() == 0 {
        seq![]
    } else {
        let prev = suggestions_spec(cands.drop_last(), base);
        let x = cands.last();
        if x == base || prev.contains(x) || prev.len() >= 5 {
            prev
        } else {
            prev.push(x)
        }
    }
}

proof fn lemma_suggestions_short(cands: Seq<Seq<char>>, base: Seq<char>)
    ensures
        suggestions_spec(cands, base).len() <= 5,
    decreases cands.len(),
{
    if cands.len() > 0 {
        lemma_suggestions_short(cands.drop_last(), base);
    }
}

/// Merges candidate suggestions: drops the command itself and repeats, and
/// keeps the first five.
#[verifier::rlimit(30)]
pub fn merge_suggestions(candidates: &Vec<String>, base_cmd: &str) -> (r: Vec<String>)
    ensures
        r@.map_values(|s: String| s@) == suggestions_spec(candidates@.map_values(|s: String| s@), base_cmd@),
        r@.len() <= 5,
{
    let ghost cv = candidates@.map_values(|s: String| s@);
    let bv = chars_of(base_cmd);
    let mut out: Vec<String> = Vec::new();
    let mut i: usize = 0;
    while i < candidates.len()
        invariant
            i <= candidates@.len(),
            cv == candidates@.map_values(|s: String| s@),
            bv@ == base_cmd@,
            out@.map_values(|s: String| s@) == suggestions_spec(cv.take(i as int), base_cmd@),
        decreases candidates@.len() - i,
    {
        let ghost prev = out@.map_values(|s: String| s@);
        assert(cv.take(i + 1).drop_last() =~= cv.take(i as int));
        assert(cv.take(i + 1).last() == candidates@[i as int]@);
        proof {
            lemma_suggestions_short(cv.take(i as int), base_cmd@);
        }
        let x = chars_of(candidates[i].as_str());
        let mut seen = crate::text::chars_eq(x.as_slice(), bv.as_slice()) || out.len() >= 5;
        let mut k: usize = 0;
        while k < out.len() && !seen
            invariant
                k <= out@.len(),
                i < candidates@.len(),
                cv == candidates@.map_values(|s: String| s@),
                prev == suggestions_spec(cv.take(i as int), base_cmd@),
                prev == out@.map_values(|s: String| s@),
                x@ == candidates@[i as int]@,
                !seen ==> forall|j: int| 0 <= j < k ==> prev[j] != x@,
                !seen ==> x@ != base_cmd@ && prev.len() < 5,
                seen ==> (x@ == base_cmd@ || prev.contains(x@) || prev.len() >= 5),
                bv@ == base_cmd@,
            decreases out@.len() - k,
        {
            let y = chars_of(out[k].as_str());
            if crate::text::chars_eq(y.as_slice(), x.as_slice()) {
                assert(prev[k as int] == x@);
                seen = true;
            }
            k = k + 1;
        }
        if !seen {
            assert(!prev.contains(x@));
            out.push(candidates[i].clone());
            assert(out@.map_values(|s: String| s@) =~= prev.push(x@));
        }
        i = i + 1;
    }
    assert(cv.take(i as int) =~= cv);
    proof {
        lemma_suggestions_short(cv, base_cmd@);
    }
    out
}

/// The LIKE pattern for other commands of a tool: the tool name escaped,
/// then a space and any rest.
pub fn tool_pattern(first_word: &str) -> (r: String)
    ensures
        r@ == crate::query::escape_like_spec(first_word@) + seq![' ', '%'],
{
    let mut p = crate::query::escape_like(first_word);
    push_char(&mut p, ' ');
    push_char(&mut p, '%');
    assert(p@ =~= crate::query::escape_like_spec(first_word@) + seq![' ', '%']);
    p
}

/// The first word of a command.
pub fn first_word(cmd: &str) -> (r: String)
    ensures
        r@ == crate::text::first_token(cmd@),
{
    let v = chars_of(cmd);
    let vs = v.as_slice();
    let a = skip_whitespace(vs, 0);
    let b = skip_word(vs, a);
    assert(vs@.skip(0) =~= vs@);
    let mut s = String::new();
    let mut i = a;
    while i < b
        invariant
            a <= i <= b <= vs@.len(),
            s@ == vs@.subrange(a as int, i as int),
        decreases b - i,
    {
        push_char(&mut s, vs[i]);
        assert(s@ =~= vs@.subrange(a as int, i + 1));
        i = i + 1;
    }
    assert(s@ =~= crate::text::first_token(cmd@));
    s
}

} // verus!
