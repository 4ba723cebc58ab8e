//! Rendering helpers: JSON strings, truncation, command kinds and check
//! statuses.
use vstd::prelude::*;
use crate::text::{
    chars_eq, chars_of, first_token, i64_to_string, int_decimal, push_char, push_i64, skip_whitespace,
    skip_word,
};

verus! {

/// How one character is written inside a JSON string.
pub open spec fn json_escape_char(c: char) -> Seq<char> {
    if c == '"' {
        seq!['\\', '"']
    } else if c == '\\' {
        seq!['\\', '\\']
    } else if c == '\n' {
        seq!['\\', 'n']
    } else if c == '\r' {
        seq!['\\', 'r']
    } else if c == '\t' {
        seq!['\\', 't']
    } else {
        seq![c]
    }
}

pub open spec fn json_body_spec(s: Seq<char>) -> Seq<char>
    decreases s.len(),
{
    if s.len() == 0 {
        seq![]
    } else {
        json_body_spec(s.drop_last()) + json_escape_char(s.last())
    }
}

/// `s` as a quoted JSON string: quote, backslash, newline, carriage return
/// and tab escaped, other characters as they are.
pub fn json_string(s: &str) -> (r: String)
    ensures
        r@ == seq!['"'] + json_body_spec(s@) + seq!['"'],
{
    let v = chars_of(s);
    let mut out = String::new();
    push_char(&mut out, '"');
    let mut i: usize = 0;
    while i < v.len()
        invariant
            i <= v@.len(),
            v@ == s@,
            out@ == seq!['"'] + json_body_spec(v@.take(i as int)),
        decreases v@.len() - i,
    {
        let c = v[i];
        if c == '"' {
            push_char(&mut out, '\\');
            push_char(&mut out, '"');
        } else if c == '\\' {
            push_char(&mut out, '\\');
            push_char(&mut out, '\\');
        } else if c == '\n' {
            push_char(&mut out, '\\');
            push_char(&mut out, 'n');
        } else if c == '\r' {
            push_char(&mut out, '\\');
            push_char(&mut out, 'r');
        } else if c == '\t' {
            push_char(&mut out, '\\');
            push_char(&mut out, 't');
        } else {
            push_char(&mut out, c);
        }
        assert(v@.take(i + 1).drop_last() =~= v@.take(i as int));
        assert(out@ =~= seq!['"'] + json_body_spec(v@.take(i + 1)));
        i = i + 1;
    }
    assert(v@.take(i as int) =~= v@);
    push_char(&mut out, '"');
    out
}

/// Text cut to `max_width` characters, the last three of them `...` when cut.
pub open spec fn truncate_spec(t: Seq<char>, max_width: nat) -> Seq<char> {
    if t.len() <= max_width {
        t
    } else if max_width <= 3 {
        seq!['.', '.', '.']
    } else {
        t.take(max_width - 3) + seq!['.', '.', '.']
    }
}

/// Shortens text for display to at most `max_width` characters (or three
/// when `max_width` is smaller).
pub fn truncate_for_display(text: &str, max_width: usize) -> (r: String)
    ensures
        r@ == truncate_spec(text@, max_width as nat),
{
    let v = chars_of(text);
    if v.len() <= max_width {
        let r = String::from_str(text);
        return r;
    }
    let mut out = String::new();
    if max_width > 3 {
        let mut i: usize = 0;
        while i < max_width - 3
            invariant
                3 < max_width < v@.len(),
                i <= max_width - 3,
                out@ == v@.take(i as int),
            decreases max_width - 3 - i,
        {
            push_char(&mut out, v[i]);
            assert(out@ =~= v@.take(i + 1));
            i = i + 1;
        }
    }
    push_char(&mut out, '.');
    push_char(&mut out, '.');
    push_char(&mut out, '.');
    assert(out@ =~= truncate_spec(text@, max_width as nat));
    out
}

/// The lower-case form of a string, by Unicode's case mapping.
pub uninterp spec fn lowercase_of(s: Seq<char>) -> Seq<char>;

/// Relies on `str::to_lowercase`: Unicode lower-casing, which depends on the
/// characters alone.
#[verifier::external_body]
fn to_lowercase(s: &str) -> (r: String)
    ensures
        r@ == lowercase_of(s@),
{
    s.to_lowercase()
}

/// The family of tool a command belongs to, by its first word.
#[derive(Debug, Clone, Copy, PartialEq, Eq)]
pub enum CommandType {
    Git,
    Docker,
    Kubectl,
    Make,
    Cargo,
    Npm,
    Yarn,
    Python,
    Go,
    Navigation,
    System,
    Generic,
}

/// The kind named by a lower-case first word.
pub open spec fn kind_of_word(w: Seq<char>) -> CommandType {
    if w == "git"@ {
        CommandType::Git
    } else if w == "docker"@ {
        CommandType::Docker
    } else if w == "kubectl"@ || w == "kubectx"@ || w == "kubens"@ {
        CommandType::Kubectl
    } else if w == "make"@ {
        CommandType::Make
    } else if w == "cargo"@ {
        CommandType::Cargo
    } else if w == "npm"@ {
        CommandType::Npm
    } else if w == "yarn"@ {
        CommandType::Yarn
    } else if w == "python"@ || w == "python3"@ || w == "pip"@ || w == "pip3"@ {
        CommandType::Python
    } else if w == "go"@ || w == "gofmt"@ || w == "goimports"@ {
        CommandType::Go
    } else if w == "cd"@ || w == "ls"@ || w == "pwd"@ || w == "find"@ || w == "grep"@ || w == "mkdir"@
        || w == "rm"@ || w == "cp"@ || w == "mv"@ {
        CommandType::Navigation
    } else if w == "ps"@ || w == "top"@ || w == "htop"@ || w == "df"@ || w == "du"@ || w == "free"@
        || w == "uptime"@ || w == "whoami"@ || w == "id"@ || w == "uname"@ {
        CommandType::System
    } else {
        CommandType::Generic
    }
}

fn word_is(w: &[char], lit: &str) -> (r: bool)
    ensures
        r == (w@ == lit@),
{
    let l = chars_of(lit);
    chars_eq(w, l.as_slice())
}

impl CommandType {
    /// The kind of an already lower-cased command, by its first word.
    pub fn from_lowered(lowered: &str) -> (r: CommandType)
        ensures
            r == kind_of_word(first_token(lowered@)),
    {
        let v = chars_of(lowered);
        let a = skip_whitespace(v.as_slice(), 0);
        let b = skip_word(v.as_slice(), a);
        assert(v@.skip(0) =~= v@);
        let w = &v.as_slice()[a..b];
        assert(w@ =~= first_token(lowered@));
        if word_is(w, "git") {
            CommandType::Git
        } else if word_is(w, "docker") {
            CommandType::Docker
        } else if word_is(w, "kubectl") || word_is(w, "kubectx") || word_is(w, "kubens") {
            CommandType::Kubectl
        } else if word_is(w, "make") {
            CommandType::Make
        } else if word_is(w, "cargo") {
            CommandType::Cargo
        } else if word_is(w, "npm") {
            CommandType::Npm
        } else if word_is(w, "yarn") {
            CommandType::Yarn
        } else if word_is(w, "python") || word_is(w, "python3") || word_is(w, "pip") || word_is(
            w,
            "pip3",
        ) {
            CommandType::Python
        } else if word_is(w, "go") || word_is(w, "gofmt") || word_is(w, "goimports") {
            CommandType::Go
        } else if word_is(w, "cd") || word_is(w, "ls") || word_is(w, "pwd") || word_is(w, "find")
            || word_is(w, "grep") || word_is(w, "mkdir") || word_is(w, "rm") || word_is(w, "cp")
            || word_is(w, "mv") {
            CommandType::Navigation
        } else if word_is(w, "ps") || word_is(w, "top") || word_is(w, "htop") || word_is(w, "df")
            || word_is(w, "du") || word_is(w, "free") || word_is(w, "uptime") || word_is(w, "whoami")
            || word_is(w, "id") || word_is(w, "uname") {
            CommandType::System
        } else {
            CommandType::Generic
        }
    }

    /// The kind of a command: the first word of its lower-case form.
    pub fn detect(cmd: &str) -> (r: CommandType)
        ensures
            r == kind_of_word(first_token(lowercase_of(cmd@))),
    {
        let lowered = to_lowercase(cmd);
        CommandType::from_lowered(lowered.as_str())
    }
}

/// A label for a command kind.
pub fn format_command_type(cmd_type: CommandType) -> (r: &'static str)
    ensures
        r@ == (match cmd_type {
            CommandType::Git => "🔧 Git"@,
            CommandType::Docker => "🐳 Docker"@,
            CommandType::Kubectl => "☸️  Kubernetes"@,
            CommandType::Make => "🔨 Make"@,
            CommandType::Cargo => "📦 Cargo"@,
            CommandType::Npm => "📦 NPM"@,
            CommandType::Yarn => "🧶 Yarn"@,
            CommandType::Python => "🐍 Python"@,
            CommandType::Go => "🐹 Go"@,
            CommandType::Navigation => "📂 Navigation"@,
            CommandType::System => "⚙️  System"@,
            CommandType::Generic => "💻 Generic"@,
        }),
{
    match cmd_type {
        CommandType::Git => "🔧 Git",
        CommandType::Docker => "🐳 Docker",
        CommandType::Kubectl => "☸️  Kubernetes",
        CommandType::Make => "🔨 Make",
        CommandType::Cargo => "📦 Cargo",
        CommandType::Npm => "📦 NPM",
        CommandType::Yarn => "🧶 Yarn",
        CommandType::Python => "🐍 Python",
        CommandType::Go => "🐹 Go",
        CommandType::Navigation => "📂 Navigation",
        CommandType::System => "⚙️  System",
        CommandType::Generic => "💻 Generic",
    }
}

/// Outcome of one diagnostic check.
#[derive(Debug, Clone, Copy, PartialEq, Eq)]
pub enum DoctorStatus {
    Pass,
    Warn,
    Fail,
    Info,
}

/// The word a status is printed as.
pub fn status_str(s: DoctorStatus) -> (r: &'static str)
    ensures
        r@ == (match s {
            DoctorStatus::Pass => "ok"@,
            DoctorStatus::Warn => "warn"@,
            DoctorStatus::Fail => "fail"@,
            DoctorStatus::Info => "info"@,
        }),
{
    match s {
        DoctorStatus::Pass => "ok",
        DoctorStatus::Warn => "warn",
        DoctorStatus::Fail => "fail",
        DoctorStatus::Info => "info",
    }
}

/// One line of a diagnostic report.
#[derive(Debug, Clone)]
pub struct DoctorCheck {
    pub name: String,
    pub status: DoctorStatus,
    pub detail: String,
}

impl DoctorCheck {
    pub fn ok(name: &str, detail: String) -> (r: DoctorCheck)
        ensures
            r.name@ == name@,
            r.status == DoctorStatus::Pass,
            r.detail == detail,
    {
        DoctorCheck { name: String::from_str(name), status: DoctorStatus::Pass, detail }
    }

    pub fn warn(name: &str, detail: String) -> (r: DoctorCheck)
        ensures
            r.name@ == name@,
            r.status == DoctorStatus::Warn,
            r.detail == detail,
    {
        DoctorCheck { name: String::from_str(name), status: DoctorStatus::Warn, detail }
    }

    pub fn fail(name: &str, detail: String) -> (r: DoctorCheck)
        ensures
            r.name@ == name@,
            r.status == DoctorStatus::Fail,
            r.detail == detail,
    {
        DoctorCheck { name: String::from_str(name), status: DoctorStatus::Fail, detail }
    }

    pub fn info(name: &str, detail: String) -> (r: DoctorCheck)
        ensures
            r.name@ == name@,
            r.status == DoctorStatus::Info,
            r.detail == detail,
    {
        DoctorCheck { name: String::from_str(name), status: DoctorStatus::Info, detail }
    }
}

pub open spec fn json_quoted(s: Seq<char>) -> Seq<char> {
    seq!['"'] + json_body_spec(s) + seq!['"']
}

/// One row of the list and search JSON output.
pub fn json_row_object(id: i64, epoch: i64, pwd: &str, cmd: &str) -> (r: String)
    ensures
        r@ == "{\"id\":"@ + int_decimal(id as int) + ",\"epoch\":"@ + int_decimal(epoch as int)
            + ",\"pwd\":"@ + json_quoted(pwd@) + ",\"cmd\":"@ + json_quoted(cmd@) + "}"@,
{
    let mut s = String::from_str("{\"id\":");
    push_i64(&mut s, id);
    s.append(",\"epoch\":");
    push_i64(&mut s, epoch);
    s.append(",\"pwd\":");
    s.append(json_string(pwd).as_str());
    s.append(",\"cmd\":");
    s.append(json_string(cmd).as_str());
    s.append("}");
    s
}

/// One line of the export: a JSON object with every field of the row.
pub fn export_json_line(id: i64, row: &crate::domain::HistoryRow) -> (r: String)
    ensures
        r@ == "{\"id\":"@ + int_decimal(id as int) + ",\"hist_id\":"@ + (match row.hist_id {
            Some(h) => int_decimal(h as int),
            None => "null"@,
        }) + ",\"epoch\":"@ + int_decimal(row.epoch as int) + ",\"ppid\":"@ + int_decimal(
            row.ppid as int,
        ) + ",\"pwd\":"@ + json_quoted(row.pwd@) + ",\"salt\":"@ + int_decimal(row.salt as int)
            + ",\"cmd\":"@ + json_quoted(row.cmd@) + "}"@,
{
    let mut s = String::from_str("{\"id\":");
    push_i64(&mut s, id);
    s.append(",\"hist_id\":");
    match row.hist_id {
        Some(h) => push_i64(&mut s, h),
        None => s.append("null"),
    }
    s.append(",\"epoch\":");
    push_i64(&mut s, row.epoch);
    s.append(",\"ppid\":");
    push_i64(&mut s, row.ppid);
    s.append(",\"pwd\":");
    s.append(json_string(row.pwd.as_str()).as_str());
    s.append(",\"salt\":");
    push_i64(&mut s, row.salt);
    s.append(",\"cmd\":");
    s.append(json_string(row.cmd.as_str()).as_str());
    s.append("}");
    s
}

/// An epoch as shown in previews.
pub fn format_timestamp(epoch: i64) -> (r: String)
    ensures
        r@ == int_decimal(epoch as int),
{
    i64_to_string(epoch)
}

/// How long ago `epoch` was at `now`, in the largest whole unit below a
/// week; `None` from a week on, where a calendar date is shown instead.
pub open spec fn relative_age_spec(now: i64, epoch: i64) -> Option<Seq<char>> {
    let d = now - epoch;
    if d < 0 {
        Some("in the future"@)
    } else if d < 60 {
        Some(int_decimal(d) + "s ago"@)
    } else if d < 3600 {
        Some(int_decimal(d / 60) + "m ago"@)
    } else if d < 86400 {
        Some(int_decimal(d / 3600) + "h ago"@)
    } else if d < 604800 {
        Some(int_decimal(d / 86400) + "d ago"@)
    } else {
        None
    }
}

/// The age of a timestamp as shown in previews, for ages under a week.
pub fn relative_age(now: i64, epoch: i64) -> (r: Option<String>)
    ensures
        match r {
            Some(s) => relative_age_spec(now, epoch) == Some(s@),
            None => relative_age_spec(now, epoch) is None,
        },
{
    let d: i128 = now as i128 - epoch as i128;
    if d < 0 {
        return Some(String::from_str("in the future"));
    }
    let (n, unit): (i64, &str) = if d < 60 {
        (d as i64, "s ago")
    } else if d < 3600 {
        ((d / 60) as i64, "m ago")
    } else if d < 86400 {
        ((d / 3600) as i64, "h ago")
    } else if d < 604800 {
        ((d / 86400) as i64, "d ago")
    } else {
        return None;
    };
    let mut s = i64_to_string(n);
    s.append(unit);
    Some(s)
}

} // verus!
