//! Options of the read and write commands, as plain values.
use vstd::prelude::*;

verus! {

/// How listing commands print their rows.
#[derive(Debug, Clone, Copy, PartialEq, Eq)]
pub enum OutputFormat {
    Table,
    Json,
}

impl OutputFormat {
    /// The name the option is given by.
    pub fn name(&self) -> (r: &'static str)
        ensures
            r@ == (match self {
                OutputFormat::Table => "table"@,
                OutputFormat::Json => "json"@,
            }),
    {
        match self {
            OutputFormat::Table => "table",
            OutputFormat::Json => "json",
        }
    }
}

/// One row to record.
#[derive(Debug, Clone)]
pub struct LogArgs {
    pub cmd: String,
    pub epoch: i64,
    pub ppid: i64,
    pub pwd: String,
    pub salt: i64,
    pub hist_id: Option<i64>,
    /// Record the command even where the log filter would skip it.
    pub no_filter: bool,
}

/// Commands grouped by text, most recently used first.
#[derive(Debug, Clone)]
pub struct SummaryArgs {
    /// Substring of the command (a prefix with `starts`).
    pub query: Option<String>,
    pub limit: u32,
    pub starts: bool,
    /// No limit.
    pub all: bool,
    /// Only the current session.
    pub session: bool,
    /// Group by directory as well.
    pub pwd: bool,
    /// Directory used by `here` / `under` in place of the working directory.
    pub pwd_override: Option<String>,
    pub here: bool,
    pub under: bool,
    pub fzf: bool,
    pub multi_select: bool,
    pub verbose: bool,
}

/// Rows in chronological order, oldest first.
#[derive(Debug, Clone)]
pub struct ListArgs {
    pub query: Option<String>,
    pub limit: u32,
    pub offset: u32,
    pub format: OutputFormat,
    pub all: bool,
    pub session: bool,
    pub pwd_override: Option<String>,
    pub here: bool,
    pub under: bool,
    pub fzf: bool,
    pub multi_select: bool,
}

/// Rows whose command contains a substring, newest first.
#[derive(Debug, Clone)]
pub struct SearchArgs {
    pub query: String,
    pub limit: u32,
    pub format: OutputFormat,
    pub all: bool,
    pub session: bool,
    /// Only rows at or after this epoch.
    pub since_epoch: Option<i64>,
    /// Only rows of the last so many days (when `since_epoch` is absent).
    pub days: Option<u32>,
    pub pwd_override: Option<String>,
    pub here: bool,
    pub under: bool,
    pub fzf: bool,
    pub multi_select: bool,
}

/// Every row as one JSON object per line.
#[derive(Debug, Clone, Copy)]
pub struct ExportArgs {
    pub all: bool,
    pub session: bool,
}

/// Most frequent commands of the last `days` days.
#[derive(Debug, Clone, Copy)]
pub struct StatsTopArgs {
    pub days: u32,
    pub limit: u32,
    pub all: bool,
    pub session: bool,
    pub fzf: bool,
    pub multi_select: bool,
}

/// Most frequent (directory, command) pairs of the last `days` days.
#[derive(Debug, Clone, Copy)]
pub struct StatsByPwdArgs {
    pub days: u32,
    pub limit: u32,
    pub all: bool,
    pub session: bool,
    pub fzf: bool,
    pub multi_select: bool,
}

/// Commands per calendar day of the last `days` days.
#[derive(Debug, Clone, Copy)]
pub struct StatsDailyArgs {
    pub days: u32,
    pub all: bool,
    pub session: bool,
    pub fzf: bool,
    pub multi_select: bool,
}

} // verus!
