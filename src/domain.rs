//! The recorded history row.
use vstd::prelude::*;

verus! {

/// One recorded command invocation.
#[derive(Debug, Clone, PartialEq, Eq)]
pub struct HistoryRow {
    /// Sequence number from the shell's own history, when it gave one.
    pub hist_id: Option<i64>,
    /// The command text, kept as it was typed.
    pub cmd: String,
    /// Unix time of the invocation.
    pub epoch: i64,
    /// Process id of the invoking shell.
    pub ppid: i64,
    /// Working directory at the time of the invocation.
    pub pwd: String,
    /// Per-session random value that tells apart shells sharing a `ppid`.
    pub salt: i64,
}

} // verus!
