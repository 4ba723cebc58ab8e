//! The on-disk layout of a history store and the statements that read and
//! write it.
use vstd::prelude::*;

verus! {

/// Tables of a store: history rows, the fingerprint of each recorded row,
/// and a key/value table for the schema version. Safe to run on every open.
pub const SCHEMA_SQL: &'static str = "CREATE TABLE IF NOT EXISTS history (
  id INTEGER PRIMARY KEY AUTOINCREMENT,
  hist_id INTEGER,
  cmd TEXT,
  epoch INTEGER,
  ppid INTEGER,
  pwd TEXT,
  salt INTEGER
);
CREATE TABLE IF NOT EXISTS meta (
  key TEXT PRIMARY KEY,
  value TEXT NOT NULL
);
CREATE TABLE IF NOT EXISTS history_hash (
  hash TEXT PRIMARY KEY,
  history_id INTEGER
);";

/// Records the schema version once.
pub const SCHEMA_VERSION_SQL: &'static str = "INSERT OR IGNORE INTO meta(key,value) VALUES('schema_version','1')";

/// Indexes on epoch, session, directory and fingerprint. Safe to run at any time.
pub const INDEXES_SQL: &'static str = "CREATE INDEX IF NOT EXISTS idx_history_epoch ON history(epoch);
CREATE INDEX IF NOT EXISTS idx_history_session ON history(salt, ppid);
CREATE INDEX IF NOT EXISTS idx_history_pwd ON history(pwd);
CREATE INDEX IF NOT EXISTS idx_history_hash ON history_hash(hash);";

/// Names of the indexes that `INDEXES_SQL` creates.
pub const INDEX_NAMES: [&'static str; 4] = ["idx_history_epoch", "idx_history_session", "idx_history_pwd", "idx_history_hash"];

/// Inserts a row: binds hist_id, cmd, epoch, ppid, pwd, salt.
pub const INSERT_ROW_SQL: &'static str = "INSERT INTO history(hist_id, cmd, epoch, ppid, pwd, salt) VALUES (?1, ?2, ?3, ?4, ?5, ?6)";

/// Records a fingerprint for a row id; an already recorded fingerprint is kept.
pub const INSERT_FINGERPRINT_SQL: &'static str = "INSERT OR IGNORE INTO history_hash(hash, history_id) VALUES (?1, ?2)";

/// 1 when the fingerprint is recorded, else 0.
pub const FINGERPRINT_EXISTS_SQL: &'static str = "SELECT EXISTS(SELECT 1 FROM history_hash WHERE hash=?1)";

/// 1 when a database has a history table, else 0.
pub const HAS_HISTORY_TABLE_SQL: &'static str = "SELECT EXISTS(SELECT 1 FROM sqlite_master WHERE type='table' AND name='history')";

/// The rows of a source database, oldest first.
pub const SOURCE_ROWS_SQL: &'static str = "SELECT hist_id, cmd, epoch, ppid, pwd, salt FROM history ORDER BY id ASC";

/// Other commands of the same tool, most recent first: binds the escaped
/// tool name followed by ` %` (see `tool_pattern`), and the command itself.
pub const TOOL_RELATED_SQL: &'static str = "SELECT cmd, MAX(epoch) as latest_epoch FROM history WHERE cmd LIKE ?1 ESCAPE '\\' AND cmd != ?2 GROUP BY cmd ORDER BY latest_epoch DESC LIMIT 3";

/// Commands run within an hour of the command in the same session.
pub const WORKFLOW_RELATED_SQL: &'static str = "SELECT h2.cmd, COUNT(*) as co_occurrences, MAX(h2.epoch) as latest_epoch FROM history h1 JOIN history h2 ON h1.salt = h2.salt AND h1.ppid = h2.ppid WHERE h1.cmd = ?1 AND h2.cmd != ?1 AND ABS(h1.epoch - h2.epoch) < 3600 GROUP BY h2.cmd ORDER BY co_occurrences DESC, latest_epoch DESC LIMIT 2";

/// Commands run in the directories where the command was run.
pub const DIRECTORY_RELATED_SQL: &'static str = "SELECT h2.cmd, COUNT(*) as shared_dirs, MAX(h2.epoch) as latest_epoch FROM history h1 JOIN history h2 ON h1.pwd = h2.pwd WHERE h1.cmd = ?1 AND h2.cmd != ?1 GROUP BY h2.cmd ORDER BY shared_dirs DESC, latest_epoch DESC LIMIT 2";

} // verus!
