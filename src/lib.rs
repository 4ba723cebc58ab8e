//! Shell command history: content fingerprints for deduplicated merges,
//! tolerant decoding of imported rows, and parameterised query construction.
pub mod args;
pub mod display;
pub mod doctor;
pub mod domain;
pub mod fingerprint;
pub mod fzf;
pub mod history;
pub mod import;
pub mod logfilter;
pub mod preview;
pub mod query;
pub mod shell;
pub mod store;
pub mod template;
pub mod text;
