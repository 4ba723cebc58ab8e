//! Which commands are not worth recording.
use vstd::prelude::*;
use crate::text::{chars_eq, chars_of, has_prefix, is_prefix, trim_chars, trim_spec};

verus! {

/// `t` is the word `w`, or starts with `w` followed by a space or a tab.
pub open spec fn starts_with_word(t: Seq<char>, w: Seq<char>) -> bool {
    t == w || is_prefix(w.push(' '), t) || is_prefix(w.push('\t'), t)
}

/// The built-in list of noisy commands, for an already trimmed command.
pub open spec fn builtin_noisy_spec(t: Seq<char>) -> bool {
    t == "ls"@ || t == "pwd"@ || t == "history"@ || t == "clear"@ || t == "exit"@
        || starts_with_word(t, "cd"@) || starts_with_word(t, "sdbh"@) || starts_with_word(t, "ls"@)
}

fn starts_with_word_exec(t: &[char], w: &str) -> (r: bool)
    ensures
        r == starts_with_word(t@, w@),
{
    let mut wv = chars_of(w);
    if chars_eq(t, wv.as_slice()) {
        return true;
    }
    wv.push(' ');
    if has_prefix(wv.as_slice(), t) {
        return true;
    }
    wv.pop();
    wv.push('\t');
    assert(wv@ =~= w@.push('\t'));
    has_prefix(wv.as_slice(), t)
}

fn is_word(t: &[char], w: &str) -> (r: bool)
    ensures
        r == (t@ == w@),
{
    let wv = chars_of(w);
    chars_eq(t, wv.as_slice())
}

/// Whether a trimmed command is on the built-in noisy list: `ls`, `pwd`,
/// `history`, `clear`, `exit`, and `cd`, `sdbh` or `ls` with arguments.
pub fn is_builtin_noisy_command(cmd: &str) -> (r: bool)
    ensures
        r == builtin_noisy_spec(cmd@),
{
    let v = chars_of(cmd);
    let t = v.as_slice();
    is_word(t, "ls") || is_word(t, "pwd") || is_word(t, "history") || is_word(t, "clear")
        || is_word(t, "exit") || starts_with_word_exec(t, "cd") || starts_with_word_exec(t, "sdbh")
        || starts_with_word_exec(t, "ls")
}

/// What the `log` command skips.
#[derive(Debug, Clone)]
pub struct LogFilter {
    /// Apply the built-in noisy list.
    pub use_builtin_ignores: bool,
    /// Commands skipped when equal to the trimmed command, after trimming.
    pub ignore_exact: Vec<String>,
    /// Commands skipped when the trimmed command starts with one of these.
    pub ignore_prefix: Vec<String>,
}

impl LogFilter {
    /// The filter that applies when no configuration says otherwise.
    pub fn load_default() -> (r: LogFilter)
        ensures
            r.use_builtin_ignores,
            r.ignore_exact@.len() == 0,
            r.ignore_prefix@.len() == 0,
    {
        LogFilter { use_builtin_ignores: true, ignore_exact: Vec::new(), ignore_prefix: Vec::new() }
    }

    pub open spec fn skips(self, cmd: Seq<char>) -> bool {
        let t = trim_spec(cmd);
        ||| t.len() == 0
        ||| self.use_builtin_ignores && builtin_noisy_spec(t)
        ||| exists|i: int| 0 <= i < self.ignore_exact@.len() && trim_spec(#[trigger] self.ignore_exact@[i]@) == t
        ||| exists|i: int| 0 <= i < self.ignore_prefix@.len() && is_prefix(#[trigger] self.ignore_prefix@[i]@, t)
    }

    /// Whether `cmd` is not to be recorded: blank once trimmed, on the
    /// built-in list (when enabled), equal to an ignored command, or
    /// starting with an ignored prefix.
    pub fn should_skip(&self, cmd: &str) -> (r: bool)
        ensures
            r == self.skips(cmd@),
    {
        let tv = trim_chars(cmd);
        let t = tv.as_slice();
        if t.len() == 0 {
            return true;
        }
        if self.use_builtin_ignores {
            let mut s = String::new();
            let mut k: usize = 0;
            while k < t.len()
                invariant
                    k <= t@.len(),
                    s@ == t@.take(k as int),
                decreases t@.len() - k,
            {
                crate::text::push_char(&mut s, t[k]);
                assert(s@ =~= t@.take(k + 1));
                k = k + 1;
            }
            assert(t@.take(k as int) =~= t@);
            if is_builtin_noisy_command(s.as_str()) {
                return true;
            }
        }
        let mut i: usize = 0;
        while i < self.ignore_exact.len()
            invariant
                i <= self.ignore_exact@.len(),
                t@ == trim_spec(cmd@),
                forall|j: int| 0 <= j < i ==> trim_spec(#[trigger] self.ignore_exact@[j]@) != t@,
            decreases self.ignore_exact@.len() - i,
        {
            let e = trim_chars(self.ignore_exact[i].as_str());
            if chars_eq(e.as_slice(), t) {
                return true;
            }
            i = i + 1;
        }
        let mut i: usize = 0;
        while i < self.ignore_prefix.len()
            invariant
                i <= self.ignore_prefix@.len(),
                t@ == trim_spec(cmd@),
                forall|j: int| 0 <= j < i ==> !is_prefix(#[trigger] self.ignore_prefix@[j]@, t@),
            decreases self.ignore_prefix@.len() - i,
        {
            let p = chars_of(self.ignore_prefix[i].as_str());
            if has_prefix(p.as_slice(), t) {
                return true;
            }
            i = i + 1;
        }
        false
    }
}

} // verus!
