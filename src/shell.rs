//! Shell integration snippets.
use vstd::prelude::*;

verus! {

/// Bash hook: logs each command from the prompt hook.
pub const BASH_HOOK: &'static str = r#"# sdbh bash hook mode
# Add to ~/.bashrc (and ensure HISTTIMEFORMAT="%s ")

export SDBH_SALT=${RANDOM}
export SDBH_PPID=$PPID

__sdbh_prompt() {
  [[ -n "${COMP_LINE}" ]] && return

  local line
  line="$(history 1)"

  # Parse: <hist_id> <epoch> <cmd...>
  # history output sometimes contains multiple spaces between fields, so trim
  # spaces before splitting.
  local hist_id epoch cmd

  # trim leading spaces
  line="${line#${line%%[! ]*}}"

  hist_id="${line%% *}"
  line="${line#* }"

  # trim leading spaces again (in case there were multiple spaces)
  line="${line#${line%%[! ]*}}"

  epoch="${line%% *}"
  cmd="${line#* }"

  [[ -z "${cmd}" ]] && return
  [[ ! "${epoch}" =~ ^[0-9]+$ ]] && return

  sdbh log --hist-id "${hist_id}" --epoch "${epoch}" --ppid "${PPID}" --pwd "${PWD}" --salt "${SDBH_SALT}" --cmd "${cmd}" 2>/dev/null || true
}

if ! [[ "${PROMPT_COMMAND}" =~ __sdbh_prompt ]]; then
  PROMPT_COMMAND="__sdbh_prompt${PROMPT_COMMAND:+; $PROMPT_COMMAND}"
fi
"#;

/// Zsh hook: logs each command from `precmd`.
pub const ZSH_HOOK: &'static str = r#"# sdbh zsh hook mode
# Add to ~/.zshrc

export SDBH_SALT=$RANDOM
export SDBH_PPID=$$

sdbh_precmd() {
  local cmd epoch
  cmd="$(fc -ln -1)"
  epoch="$(date +%s)"
  [[ -z "${cmd}" ]] && return
  sdbh log --epoch "${epoch}" --ppid "$$" --pwd "${PWD}" --salt "${SDBH_SALT}" --cmd "${cmd}" 2>/dev/null || true
}

autoload -Uz add-zsh-hook
add-zsh-hook precmd sdbh_precmd
"#;

/// Bash intercept: logs each command from a DEBUG trap, before it runs.
pub const BASH_INTERCEPT: &'static str = r#"# sdbh bash intercept mode (more invasive)
# Uses DEBUG trap to log each command before it runs.
# Add to ~/.bashrc

export SDBH_SALT=${RANDOM}
export SDBH_PPID=$PPID

__sdbh_debug_trap() {
  # Avoid recursion
  [[ -n "${__SDBH_IN_TRAP}" ]] && return
  __SDBH_IN_TRAP=1

  local cmd epoch
  cmd="${BASH_COMMAND}"
  epoch="$(date +%s)"

  # Filter out the trap itself / empty
  [[ -z "${cmd}" ]] && __SDBH_IN_TRAP= && return
  [[ "${cmd}" == sdbh* ]] && __SDBH_IN_TRAP= && return

  sdbh log --epoch "${epoch}" --ppid "${PPID}" --pwd "${PWD}" --salt "${SDBH_SALT}" --cmd "${cmd}" 2>/dev/null || true
  __SDBH_IN_TRAP=
}

trap '__sdbh_debug_trap' DEBUG
"#;

/// Zsh intercept: logs each command from `preexec`, before it runs.
pub const ZSH_INTERCEPT: &'static str = r#"# sdbh zsh intercept mode (more invasive)
# Uses preexec to log each command before it runs.
# Add to ~/.zshrc

export SDBH_SALT=$RANDOM
export SDBH_PPID=$$

function sdbh_preexec() {
  local cmd="$1"
  local epoch="$(date +%s)"
  [[ -z "${cmd}" ]] && return
  [[ "${cmd}" == sdbh* ]] && return
  sdbh log --epoch "${epoch}" --ppid "$$" --pwd "${PWD}" --salt "${SDBH_SALT}" --cmd "${cmd}" 2>/dev/null || true
}

autoload -Uz add-zsh-hook
add-zsh-hook preexec sdbh_preexec
"#;

/// The text of `BASH_HOOK`.
pub fn bash_hook_snippet() -> (r: String)
    ensures
        r@ == BASH_HOOK@,
{
    String::from_str(BASH_HOOK)
}

/// The text of `ZSH_HOOK`.
pub fn zsh_hook_snippet() -> (r: String)
    ensures
        r@ == ZSH_HOOK@,
{
    String::from_str(ZSH_HOOK)
}

/// The text of `BASH_INTERCEPT`.
pub fn bash_intercept_snippet() -> (r: String)
    ensures
        r@ == BASH_INTERCEPT@,
{
    String::from_str(BASH_INTERCEPT)
}

/// The text of `ZSH_INTERCEPT`.
pub fn zsh_intercept_snippet() -> (r: String)
    ensures
        r@ == ZSH_INTERCEPT@,
{
    String::from_str(ZSH_INTERCEPT)
}

/// The snippets to print: both shells unless one is named, intercept or
/// hook style.
pub open spec fn snippets_spec(bash: bool, zsh: bool, intercept: bool) -> Seq<Seq<char>> {
    let want_bash = bash || !zsh;
    let want_zsh = zsh || !bash;
    let b = if intercept { BASH_INTERCEPT@ } else { BASH_HOOK@ };
    let z = if intercept { ZSH_INTERCEPT@ } else { ZSH_HOOK@ };
    (if want_bash { seq![b] } else { seq![] }) + (if want_zsh { seq![z] } else { seq![] })
}

/// The snippets for the chosen shells, bash first.
pub fn shell_snippets(bash: bool, zsh: bool, intercept: bool) -> (r: Vec<String>)
    ensures
        r@.map_values(|s: String| s@) == snippets_spec(bash, zsh, intercept),
{
    let mut out: Vec<String> = Vec::new();
    if bash || !zsh {
        out.push(if intercept { bash_intercept_snippet() } else { bash_hook_snippet() });
    }
    if zsh || !bash {
        out.push(if intercept { zsh_intercept_snippet() } else { zsh_hook_snippet() });
    }
    assert(out@.map_values(|s: String| s@) =~= snippets_spec(bash, zsh, intercept));
    out
}

} // verus!
