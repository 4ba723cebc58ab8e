//! The diagnostic report: checks of the environment and of spawned shells,
//! and how the report is printed.
use vstd::prelude::*;
use vstd::utf8::encode_utf8;
use crate::display::{json_body_spec, json_string, status_str, DoctorCheck, DoctorStatus};
use crate::history::{lines_of, lines_view, split_lines};
use crate::preview::{contains_spec, text_contains};
use crate::text::{chars_of, int_decimal, is_prefix, parse_i64, parse_i64_spec, push_char};

verus! {

/// What a spawned bash reports of its hooks.
#[derive(Debug, Clone)]
pub struct BashInspect {
    pub prompt_command: String,
    pub trap_debug: String,
}

/// What a spawned zsh reports of its hooks.
#[derive(Debug, Clone)]
pub struct ZshInspect {
    pub precmd_functions: String,
    pub preexec_functions: String,
}

/// Length in bytes of a string's UTF-8 encoding, as `str::len` gives it.
pub open spec fn byte_len(s: Seq<char>) -> int {
    (encode_utf8(s).len() as usize) as int
}

fn push_byte_len(out: &mut String, s: &String)
    ensures
        final(out)@ == old(out)@ + int_decimal(byte_len(s@)),
{
    let n = s.as_str().len();
    let d = crate::text::u64_to_string(n as u64);
    out.append(d.as_str());
}

impl BashInspect {
    /// The byte lengths of the two values.
    pub fn summary(&self) -> (r: String)
        ensures
            r@ == "prompt_command_len="@ + int_decimal(byte_len(self.prompt_command@))
                + ", trap_debug_len="@ + int_decimal(byte_len(self.trap_debug@)),
    {
        let mut s = String::from_str("prompt_command_len=");
        push_byte_len(&mut s, &self.prompt_command);
        s.append(", trap_debug_len=");
        push_byte_len(&mut s, &self.trap_debug);
        s
    }
}

impl ZshInspect {
    /// The byte lengths of the two values.
    pub fn summary(&self) -> (r: String)
        ensures
            r@ == "precmd_len="@ + int_decimal(byte_len(self.precmd_functions@)) + ", preexec_len="@
                + int_decimal(byte_len(self.preexec_functions@)),
    {
        let mut s = String::from_str("precmd_len=");
        push_byte_len(&mut s, &self.precmd_functions);
        s.append(", preexec_len=");
        push_byte_len(&mut s, &self.preexec_functions);
        s
    }
}

/// A line as `str::lines` gives it: without one trailing carriage return.
pub open spec fn without_cr(l: Seq<char>) -> Seq<char> {
    if l.len() > 0 && l.last() == '\r' {
        l.drop_last()
    } else {
        l
    }
}

/// What follows `marker` on the last line of `lines` that starts with it,
/// or nothing.
pub open spec fn marked_value(lines: Seq<Seq<char>>, marker: Seq<char>) -> Seq<char>
    decreases lines.len(),
{
    if lines.len() == 0 {
        seq![]
    } else if is_prefix(marker, without_cr(lines.last())) {
        without_cr(lines.last()).skip(marker.len() as int)
    } else {
        marked_value(lines.drop_last(), marker)
    }
}

/// The value after `marker` on the last line of `text` that starts with it.
pub fn marked_line_value(text: &str, marker: &str) -> (r: String)
    ensures
        r@ == marked_value(split_lines(text@), marker@),
{
    let lines = lines_of(text);
    let mv = chars_of(marker);
    let ghost lv = lines_view(lines@);
    let mut i = lines.len();
    assert(lv.take(i as int) =~= lv);
    while i > 0
        invariant
            i <= lines@.len(),
            lv == lines_view(lines@),
            lv == split_lines(text@),
            mv@ == marker@,
            marked_value(lv.take(i as int), marker@) == marked_value(lv, marker@),
        decreases i,
    {
        let line = lines[i - 1].as_slice();
        assert(lv.take(i as int).last() == line@);
        assert(lv.take(i as int).drop_last() =~= lv.take(i - 1));
        let end = if line.len() > 0 && line[line.len() - 1] == '\r' {
            line.len() - 1
        } else {
            line.len()
        };
        let l = &line[0..end];
        assert(l@ =~= without_cr(line@));
        if crate::text::has_prefix(mv.as_slice(), l) {
            let mut s = String::new();
            let mut k = mv.len();
            while k < l.len()
                invariant
                    mv@.len() <= k <= l@.len(),
                    s@ == l@.subrange(mv@.len() as int, k as int),
                decreases l@.len() - k,
            {
                push_char(&mut s, l[k]);
                assert(s@ =~= l@.subrange(mv@.len() as int, k + 1));
                k = k + 1;
            }
            assert(s@ =~= without_cr(line@).skip(marker@.len() as int));
            return s;
        }
        i = i - 1;
    }
    assert(lv.take(0) =~= Seq::<Seq<char>>::empty());
    String::new()
}

/// Reads a spawned bash's report of its prompt command and DEBUG trap.
pub fn parse_bash_inspect(stdout: &str) -> (r: BashInspect)
    ensures
        r.prompt_command@ == marked_value(split_lines(stdout@), "__SDBH_PROMPT_COMMAND__="@),
        r.trap_debug@ == marked_value(split_lines(stdout@), "__SDBH_TRAP_DEBUG__="@),
{
    BashInspect {
        prompt_command: marked_line_value(stdout, "__SDBH_PROMPT_COMMAND__="),
        trap_debug: marked_line_value(stdout, "__SDBH_TRAP_DEBUG__="),
    }
}

/// Reads a spawned zsh's report of its precmd and preexec functions.
pub fn parse_zsh_inspect(stdout: &str) -> (r: ZshInspect)
    ensures
        r.precmd_functions@ == marked_value(split_lines(stdout@), "__SDBH_PRECMD__="@),
        r.preexec_functions@ == marked_value(split_lines(stdout@), "__SDBH_PREEXEC__="@),
{
    ZshInspect {
        precmd_functions: marked_line_value(stdout, "__SDBH_PRECMD__="),
        preexec_functions: marked_line_value(stdout, "__SDBH_PREEXEC__="),
    }
}

fn contains_str(hay: &String, needle: &str) -> (r: bool)
    ensures
        r == contains_spec(hay@, needle@),
{
    let v = chars_of(hay.as_str());
    text_contains(v.as_slice(), needle)
}

fn presence_check(
    name: &str,
    found: bool,
    ok_detail: &str,
    missing_detail: &str,
) -> (r: DoctorCheck)
    ensures
        r.name@ == name@,
        found ==> r.status == DoctorStatus::Pass && r.detail@ == ok_detail@,
        !found ==> r.status == DoctorStatus::Info && r.detail@ == missing_detail@,
{
    if found {
        DoctorCheck::ok(name, String::from_str(ok_detail))
    } else {
        DoctorCheck::info(name, String::from_str(missing_detail))
    }
}

pub open spec fn check_is(c: DoctorCheck, name: Seq<char>, status: DoctorStatus, detail: Seq<char>) -> bool {
    c.name@ == name && c.status == status && c.detail@ == detail
}

/// The checks drawn from a spawned bash: the summary, then whether the
/// hook and the intercept are installed.
pub fn bash_spawn_checks(rep: &BashInspect) -> (r: Vec<DoctorCheck>)
    ensures
        r@.len() == 3,
        check_is(r@[0], "bash.spawn"@, DoctorStatus::Info, "ok: "@ + rep.summary_spec()),
        r@[1].name@ == "bash.hook.spawn"@,
        r@[1].status == (if contains_spec(rep.prompt_command@, "__sdbh_prompt"@) {
            DoctorStatus::Pass
        } else {
            DoctorStatus::Info
        }),
        r@[2].name@ == "bash.intercept.spawn"@,
        r@[2].status == (if contains_spec(rep.trap_debug@, "__sdbh_debug_trap"@) {
            DoctorStatus::Pass
        } else {
            DoctorStatus::Info
        }),
{
    let mut detail = String::from_str("ok: ");
    detail.append(rep.summary().as_str());
    let mut out: Vec<DoctorCheck> = Vec::new();
    out.push(DoctorCheck::info("bash.spawn", detail));
    out.push(
        presence_check(
            "bash.hook.spawn",
            contains_str(&rep.prompt_command, "__sdbh_prompt"),
            "PROMPT_COMMAND contains __sdbh_prompt",
            "PROMPT_COMMAND missing __sdbh_prompt",
        ),
    );
    out.push(
        presence_check(
            "bash.intercept.spawn",
            contains_str(&rep.trap_debug, "__sdbh_debug_trap"),
            "DEBUG trap contains __sdbh_debug_trap",
            "DEBUG trap missing __sdbh_debug_trap",
        ),
    );
    out
}

/// The checks drawn from a spawned zsh: the summary, then whether the hook
/// and the intercept are installed.
pub fn zsh_spawn_checks(rep: &ZshInspect) -> (r: Vec<DoctorCheck>)
    ensures
        r@.len() == 3,
        check_is(r@[0], "zsh.spawn"@, DoctorStatus::Info, "ok: "@ + rep.summary_spec()),
        r@[1].name@ == "zsh.hook.spawn"@,
        r@[1].status == (if contains_spec(rep.precmd_functions@, "sdbh_precmd"@) {
            DoctorStatus::Pass
        } else {
            DoctorStatus::Info
        }),
        r@[2].name@ == "zsh.intercept.spawn"@,
        r@[2].status == (if contains_spec(rep.preexec_functions@, "sdbh_preexec"@) {
            DoctorStatus::Pass
        } else {
            DoctorStatus::Info
        }),
{
    let mut detail = String::from_str("ok: ");
    detail.append(rep.summary().as_str());
    let mut out: Vec<DoctorCheck> = Vec::new();
    out.push(DoctorCheck::info("zsh.spawn", detail));
    out.push(
        presence_check(
            "zsh.hook.spawn",
            contains_str(&rep.precmd_functions, "sdbh_precmd"),
            "precmd_functions contains sdbh_precmd",
            "precmd_functions missing sdbh_precmd",
        ),
    );
    out.push(
        presence_check(
            "zsh.intercept.spawn",
            contains_str(&rep.preexec_functions, "sdbh_preexec"),
            "preexec_functions contains sdbh_preexec",
            "preexec_functions missing sdbh_preexec",
        ),
    );
    out
}

impl BashInspect {
    pub open spec fn summary_spec(self) -> Seq<char> {
        "prompt_command_len="@ + int_decimal(byte_len(self.prompt_command@)) + ", trap_debug_len="@
            + int_decimal(byte_len(self.trap_debug@))
    }
}

impl ZshInspect {
    pub open spec fn summary_spec(self) -> Seq<char> {
        "precmd_len="@ + int_decimal(byte_len(self.precmd_functions@)) + ", preexec_len="@ + int_decimal(
            byte_len(self.preexec_functions@),
        )
    }
}

/// The check of an integer environment variable, from its value if set.
pub fn check_env_i64(key: &str, value: &Option<String>) -> (r: DoctorCheck)
    ensures
        r.name@ == key@,
        match value {
            None => r.status == DoctorStatus::Warn && r.detail@ == key@ + " is not set"@,
            Some(v) => if parse_i64_spec(v@) is Some {
                r.status == DoctorStatus::Pass && r.detail@ == key@ + "="@ + v@
            } else {
                r.status == DoctorStatus::Warn && r.detail@ == key@ + " is set but not an integer: "@
                    + v@
            },
        },
{
    let mut detail = String::from_str(key);
    match value {
        None => {
            detail.append(" is not set");
            DoctorCheck::warn(key, detail)
        },
        Some(v) => {
            let cv = chars_of(v.as_str());
            if parse_i64(cv.as_slice()).is_some() {
                detail.append("=");
                detail.append(v.as_str());
                DoctorCheck::ok(key, detail)
            } else {
                detail.append(" is set but not an integer: ");
                detail.append(v.as_str());
                DoctorCheck::warn(key, detail)
            }
        },
    }
}

/// `s` padded with spaces on the right to at least `w` characters.
pub open spec fn pad_spec(s: Seq<char>, w: nat) -> Seq<char> {
    if s.len() >= w {
        s
    } else {
        s + Seq::new((w - s.len()) as nat, |_i: int| ' ')
    }
}

/// `n` spaces.
pub open spec fn spaces(n: int) -> Seq<char> {
    Seq::new(n as nat, |_i: int| ' ')
}

fn push_padded(out: &mut String, s: &str, w: usize)
    ensures
        final(out)@ == old(out)@ + pad_spec(s@, w as nat),
{
    let n = s.unicode_len();
    out.append(s);
    let mut k = n;
    assert(spaces(0) =~= Seq::<char>::empty());
    assert(out@ =~= old(out)@ + s@ + spaces(0));
    while k < w
        invariant
            n == s@.len(),
            n <= k,
            k <= w || k == n,
            out@ == old(out)@ + s@ + spaces(k - n),
        decreases w - k,
    {
        let ghost before = out@;
        push_char(out, ' ');
        assert(spaces(k + 1 - n) =~= spaces(k - n).push(' '));
        assert(out@ =~= old(out)@ + s@ + spaces(k + 1 - n));
        k = k + 1;
    }
    if n >= w {
        assert(out@ =~= old(out)@ + pad_spec(s@, w as nat));
    } else {
        assert(k == w);
        assert(spaces(k - n) =~= Seq::new((w - n) as nat, |_i: int| ' '));
        assert(out@ =~= old(out)@ + pad_spec(s@, w as nat));
    }
}

/// One line of the table report: name padded to 18, status to 5, detail.
pub fn doctor_table_line(c: &DoctorCheck) -> (r: String)
    ensures
        r@ == pad_spec(c.name@, 18) + " | "@ + pad_spec(status_str_spec(c.status), 5) + " | "@ + c.detail@,
{
    let mut s = String::new();
    push_padded(&mut s, c.name.as_str(), 18);
    s.append(" | ");
    push_padded(&mut s, status_str(c.status), 5);
    s.append(" | ");
    s.append(c.detail.as_str());
    s
}

pub open spec fn status_str_spec(s: DoctorStatus) -> Seq<char> {
    match s {
        DoctorStatus::Pass => "ok"@,
        DoctorStatus::Warn => "warn"@,
        DoctorStatus::Fail => "fail"@,
        DoctorStatus::Info => "info"@,
    }
}

pub open spec fn quoted(s: Seq<char>) -> Seq<char> {
    seq!['"'] + json_body_spec(s) + seq!['"']
}

/// One check as a JSON object.
pub open spec fn check_json_spec(c: DoctorCheck) -> Seq<char> {
    "{\"check\":"@ + quoted(c.name@) + ",\"status\":"@ + quoted(status_str_spec(c.status))
        + ",\"detail\":"@ + quoted(c.detail@) + "}"@
}

/// The checks as JSON objects separated by commas.
pub open spec fn checks_json_spec(cs: Seq<DoctorCheck>) -> Seq<char>
    decreases cs.len(),
{
    if cs.len() == 0 {
        seq![]
    } else if cs.len() == 1 {
        check_json_spec(cs[0])
    } else {
        checks_json_spec(cs.drop_last()) + seq![','] + check_json_spec(cs.last())
    }
}

/// The JSON report: an array of `{"check", "status", "detail"}` objects.
pub fn doctor_json(checks: &Vec<DoctorCheck>) -> (r: String)
    ensures
        r@ == seq!['['] + checks_json_spec(checks@) + seq![']'],
{
    let mut s = String::new();
    push_char(&mut s, '[');
    let mut i: usize = 0;
    while i < checks.len()
        invariant
            i <= checks@.len(),
            s@ == seq!['['] + checks_json_spec(checks@.take(i as int)),
        decreases checks@.len() - i,
    {
        let ghost before = s@;
        let c = &checks[i];
        if i > 0 {
            push_char(&mut s, ',');
        }
        s.append("{\"check\":");
        s.append(json_string(c.name.as_str()).as_str());
        s.append(",\"status\":");
        s.append(json_string(status_str(c.status)).as_str());
        s.append(",\"detail\":");
        s.append(json_string(c.detail.as_str()).as_str());
        s.append("}");
        assert(checks@.take(i + 1).drop_last() =~= checks@.take(i as int));
        assert(checks@.take(i + 1).last() == *c);
        if i == 0 {
            assert(checks@.take(1)[0] == *c);
        }
        assert(s@ =~= seq!['['] + checks_json_spec(checks@.take(i + 1)));
        i = i + 1;
    }
    assert(checks@.take(i as int) =~= checks@);
    push_char(&mut s, ']');
    s
}

} // verus!
