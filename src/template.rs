//! Command templates: commands with `{name}` placeholders, their variable
//! definitions, and the substitution of values into them.
use vstd::prelude::*;
use crate::text::{chars_eq, chars_of, has_prefix, is_prefix, push_char};

verus! {

/// A variable that a template may use.
#[derive(Debug, Clone)]
pub struct Variable {
    /// Name used in `{name}` placeholders.
    pub name: String,
    pub description: Option<String>,
    /// Whether resolution fails when no value or default is found.
    pub required: bool,
    /// Value used when none is provided.
    pub default: Option<String>,
}

/// A reusable command with placeholders.
#[derive(Debug, Clone)]
pub struct Template {
    pub id: String,
    pub name: String,
    pub description: Option<String>,
    /// The command, with `{variable}` placeholders.
    pub command: String,
    pub category: Option<String>,
    pub variables: Vec<Variable>,
    /// Values applied before the provided ones, as (name, value) pairs.
    pub defaults: Vec<(String, String)>,
}

/// A template with every placeholder filled in.
#[derive(Debug, Clone)]
pub struct ResolvedTemplate {
    pub template: Template,
    pub resolved_command: String,
    /// The values used, as (name, value) pairs with distinct names.
    pub variables_used: Vec<(String, String)>,
}

/// Why a template was refused or could not be resolved.
#[derive(Debug, Clone, PartialEq, Eq)]
pub enum TemplateError {
    EmptyId,
    EmptyName,
    EmptyCommand,
    EmptyVariableName,
    InvalidVariableName(String),
    UndefinedVariable(String),
    MissingRequired(String),
    Unresolved(String),
}

impl TemplateError {
    /// A sentence describing the error.
    pub fn message(&self) -> (r: String)
        ensures
            r@ == (match self {
                TemplateError::EmptyId => "Template ID cannot be empty"@,
                TemplateError::EmptyName => "Template name cannot be empty"@,
                TemplateError::EmptyCommand => "Template command cannot be empty"@,
                TemplateError::EmptyVariableName => "Variable name cannot be empty"@,
                TemplateError::InvalidVariableName(n) => "Invalid variable name '"@ + n@
                    + "': must be alphanumeric with underscores"@,
                TemplateError::UndefinedVariable(n) => "Variable '"@ + n@
                    + "' used in command but not defined in variables list"@,
                TemplateError::MissingRequired(n) => "Required variable '"@ + n@
                    + "' not provided and no default available"@,
                TemplateError::Unresolved(n) => "Variable '"@ + n@ + "' not provided"@,
            }),
    {
        match self {
            TemplateError::EmptyId => String::from_str("Template ID cannot be empty"),
            TemplateError::EmptyName => String::from_str("Template name cannot be empty"),
            TemplateError::EmptyCommand => String::from_str("Template command cannot be empty"),
            TemplateError::EmptyVariableName => String::from_str("Variable name cannot be empty"),
            TemplateError::InvalidVariableName(n) => {
                let mut s = String::from_str("Invalid variable name '");
                s.append(n.as_str());
                s.append("': must be alphanumeric with underscores");
                s
            },
            TemplateError::UndefinedVariable(n) => {
                let mut s = String::from_str("Variable '");
                s.append(n.as_str());
                s.append("' used in command but not defined in variables list");
                s
            },
            TemplateError::MissingRequired(n) => {
                let mut s = String::from_str("Required variable '");
                s.append(n.as_str());
                s.append("' not provided and no default available");
                s
            },
            TemplateError::Unresolved(n) => {
                let mut s = String::from_str("Variable '");
                s.append(n.as_str());
                s.append("' not provided");
                s
            },
        }
    }
}

/// The Unicode `Alphabetic` property.
pub uninterp spec fn unicode_alphabetic(c: char) -> bool;

/// The Unicode numeric general categories (`Nd`, `Nl`, `No`).
pub uninterp spec fn unicode_numeric(c: char) -> bool;

/// Relies on `char::is_alphabetic`: whether `c` has the `Alphabetic` property.
#[verifier::external_body]
fn is_alphabetic(c: char) -> (r: bool)
    ensures
        r == unicode_alphabetic(c),
{
    c.is_alphabetic()
}

/// Relies on `char::is_numeric`: whether `c` is in a numeric general category.
#[verifier::external_body]
fn is_numeric(c: char) -> (r: bool)
    ensures
        r == unicode_numeric(c),
{
    c.is_numeric()
}

/// A character allowed in a variable name (`char::is_alphanumeric` is
/// alphabetic or numeric).
pub open spec fn name_char(c: char) -> bool {
    unicode_alphabetic(c) || unicode_numeric(c) || c == '_'
}

/// A variable name: a letter, then letters, digits and underscores.
pub open spec fn valid_name_spec(n: Seq<char>) -> bool {
    n.len() > 0 && unicode_alphabetic(n[0]) && forall|k: int| 0 <= k < n.len() ==> name_char(#[trigger] n[k])
}

/// Whether `name` is a valid variable name.
pub fn is_valid_variable_name(name: &str) -> (r: bool)
    ensures
        r == valid_name_spec(name@),
{
    let v = chars_of(name);
    if v.len() == 0 {
        return false;
    }
    let mut i: usize = 0;
    while i < v.len()
        invariant
            i <= v@.len(),
            v@ == name@,
            forall|k: int| 0 <= k < i ==> name_char(#[trigger] v@[k]),
        decreases v@.len() - i,
    {
        let c = v[i];
        if !(is_alphabetic(c) || is_numeric(c) || c == '_') {
            return false;
        }
        i = i + 1;
    }
    is_alphabetic(v[0])
}

/// Index of the first `}` at or after `k`, or the length when there is none.
pub open spec fn first_close(s: Seq<char>, k: int) -> int
    decreases s.len() - k,
{
    if k >= s.len() {
        s.len() as int
    } else if s[k] == '}' {
        k
    } else {
        first_close(s, k + 1)
    }
}

/// The placeholders of `s` from position `i` on, in order: each `{`
/// followed by one or more characters other than `}` and then a `}`.
pub open spec fn placeholders_from(s: Seq<char>, i: int) -> Seq<Seq<char>>
    decreases s.len() - i,
{
    if i < 0 || i >= s.len() {
        seq![]
    } else if s[i] == '{' && first_close(s, i + 1) < s.len() && first_close(s, i + 1) > i + 1 {
        seq![s.subrange(i + 1, first_close(s, i + 1))] + placeholders_from(s, first_close(s, i + 1) + 1)
    } else {
        placeholders_from(s, i + 1)
    }
}

/// The first occurrence of each element, in order.
pub open spec fn dedup_spec(xs: Seq<Seq<char>>) -> Seq<Seq<char>>
    decreases xs.len(),
{
    if xs.len() == 0 {
        seq![]
    } else if dedup_spec(xs.drop_last()).contains(xs.last()) {
        dedup_spec(xs.drop_last())
    } else {
        dedup_spec(xs.drop_last()).push(xs.last())
    }
}

pub open spec fn strings_view(v: Seq<String>) -> Seq<Seq<char>> {
    v.map_values(|s: String| s@)
}

proof fn lemma_first_close_bounds(s: Seq<char>, k: int)
    requires
        0 <= k,
    ensures
        k <= first_close(s, k) || k > s.len(),
        first_close(s, k) <= s.len(),
        first_close(s, k) < s.len() ==> s[first_close(s, k)] == '}',
        forall|j: int| k <= j < first_close(s, k) ==> s[j] != '}',
    decreases s.len() - k,
{
    if k < s.len() && s[k] != '}' {
        lemma_first_close_bounds(s, k + 1);
    }
}

fn find_close(v: &[char], k: usize) -> (j: usize)
    requires
        k <= v@.len(),
    ensures
        j == first_close(v@, k as int),
{
    let mut j = k;
    while j < v.len() && v[j] != '}'
        invariant
            k <= j <= v@.len(),
            first_close(v@, j as int) == first_close(v@, k as int),
        decreases v@.len() - j,
    {
        j = j + 1;
    }
    j
}

fn string_of(v: &[char], from: usize, to: usize) -> (r: String)
    requires
        from <= to <= v@.len(),
    ensures
        r@ == v@.subrange(from as int, to as int),
{
    let mut s = String::new();
    let mut i = from;
    while i < to
        invariant
            from <= i <= to <= v@.len(),
            s@ == v@.subrange(from as int, i as int),
        decreases to - i,
    {
        push_char(&mut s, v[i]);
        assert(s@ =~= v@.subrange(from as int, i + 1));
        i = i + 1;
    }
    s
}

fn contains_string(v: &Vec<String>, x: &str) -> (r: bool)
    ensures
        r == strings_view(v@).contains(x@),
{
    let xv = chars_of(x);
    let mut i: usize = 0;
    while i < v.len()
        invariant
            i <= v@.len(),
            xv@ == x@,
            forall|k: int| 0 <= k < i ==> v@[k]@ != x@,
        decreases v@.len() - i,
    {
        let e = chars_of(v[i].as_str());
        if chars_eq(e.as_slice(), xv.as_slice()) {
            assert(strings_view(v@)[i as int] == x@);
            return true;
        }
        i = i + 1;
    }
    proof {
        if strings_view(v@).contains(x@) {
            let k = choose|k: int| 0 <= k < strings_view(v@).len() && strings_view(v@)[k] == x@;
            assert(v@[k]@ == x@);
        }
    }
    false
}

/// The names of the placeholders of a command, each once, in order of
/// first appearance.
#[verifier::rlimit(30)]
pub fn extract_variables(command: &str) -> (r: Vec<String>)
    ensures
        strings_view(r@) == dedup_spec(placeholders_from(command@, 0)),
{
    let v = chars_of(command);
    let vs = v.as_slice();
    let mut found: Vec<String> = Vec::new();
    let mut i: usize = 0;
    while i < vs.len()
        invariant
            i <= vs@.len(),
            vs@ == command@,
            strings_view(found@) + placeholders_from(vs@, i as int) == placeholders_from(vs@, 0),
        decreases vs@.len() - i,
    {
        let ghost before = strings_view(found@);
        if vs[i] == '{' {
            let j = find_close(vs, i + 1);
            if j < vs.len() && j > i + 1 {
                let name = string_of(vs, i + 1, j);
                found.push(name);
                assert(strings_view(found@) =~= before.push(vs@.subrange(i + 1, j as int)));
                assert(strings_view(found@) + placeholders_from(vs@, j + 1) =~= before
                    + placeholders_from(vs@, i as int));
                i = j + 1;
                continue;
            }
        }
        i = i + 1;
    }
    let mut out: Vec<String> = Vec::new();
    let mut k: usize = 0;
    assert(strings_view(found@) =~= placeholders_from(vs@, 0));
    while k < found.len()
        invariant
            k <= found@.len(),
            strings_view(found@) == placeholders_from(command@, 0),
            strings_view(out@) == dedup_spec(strings_view(found@).take(k as int)),
        decreases found@.len() - k,
    {
        let ghost pre = strings_view(found@).take(k as int);
        assert(strings_view(found@).take(k + 1).drop_last() =~= pre);
        if !contains_string(&out, found[k].as_str()) {
            let ghost before = strings_view(out@);
            out.push(found[k].clone());
            assert(strings_view(out@) =~= before.push(found@[k as int]@));
        }
        k = k + 1;
    }
    assert(strings_view(found@).take(k as int) =~= strings_view(found@));
    out
}

/// `s` with every occurrence of `pat`, left to right and not overlapping,
/// replaced by `rep`.
pub open spec fn replace_spec(s: Seq<char>, pat: Seq<char>, rep: Seq<char>) -> Seq<char>
    decreases s.len(),
{
    if s.len() == 0 || pat.len() == 0 {
        s
    } else if is_prefix(pat, s) {
        rep + replace_spec(s.skip(pat.len() as int), pat, rep)
    } else {
        seq![s[0]] + replace_spec(s.skip(1), pat, rep)
    }
}

fn replace_all(s: &str, pat: &[char], rep: &str) -> (r: String)
    requires
        pat@.len() > 0,
    ensures
        r@ == replace_spec(s@, pat@, rep@),
{
    let v = chars_of(s);
    let mut out = String::new();
    let mut i: usize = 0;
    assert(v@.skip(0) =~= v@);
    while i < v.len()
        invariant
            i <= v@.len(),
            v@ == s@,
            pat@.len() > 0,
            out@ + replace_spec(v@.skip(i as int), pat@, rep@) == replace_spec(s@, pat@, rep@),
        decreases v@.len() - i,
    {
        let rest = &v.as_slice()[i..v.len()];
        assert(rest@ =~= v@.skip(i as int));
        if has_prefix(pat, rest) {
            let ghost before = out@;
            out.append(rep);
            assert(v@.skip(i as int).skip(pat@.len() as int) =~= v@.skip(i + pat@.len()));
            assert(out@ + replace_spec(v@.skip(i + pat@.len()), pat@, rep@) =~= before
                + replace_spec(v@.skip(i as int), pat@, rep@));
            i = i + pat.len();
        } else {
            let ghost before = out@;
            push_char(&mut out, v[i]);
            assert(v@.skip(i as int).skip(1) =~= v@.skip(i + 1));
            assert(out@ + replace_spec(v@.skip(i + 1), pat@, rep@) =~= before + replace_spec(
                v@.skip(i as int),
                pat@,
                rep@,
            ));
            i = i + 1;
        }
    }
    assert(v@.skip(i as int) =~= Seq::<char>::empty());
    assert(out@ =~= replace_spec(s@, pat@, rep@));
    out
}

/// The placeholder text `{name}`.
pub open spec fn placeholder(name: Seq<char>) -> Seq<char> {
    seq!['{'] + name + seq!['}']
}

pub open spec fn pairs_view(v: Seq<(String, String)>) -> Seq<(Seq<char>, Seq<char>)> {
    v.map_values(|p: (String, String)| (p.0@, p.1@))
}

/// The command after substituting each (name, value) pair in turn.
pub open spec fn substitute_spec(command: Seq<char>, vars: Seq<(Seq<char>, Seq<char>)>) -> Seq<char>
    decreases vars.len(),
{
    if vars.len() == 0 {
        command
    } else {
        replace_spec(
            substitute_spec(command, vars.drop_last()),
            placeholder(vars.last().0),
            vars.last().1,
        )
    }
}

/// Index of the first `{`, or the length when there is none.
pub open spec fn first_open(s: Seq<char>, k: int) -> int
    decreases s.len() - k,
{
    if k >= s.len() {
        s.len() as int
    } else if s[k] == '{' {
        k
    } else {
        first_open(s, k + 1)
    }
}

/// The name between the first `{` and the next `}`, when both are there.
pub open spec fn unresolved_spec(s: Seq<char>) -> Option<Seq<char>> {
    let p = first_open(s, 0);
    if p < s.len() && first_close(s, p) < s.len() {
        Some(s.subrange(p + 1, first_close(s, p)))
    } else {
        None
    }
}

fn find_open(v: &[char]) -> (j: usize)
    ensures
        j == first_open(v@, 0),
        j <= v@.len(),
        j < v@.len() ==> v@[j as int] == '{',
{
    let mut j: usize = 0;
    while j < v.len() && v[j] != '{'
        invariant
            j <= v@.len(),
            first_open(v@, j as int) == first_open(v@, 0),
        decreases v@.len() - j,
    {
        j = j + 1;
    }
    j
}

/// Substitutes each `{name}` of the command by its value, pair by pair;
/// fails with the first name left between braces.
#[verifier::rlimit(30)]
pub fn substitute_variables(command: &str, variables: &Vec<(String, String)>) -> (r: Result<
    String,
    TemplateError,
>)
    ensures
        match unresolved_spec(substitute_spec(command@, pairs_view(variables@))) {
            Some(n) => r matches Err(TemplateError::Unresolved(m)) && m@ == n,
            None => r matches Ok(s) && s@ == substitute_spec(command@, pairs_view(variables@)),
        },
{
    let mut result = String::from_str(command);
    let mut i: usize = 0;
    while i < variables.len()
        invariant
            i <= variables@.len(),
            result@ == substitute_spec(command@, pairs_view(variables@.take(i as int))),
        decreases variables@.len() - i,
    {
        let (name, value) = &variables[i];
        let mut pat: Vec<char> = Vec::new();
        pat.push('{');
        let nv = chars_of(name.as_str());
        let mut k: usize = 0;
        while k < nv.len()
            invariant
                k <= nv@.len(),
                pat@ == seq!['{'] + nv@.take(k as int),
            decreases nv@.len() - k,
        {
            pat.push(nv[k]);
            assert(pat@ =~= seq!['{'] + nv@.take(k + 1));
            k = k + 1;
        }
        pat.push('}');
        assert(nv@.take(k as int) =~= nv@);
        assert(pat@ =~= placeholder(name@));
        result = replace_all(result.as_str(), pat.as_slice(), value.as_str());
        assert(pairs_view(variables@.take(i + 1)).drop_last() =~= pairs_view(variables@.take(i as int)));
        assert(pairs_view(variables@.take(i + 1)).last() == (name@, value@));
        i = i + 1;
    }
    assert(variables@.take(i as int) =~= variables@);
    let v = chars_of(result.as_str());
    let p = find_open(v.as_slice());
    if p < v.len() {
        let e = find_close(v.as_slice(), p);
        if e < v.len() {
            proof {
                assert(first_close(v@, p as int) == first_close(v@, p + 1));
                lemma_first_close_bounds(v@, p + 1);
            }
            let name = string_of(v.as_slice(), p + 1, e);
            return Err(TemplateError::Unresolved(name));
        }
    }
    Ok(result)
}

/// Where templates are kept.
#[derive(Debug, Clone)]
pub struct TemplateEngine {
    pub templates_dir: String,
}

/// Names of a list of variable definitions.
pub open spec fn var_names(vs: Seq<Variable>) -> Seq<Seq<char>> {
    vs.map_values(|v: Variable| v.name@)
}

/// Position of the first name, from `k` on, that is not a valid variable name.
pub open spec fn first_invalid_from(names: Seq<Seq<char>>, k: int) -> Option<int>
    decreases names.len() - k,
{
    if k < 0 || k >= names.len() {
        None
    } else if !valid_name_spec(names[k]) {
        Some(k)
    } else {
        first_invalid_from(names, k + 1)
    }
}

/// The first used name, from `k` on, that is not among the defined names.
pub open spec fn first_undefined_from(used: Seq<Seq<char>>, defined: Seq<Seq<char>>, k: int) -> Option<
    Seq<char>,
>
    decreases used.len() - k,
{
    if k < 0 || k >= used.len() {
        None
    } else if !defined.contains(used[k]) {
        Some(used[k])
    } else {
        first_undefined_from(used, defined, k + 1)
    }
}

/// Position of `key` among the names of `m`, from `k` on.
pub open spec fn key_pos(m: Seq<(Seq<char>, Seq<char>)>, key: Seq<char>, k: int) -> Option<int>
    decreases m.len() - k,
{
    if k < 0 || k >= m.len() {
        None
    } else if m[k].0 == key {
        Some(k)
    } else {
        key_pos(m, key, k + 1)
    }
}

/// `m` with `key` set to `value`: in place when present, else appended.
pub open spec fn assign(m: Seq<(Seq<char>, Seq<char>)>, key: Seq<char>, value: Seq<char>) -> Seq<
    (Seq<char>, Seq<char>),
> {
    match key_pos(m, key, 0) {
        Some(i) => m.update(i, (key, value)),
        None => m.push((key, value)),
    }
}

/// `m` with each pair of `ps` assigned in turn.
pub open spec fn assign_all(m: Seq<(Seq<char>, Seq<char>)>, ps: Seq<(Seq<char>, Seq<char>)>) -> Seq<
    (Seq<char>, Seq<char>),
>
    decreases ps.len(),
{
    if ps.len() == 0 {
        m
    } else {
        let prev = assign_all(m, ps.drop_last());
        assign(prev, ps.last().0, ps.last().1)
    }
}

/// Fills in the defaults of required variables that have no value yet;
/// fails with the name of the first one that has neither.
pub open spec fn apply_required(m: Seq<(Seq<char>, Seq<char>)>, vars: Seq<Variable>) -> Result<
    Seq<(Seq<char>, Seq<char>)>,
    Seq<char>,
>
    decreases vars.len(),
{
    if vars.len() == 0 {
        Ok(m)
    } else {
        match apply_required(m, vars.drop_last()) {
            Err(n) => Err(n),
            Ok(m2) => {
                let v = vars.last();
                if v.required && key_pos(m2, v.name@, 0) is None {
                    match v.default {
                        Some(d) => Ok(assign(m2, v.name@, d@)),
                        None => Err(v.name@),
                    }
                } else {
                    Ok(m2)
                }
            },
        }
    }
}

/// The values a template resolves with: its defaults, then the provided
/// values, then the defaults of required variables still missing.
pub open spec fn resolve_values_spec(t: Template, provided: Seq<(String, String)>) -> Result<
    Seq<(Seq<char>, Seq<char>)>,
    Seq<char>,
> {
    apply_required(
        assign_all(assign_all(seq![], pairs_view(t.defaults@)), pairs_view(provided)),
        t.variables@,
    )
}

fn find_key(m: &Vec<(String, String)>, key: &str) -> (r: Option<usize>)
    ensures
        r matches Some(i) ==> i < m@.len() && key_pos(pairs_view(m@), key@, 0) == Some(i as int),
        r is None ==> key_pos(pairs_view(m@), key@, 0) is None,
{
    let kv = chars_of(key);
    let mut i: usize = 0;
    while i < m.len()
        invariant
            i <= m@.len(),
            kv@ == key@,
            key_pos(pairs_view(m@), key@, i as int) == key_pos(pairs_view(m@), key@, 0),
        decreases m@.len() - i,
    {
        let e = chars_of(m[i].0.as_str());
        if chars_eq(e.as_slice(), kv.as_slice()) {
            return Some(i);
        }
        i = i + 1;
    }
    None
}

fn assign_exec(m: &mut Vec<(String, String)>, key: &String, value: &String)
    ensures
        pairs_view(final(m)@) == assign(pairs_view(old(m)@), key@, value@),
{
    match find_key(m, key.as_str()) {
        Some(i) => {
            m.remove(i);
            m.insert(i, (key.clone(), value.clone()));
            assert(pairs_view(m@) =~= pairs_view(old(m)@).update(i as int, (key@, value@)));
        },
        None => {
            m.push((key.clone(), value.clone()));
            assert(pairs_view(m@) =~= pairs_view(old(m)@).push((key@, value@)));
        },
    }
}

fn assign_each(m: &mut Vec<(String, String)>, ps: &Vec<(String, String)>)
    ensures
        pairs_view(final(m)@) == assign_all(pairs_view(old(m)@), pairs_view(ps@)),
{
    let mut i: usize = 0;
    while i < ps.len()
        invariant
            i <= ps@.len(),
            pairs_view(m@) == assign_all(pairs_view(old(m)@), pairs_view(ps@.take(i as int))),
        decreases ps@.len() - i,
    {
        assign_exec(m, &ps[i].0, &ps[i].1);
        assert(pairs_view(ps@.take(i + 1)).drop_last() =~= pairs_view(ps@.take(i as int)));
        i = i + 1;
    }
    assert(ps@.take(i as int) =~= ps@);
}

impl TemplateEngine {
    /// The directory holding the template files.
    pub fn templates_dir(&self) -> (r: &str)
        ensures
            r@ == self.templates_dir@,
    {
        self.templates_dir.as_str()
    }

    /// Checks a template: non-empty id, name and command; valid variable
    /// names; every placeholder of the command defined as a variable.
    #[verifier::rlimit(30)]
    pub fn validate_template(&self, template: &Template) -> (r: Result<(), TemplateError>)
        ensures
            template.id@.len() == 0 ==> r == Err::<(), TemplateError>(TemplateError::EmptyId),
            template.id@.len() > 0 && template.name@.len() == 0 ==> r == Err::<(), TemplateError>(
                TemplateError::EmptyName,
            ),
            template.id@.len() > 0 && template.name@.len() > 0 && template.command@.len() == 0 ==> r
                == Err::<(), TemplateError>(TemplateError::EmptyCommand),
            template.id@.len() > 0 && template.name@.len() > 0 && template.command@.len() > 0 ==> match first_invalid_from(
                var_names(template.variables@),
                0,
            ) {
                Some(k) => if var_names(template.variables@)[k].len() == 0 {
                    r == Err::<(), TemplateError>(TemplateError::EmptyVariableName)
                } else {
                    r matches Err(TemplateError::InvalidVariableName(n)) && n@ == var_names(
                        template.variables@,
                    )[k]
                },
                None => match first_undefined_from(
                    dedup_spec(placeholders_from(template.command@, 0)),
                    var_names(template.variables@),
                    0,
                ) {
                    Some(u) => r matches Err(TemplateError::UndefinedVariable(n)) && n@ == u,
                    None => r is Ok,
                },
            },
    {
        if template.id.as_str().unicode_len() == 0 {
            return Err(TemplateError::EmptyId);
        }
        if template.name.as_str().unicode_len() == 0 {
            return Err(TemplateError::EmptyName);
        }
        if template.command.as_str().unicode_len() == 0 {
            return Err(TemplateError::EmptyCommand);
        }
        let ghost names = var_names(template.variables@);
        let mut i: usize = 0;
        while i < template.variables.len()
            invariant
                i <= template.variables@.len(),
                names == var_names(template.variables@),
                first_invalid_from(names, i as int) == first_invalid_from(names, 0),
                template.id@.len() > 0 && template.name@.len() > 0 && template.command@.len() > 0,
            decreases template.variables@.len() - i,
        {
            let name = &template.variables[i].name;
            assert(names[i as int] == name@);
            if name.as_str().unicode_len() == 0 {
                return Err(TemplateError::EmptyVariableName);
            }
            if !is_valid_variable_name(name.as_str()) {
                return Err(TemplateError::InvalidVariableName(name.clone()));
            }
            i = i + 1;
        }
        let used = extract_variables(template.command.as_str());
        let mut defined: Vec<String> = Vec::new();
        let mut k: usize = 0;
        while k < template.variables.len()
            invariant
                k <= template.variables@.len(),
                strings_view(defined@) == names.take(k as int),
                names == var_names(template.variables@),
                first_invalid_from(names, 0) is None,
                template.id@.len() > 0 && template.name@.len() > 0 && template.command@.len() > 0,
            decreases template.variables@.len() - k,
        {
            assert(names[k as int] == template.variables@[k as int].name@);
            let ghost before = strings_view(defined@);
            let nm = template.variables[k].name.clone();
            defined.push(nm);
            assert(strings_view(defined@) =~= before.push(names[k as int]));
            assert(names.take(k + 1) =~= names.take(k as int).push(names[k as int]));
            k = k + 1;
        }
        assert(names.take(k as int) =~= names);
        let ghost uv = strings_view(used@);
        let mut j: usize = 0;
        while j < used.len()
            invariant
                j <= used@.len(),
                uv == strings_view(used@),
                uv == dedup_spec(placeholders_from(template.command@, 0)),
                strings_view(defined@) == names,
                names == var_names(template.variables@),
                first_invalid_from(names, 0) is None,
                template.id@.len() > 0 && template.name@.len() > 0 && template.command@.len() > 0,
                first_undefined_from(uv, names, j as int) == first_undefined_from(uv, names, 0),
            decreases used@.len() - j,
        {
            assert(uv[j as int] == used@[j as int]@);
            if !contains_string(&defined, used[j].as_str()) {
                return Err(TemplateError::UndefinedVariable(used[j].clone()));
            }
            j = j + 1;
        }
        Ok(())
    }

    /// Resolves a template: applies its defaults, then the provided values,
    /// then the defaults of required variables still missing, and substitutes
    /// the result into the command.
    #[verifier::rlimit(30)]
    pub fn resolve_template(&self, template: &Template, provided_vars: &Vec<(String, String)>) -> (r:
        Result<ResolvedTemplate, TemplateError>)
        ensures
            match resolve_values_spec(*template, provided_vars@) {
                Err(n) => r matches Err(TemplateError::MissingRequired(m)) && m@ == n,
                Ok(m) => match unresolved_spec(substitute_spec(template.command@, m)) {
                    Some(n) => r matches Err(TemplateError::Unresolved(x)) && x@ == n,
                    None => r matches Ok(rt) && rt.resolved_command@ == substitute_spec(
                        template.command@,
                        m,
                    ) && pairs_view(rt.variables_used@) == m,
                },
            },
    {
        let mut resolved: Vec<(String, String)> = Vec::new();
        assert(pairs_view(resolved@) =~= Seq::<(Seq<char>, Seq<char>)>::empty());
        assign_each(&mut resolved, &template.defaults);
        assign_each(&mut resolved, provided_vars);
        let ghost base = pairs_view(resolved@);
        let mut i: usize = 0;
        while i < template.variables.len()
            invariant
                i <= template.variables@.len(),
                base == assign_all(
                    assign_all(seq![], pairs_view(template.defaults@)),
                    pairs_view(provided_vars@),
                ),
                apply_required(base, template.variables@.take(i as int)) == Ok::<
                    Seq<(Seq<char>, Seq<char>)>,
                    Seq<char>,
                >(pairs_view(resolved@)),
            decreases template.variables@.len() - i,
        {
            let var = &template.variables[i];
            assert(template.variables@.take(i + 1).drop_last() =~= template.variables@.take(i as int));
            assert(template.variables@.take(i + 1).last() == template.variables@[i as int]);
            if var.required && find_key(&resolved, var.name.as_str()).is_none() {
                match &var.default {
                    Some(d) => {
                        assign_exec(&mut resolved, &var.name, d);
                    },
                    None => {
                        proof {
                            lemma_apply_required_stops(base, template.variables@, i as int);
                        }
                        return Err(TemplateError::MissingRequired(var.name.clone()));
                    },
                }
            }
            i = i + 1;
        }
        assert(template.variables@.take(i as int) =~= template.variables@);
        match substitute_variables(template.command.as_str(), &resolved) {
            Ok(cmd) => Ok(
                ResolvedTemplate {
                    template: template.clone(),
                    resolved_command: cmd,
                    variables_used: resolved,
                },
            ),
            Err(e) => Err(e),
        }
    }
}

proof fn lemma_apply_required_stops(m: Seq<(Seq<char>, Seq<char>)>, vars: Seq<Variable>, i: int)
    requires
        0 <= i < vars.len(),
        apply_required(m, vars.take(i + 1)) is Err,
    ensures
        apply_required(m, vars) == apply_required(m, vars.take(i + 1)),
    decreases vars.len() - i,
{
    if i + 1 < vars.len() {
        assert(vars.take(i + 2).drop_last() =~= vars.take(i + 1));
        lemma_apply_required_stops(m, vars, i + 1);
    } else {
        assert(vars.take(i + 1) =~= vars);
    }
}

/// `m` with the default of every variable that has none yet.
pub open spec fn apply_var_defaults(m: Seq<(Seq<char>, Seq<char>)>, vars: Seq<Variable>) -> Seq<
    (Seq<char>, Seq<char>),
>
    decreases vars.len(),
{
    if vars.len() == 0 {
        m
    } else {
        let p = apply_var_defaults(m, vars.drop_last());
        let v = vars.last();
        if key_pos(p, v.name@, 0) is None && v.default is Some {
            assign(p, v.name@, v.default->0@)
        } else {
            p
        }
    }
}

/// Names of the required variables that `m` gives no value.
pub open spec fn missing_required(m: Seq<(Seq<char>, Seq<char>)>, vars: Seq<Variable>) -> Seq<Seq<char>>
    decreases vars.len(),
{
    if vars.len() == 0 {
        seq![]
    } else {
        let p = missing_required(m, vars.drop_last());
        let v = vars.last();
        if v.required && key_pos(m, v.name@, 0) is None {
            p.push(v.name@)
        } else {
            p
        }
    }
}

impl TemplateEngine {
    /// The values known before asking the user (the template's defaults,
    /// the provided values, then each variable's own default), and the
    /// names of the required variables that still have none.
    #[verifier::rlimit(30)]
    pub fn values_to_prompt(&self, template: &Template, provided_vars: &Vec<(String, String)>) -> (r: (
        Vec<(String, String)>,
        Vec<String>,
    ))
        ensures
            pairs_view(r.0@) == apply_var_defaults(
                assign_all(assign_all(seq![], pairs_view(template.defaults@)), pairs_view(provided_vars@)),
                template.variables@,
            ),
            strings_view(r.1@) == missing_required(pairs_view(r.0@), template.variables@),
    {
        let mut resolved: Vec<(String, String)> = Vec::new();
        assert(pairs_view(resolved@) =~= Seq::<(Seq<char>, Seq<char>)>::empty());
        assign_each(&mut resolved, &template.defaults);
        assign_each(&mut resolved, provided_vars);
        let ghost base = pairs_view(resolved@);
        let vars = &template.variables;
        let mut i: usize = 0;
        while i < vars.len()
            invariant
                i <= vars@.len(),
                vars@ == template.variables@,
                base == assign_all(
                    assign_all(seq![], pairs_view(template.defaults@)),
                    pairs_view(provided_vars@),
                ),
                pairs_view(resolved@) == apply_var_defaults(base, vars@.take(i as int)),
            decreases vars@.len() - i,
        {
            let var = &vars[i];
            assert(vars@.take(i + 1).drop_last() =~= vars@.take(i as int));
            assert(vars@.take(i + 1).last() == vars@[i as int]);
            if find_key(&resolved, var.name.as_str()).is_none() {
                match &var.default {
                    Some(d) => assign_exec(&mut resolved, &var.name, d),
                    None => {},
                }
            }
            i = i + 1;
        }
        assert(vars@.take(i as int) =~= vars@);
        let mut missing: Vec<String> = Vec::new();
        let mut k: usize = 0;
        while k < vars.len()
            invariant
                k <= vars@.len(),
                vars@ == template.variables@,
                strings_view(missing@) == missing_required(pairs_view(resolved@), vars@.take(k as int)),
            decreases vars@.len() - k,
        {
            let var = &vars[k];
            assert(vars@.take(k + 1).drop_last() =~= vars@.take(k as int));
            assert(vars@.take(k + 1).last() == vars@[k as int]);
            if var.required && find_key(&resolved, var.name.as_str()).is_none() {
                let ghost before = strings_view(missing@);
                missing.push(var.name.clone());
                assert(strings_view(missing@) =~= before.push(var.name@));
            }
            k = k + 1;
        }
        assert(vars@.take(k as int) =~= vars@);
        (resolved, missing)
    }
}

/// A `key=value` assignment: the text before the first `=` and after it.
pub open spec fn assignment_spec(s: Seq<char>) -> Option<(Seq<char>, Seq<char>)> {
    let k = first_eq(s, 0);
    if k < s.len() {
        Some((s.take(k), s.skip(k + 1)))
    } else {
        None
    }
}

/// Index of the first `=` at or after `k`, or the length.
pub open spec fn first_eq(s: Seq<char>, k: int) -> int
    decreases s.len() - k,
{
    if k >= s.len() {
        s.len() as int
    } else if s[k] == '=' {
        k
    } else {
        first_eq(s, k + 1)
    }
}

/// Splits a `key=value` assignment at its first `=`.
pub fn parse_assignment(s: &str) -> (r: Option<(String, String)>)
    ensures
        match r {
            Some((k, v)) => assignment_spec(s@) == Some((k@, v@)),
            None => assignment_spec(s@) is None,
        },
{
    let v = chars_of(s);
    let vs = v.as_slice();
    let mut k: usize = 0;
    while k < vs.len() && vs[k] != '='
        invariant
            k <= vs@.len(),
            vs@ == s@,
            first_eq(vs@, k as int) == first_eq(vs@, 0),
        decreases vs@.len() - k,
    {
        k = k + 1;
    }
    if k < vs.len() {
        let key = string_of(vs, 0, k);
        let value = string_of(vs, k + 1, vs.len());
        assert(vs@.subrange(0, k as int) =~= vs@.take(k as int));
        assert(vs@.subrange(k + 1, vs@.len() as int) =~= vs@.skip(k + 1));
        Some((key, value))
    } else {
        None
    }
}

} // verus!
