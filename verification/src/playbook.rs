//! Declarative browser-automation playbooks and the runner that walks them.
//!
//! A playbook lists steps and the variables they use; the runner merges
//! variable defaults with caller values, resolves `{{name}}` placeholders
//! and tracks which step comes next. It performs no browser action itself:
//! the caller dispatches each step and reports its result back.

use vstd::prelude::*;
use crate::assoc::{
    entries_view, keys_unique, lookup, key_index, assoc_insert_spec, assoc_insert, find_key,
    lemma_insert, lemma_key_index,
};
use crate::text::{
    replace_all, occurs_at, decimal, chars_of, replace_chars, string_of, decimal_string,
    lemma_replace_absent, lemma_absent_first_char, owned, contains_seq,
};

verus! {

// ---------------------------------------------------------------------------
// Variable definitions
// ---------------------------------------------------------------------------

/// The type of a playbook variable.
#[derive(Debug, Clone, Copy, PartialEq, Eq, Structural)]
pub enum VarType {
    String,
    Text,
    File,
    Number,
    Bool,
    List,
}

impl Default for VarType {
    fn default() -> (r: Self)
        ensures
            r == VarType::String,
    {
        VarType::String
    }
}

/// Declaration of a single playbook variable.
#[derive(Debug, Clone)]
pub struct VariableDef {
    pub required: bool,
    pub var_type: VarType,
    pub default: Option<String>,
    pub description: Option<String>,
}

/// Per-step error handling policy.
#[derive(Debug, Clone, Copy, PartialEq, Eq, Structural)]
pub enum OnError {
    Abort,
    Skip,
    Retry,
    Screenshot,
}

impl Default for OnError {
    fn default() -> (r: Self)
        ensures
            r == OnError::Abort,
    {
        OnError::Abort
    }
}

// ---------------------------------------------------------------------------
// Steps
// ---------------------------------------------------------------------------

/// A single step in a playbook. Each variant maps to a browser action.
#[derive(Debug)]
pub enum PlaybookStep {
    Navigate { url: String, wait_for: Option<String>, timeout: Option<u64> },
    NavigateCdp { url: String, wait_for: Option<String> },
    Click { selector: String, wait_after: Option<String>, double: Option<bool> },
    Fill { selector: String, value: String, clear_first: Option<bool>, type_delay: Option<u64> },
    Select { selector: String, value: Option<String>, text: Option<String> },
    CustomDropdown {
        selector: String,
        value: String,
        optional: Option<bool>,
        option_selector: Option<String>,
        search_input: Option<String>,
    },
    UploadFile { selector: String, path: String },
    Submit {
        selector: String,
        wait_for: Option<String>,
        wait_for_navigation: Option<bool>,
        timeout: Option<u64>,
    },
    Wait {
        ms: Option<u64>,
        selector: Option<String>,
        url_contains: Option<String>,
        timeout: Option<u64>,
    },
    Extract {
        selector: Option<String>,
        attribute: Option<String>,
        store_as: Option<String>,
        /// Legacy alias of `store_as`.
        output: Option<String>,
    },
    EvalJs { code: String, store_as: Option<String> },
    Verify {
        check: String,
        or_check: Option<String>,
        retry_on_fail: bool,
        retry_count: Option<u32>,
        retry_delay: Option<u64>,
    },
    Screenshot { path: Option<String>, full_page: Option<bool>, selector: Option<String> },
    Conditional {
        if_exists: Option<String>,
        if_visible: Option<String>,
        if_url_contains: Option<String>,
        if_variable: Option<String>,
        then_steps: Vec<PlaybookStep>,
        else_steps: Vec<PlaybookStep>,
    },
    Repeat {
        for_each: String,
        /// Name the current item is bound to (`as` in the document).
        as_name: String,
        steps: Vec<PlaybookStep>,
    },
}

/// Name a `repeat` step binds its item to when none is given.
pub fn default_item_name() -> (r: String)
    ensures
        r@ == "item"@,
{
    owned("item")
}

/// Engine a playbook runs on when none is given.
pub fn default_engine() -> (r: String)
    ensures
        r@ == "cdp"@,
{
    owned("cdp")
}

// ---------------------------------------------------------------------------
// Playbook
// ---------------------------------------------------------------------------

/// A complete playbook.
#[derive(Debug)]
pub struct Playbook {
    pub name: String,
    pub description: String,
    pub platform: String,
    pub engine: String,
    pub version: u32,
    pub on_error: Option<OnError>,
    /// Declared variables, each name once.
    pub variables: Vec<(String, VariableDef)>,
    pub steps: Vec<PlaybookStep>,
}

/// No variable name is declared twice, as in a map of variables.
pub open spec fn names_distinct(vars: Seq<(String, VariableDef)>) -> bool {
    forall|i: int, j: int| 0 <= i < j < vars.len() ==> #[trigger] vars[i].0@ != #[trigger] vars[j].0@
}

/// No name occurs twice in `ns`.
pub open spec fn no_repeats(ns: Seq<Seq<char>>) -> bool {
    forall|i: int, j: int| 0 <= i < j < ns.len() ==> #[trigger] ns[i] != #[trigger] ns[j]
}

/// Some entry of `supplied` has key `k`.
pub open spec fn supplied_has(supplied: Seq<(String, String)>, k: Seq<char>) -> bool {
    exists|i: int| 0 <= i < supplied.len() && #[trigger] supplied[i].0@ == k
}

/// A declared variable the caller must supply: required and without default.
pub open spec fn needs_value(d: VariableDef) -> bool {
    d.required && d.default is None
}

/// Names of the variables that must be supplied but are not, in declaration order.
pub open spec fn missing_variables(
    vars: Seq<(String, VariableDef)>,
    supplied: Seq<(String, String)>,
) -> Seq<Seq<char>>
    decreases vars.len(),
{
    if vars.len() == 0 {
        Seq::empty()
    } else {
        let rest = missing_variables(vars.drop_last(), supplied);
        let last = vars.last();
        if needs_value(last.1) && !supplied_has(supplied, last.0@) {
            rest.push(last.0@)
        } else {
            rest
        }
    }
}

/// Whether some entry of `supplied` has key `k`.
fn supplied_contains(supplied: &Vec<(String, String)>, k: &str) -> (b: bool)
    ensures
        b == supplied_has(supplied@, k@),
{
    let r = find_key(supplied, k);
    proof {
        lemma_key_index(entries_view(supplied@), k@);
        assert forall|i: int| 0 <= i < supplied@.len() implies entries_view(supplied@)[i].0
            == #[trigger] supplied@[i].0@ by {}
    }
    r.is_some()
}

/// Every name reported missing is a declared name.
pub proof fn lemma_missing_declared(vars: Seq<(String, VariableDef)>, supplied: Seq<(String, String)>, k: int)
    requires
        0 <= k < missing_variables(vars, supplied).len(),
    ensures
        exists|j: int| 0 <= j < vars.len() && #[trigger] vars[j].0@ == missing_variables(vars, supplied)[k],
    decreases vars.len(),
{
    let rest = missing_variables(vars.drop_last(), supplied);
    if k < rest.len() {
        lemma_missing_declared(vars.drop_last(), supplied, k);
        let j = choose|j: int| 0 <= j < vars.drop_last().len() && #[trigger] vars.drop_last()[j].0@ == rest[k];
        assert(vars[j] == vars.drop_last()[j]);
    } else {
        assert(vars[vars.len() - 1].0@ == missing_variables(vars, supplied)[k]);
    }
}

/// Only variables the caller must supply and did not are reported: every
/// reported name is declared by a variable that is required and has no
/// default, and no entry of `supplied` has that name. So a variable with a
/// default is never reported missing (when each name is declared once).
pub proof fn lemma_missing_needs_value(vars: Seq<(String, VariableDef)>, supplied: Seq<(String, String)>, k: int)
    requires
        0 <= k < missing_variables(vars, supplied).len(),
    ensures
        exists|j: int| 0 <= j < vars.len() && #[trigger] vars[j].0@ == missing_variables(vars, supplied)[k]
            && vars[j].1.required && vars[j].1.default is None,
        forall|q: int| 0 <= q < supplied.len() ==> #[trigger] supplied[q].0@ != missing_variables(vars, supplied)[k],
    decreases vars.len(),
{
    let rest = missing_variables(vars.drop_last(), supplied);
    if k < rest.len() {
        lemma_missing_needs_value(vars.drop_last(), supplied, k);
        let j = choose|j: int| 0 <= j < vars.drop_last().len() && #[trigger] vars.drop_last()[j].0@ == rest[k]
            && vars.drop_last()[j].1.required && vars.drop_last()[j].1.default is None;
        assert(vars[j] == vars.drop_last()[j]);
    } else {
        let j = vars.len() - 1;
        assert(vars[j].0@ == missing_variables(vars, supplied)[k]);
        assert forall|q: int| 0 <= q < supplied.len() implies #[trigger] supplied[q].0@ != missing_variables(vars, supplied)[k] by {
            if supplied[q].0@ == missing_variables(vars, supplied)[k] {
                assert(supplied_has(supplied, vars.last().0@));
            }
        }
    }
}

/// Every required variable without a default that the caller does not
/// supply is reported missing.
pub proof fn lemma_unsupplied_required_reported(vars: Seq<(String, VariableDef)>, supplied: Seq<(String, String)>, j: int)
    requires
        0 <= j < vars.len(),
        vars[j].1.required,
        vars[j].1.default is None,
        forall|q: int| 0 <= q < supplied.len() ==> #[trigger] supplied[q].0@ != vars[j].0@,
    ensures
        missing_variables(vars, supplied).contains(vars[j].0@),
    decreases vars.len(),
{
    let m = missing_variables(vars, supplied);
    let rest = missing_variables(vars.drop_last(), supplied);
    if j == vars.len() - 1 {
        assert(!supplied_has(supplied, vars.last().0@));
        assert(m[m.len() - 1] == vars[j].0@);
    } else {
        assert(vars.drop_last()[j] == vars[j]);
        lemma_unsupplied_required_reported(vars.drop_last(), supplied, j);
        let k = choose|k: int| 0 <= k < rest.len() && rest[k] == vars[j].0@;
        assert(m[k] == rest[k]);
    }
}

/// A declared variable with a default is never reported missing, whatever
/// the caller supplies, when each variable is declared once.
pub proof fn lemma_default_never_missing(vars: Seq<(String, VariableDef)>, supplied: Seq<(String, String)>, j: int)
    requires
        names_distinct(vars),
        0 <= j < vars.len(),
        vars[j].1.default is Some,
    ensures
        !missing_variables(vars, supplied).contains(vars[j].0@),
{
    if missing_variables(vars, supplied).contains(vars[j].0@) {
        let k = choose|k: int| 0 <= k < missing_variables(vars, supplied).len()
            && missing_variables(vars, supplied)[k] == vars[j].0@;
        lemma_missing_needs_value(vars, supplied, k);
        let q = choose|q: int| 0 <= q < vars.len() && #[trigger] vars[q].0@ == missing_variables(vars, supplied)[k]
            && vars[q].1.required && vars[q].1.default is None;
        if q < j {
            assert(vars[q].0@ != vars[j].0@);
        } else if q > j {
            assert(vars[j].0@ != vars[q].0@);
        }
    }
}

/// With each variable declared once, as a map declares them, no name is
/// reported missing twice.
pub proof fn lemma_missing_once(vars: Seq<(String, VariableDef)>, supplied: Seq<(String, String)>)
    requires
        names_distinct(vars),
    ensures
        no_repeats(missing_variables(vars, supplied)),
    decreases vars.len(),
{
    if vars.len() > 0 {
        let p = vars.drop_last();
        assert(names_distinct(p)) by {
            assert forall|i: int, j: int| 0 <= i < j < p.len() implies #[trigger] p[i].0@ != #[trigger] p[j].0@ by {
                assert(p[i] == vars[i] && p[j] == vars[j]);
            }
        }
        lemma_missing_once(p, supplied);
        let rest = missing_variables(p, supplied);
        let m = missing_variables(vars, supplied);
        if m.len() > rest.len() {
            assert forall|i: int, j: int| 0 <= i < j < m.len() implies #[trigger] m[i] != #[trigger] m[j] by {
                if j == m.len() - 1 {
                    lemma_missing_declared(p, supplied, i);
                    let q = choose|q: int| 0 <= q < p.len() && #[trigger] p[q].0@ == rest[i];
                    assert(vars[q] == p[q]);
                    assert(vars[q].0@ != vars[vars.len() - 1].0@);
                } else {
                    assert(m[i] == rest[i] && m[j] == rest[j]);
                }
            }
        }
    }
}

impl Playbook {
    /// Every variable is declared once.
    pub open spec fn wf(&self) -> bool {
        names_distinct(self.variables@)
    }

    /// Names of the required variables without default that `supplied`
    /// lacks, in declaration order; each once when the playbook is
    /// well-formed.
    pub fn validate_variables(&self, supplied: &Vec<(String, String)>) -> (r: Vec<String>)
        ensures
            r@.map_values(|s: String| s@) == missing_variables(self.variables@, supplied@),
            self.wf() ==> no_repeats(r@.map_values(|s: String| s@)),
    {
        let mut r: Vec<String> = Vec::new();
        let mut i: usize = 0;
        while i < self.variables.len()
            invariant
                i <= self.variables.len(),
                r@.map_values(|s: String| s@) == missing_variables(
                    self.variables@.take(i as int),
                    supplied@,
                ),
            decreases self.variables.len() - i,
        {
            let ghost before = r@.map_values(|s: String| s@);
            assert(self.variables@.take(i + 1).drop_last() =~= self.variables@.take(i as int));
            let name = &self.variables[i].0;
            let def = &self.variables[i].1;
            if def.required && def.default.is_none() && !supplied_contains(supplied, name.as_str()) {
                r.push(name.clone());
                assert(r@.map_values(|s: String| s@) =~= before.push(name@));
            }
            i += 1;
        }
        assert(self.variables@.take(i as int) =~= self.variables@);
        proof {
            if self.wf() {
                lemma_missing_once(self.variables@, supplied@);
            }
        }
        r
    }
}

// ---------------------------------------------------------------------------
// Step results
// ---------------------------------------------------------------------------

/// Result of executing a single playbook step.
#[derive(Debug, Clone)]
pub enum StepResult {
    /// Step completed successfully.
    Done,
    /// Step completed and produced a value to store.
    Value(String),
    /// Step was skipped.
    Skipped,
    /// Step failed with an error message.
    Failed(String),
}

// ---------------------------------------------------------------------------
// Placeholder resolution
// ---------------------------------------------------------------------------

/// The placeholder text `{{k}}`.
pub open spec fn placeholder(k: Seq<char>) -> Seq<char> {
    seq!['{', '{'] + k + seq!['}', '}']
}

/// `t` after replacing, entry by entry in order, each key's placeholder by its value.
pub open spec fn fold_replace(t: Seq<char>, es: Seq<(Seq<char>, Seq<char>)>) -> Seq<char>
    decreases es.len(),
{
    if es.len() == 0 {
        t
    } else {
        replace_all(fold_replace(t, es.drop_last()), placeholder(es.last().0), es.last().1)
    }
}

/// Full resolution of `t`: runtime variables first, then static ones, then
/// the built-ins `{{timestamp}}` (with `ts`) and `{{_step}}` (with `step`).
pub open spec fn resolve_spec(
    runtime: Seq<(Seq<char>, Seq<char>)>,
    vars: Seq<(Seq<char>, Seq<char>)>,
    step: nat,
    t: Seq<char>,
    ts: Seq<char>,
) -> Seq<char> {
    let a = fold_replace(fold_replace(t, runtime), vars);
    let b = replace_all(a, placeholder("timestamp"@), ts);
    replace_all(b, placeholder("_step"@), decimal(step))
}

/// Neither `{` nor `}` occurs in `k`.
pub open spec fn brace_free(k: Seq<char>) -> bool {
    !k.contains('{') && !k.contains('}')
}

/// Every key of `es` is brace-free.
pub open spec fn keys_brace_free(es: Seq<(Seq<char>, Seq<char>)>) -> bool {
    forall|i: int| 0 <= i < es.len() ==> brace_free(#[trigger] es[i].0)
}

/// The placeholder text for `k` as characters.
fn placeholder_chars(k: &str) -> (v: Vec<char>)
    ensures
        v@ == placeholder(k@),
{
    let mut v: Vec<char> = Vec::new();
    v.push('{');
    v.push('{');
    let kc = chars_of(k);
    let mut i: usize = 0;
    while i < kc.len()
        invariant
            i <= kc.len(),
            v@ == seq!['{', '{'] + kc@.take(i as int),
        decreases kc.len() - i,
    {
        v.push(kc[i]);
        i += 1;
        assert(kc@.take(i as int) =~= kc@.take(i - 1).push(kc@[i - 1]));
        assert(v@ =~= seq!['{', '{'] + kc@.take(i as int));
    }
    assert(kc@.take(i as int) =~= kc@);
    v.push('}');
    v.push('}');
    assert(v@ =~= placeholder(k@));
    v
}

/// Replace each entry's placeholder by its value, entry by entry.
fn apply_entries(t: Vec<char>, es: &Vec<(String, String)>) -> (r: Vec<char>)
    ensures
        r@ == fold_replace(t@, entries_view(es@)),
{
    let ghost ev = entries_view(es@);
    let mut s = t;
    let ghost t0 = s@;
    let mut i: usize = 0;
    assert(ev.take(0) =~= Seq::<(Seq<char>, Seq<char>)>::empty());
    while i < es.len()
        invariant
            i <= es.len(),
            ev == entries_view(es@),
            s@ == fold_replace(t0, ev.take(i as int)),
        decreases es.len() - i,
    {
        let p = placeholder_chars(es[i].0.as_str());
        let v = chars_of(es[i].1.as_str());
        s = replace_chars(&s, &p, &v);
        proof {
            assert(ev.take(i + 1).drop_last() =~= ev.take(i as int));
            assert(ev.take(i + 1).last() == ev[i as int]);
            assert(ev[i as int] == (es@[i as int].0@, es@[i as int].1@));
        }
        i += 1;
    }
    assert(ev.take(i as int) =~= ev);
    s
}

/// The shape of a compact UTC timestamp `YYYYMMDDTHHMMSSZ`: a year of at
/// least four digits (chrono pads to four and puts a sign before years
/// outside 0 to 9999), then month, day, `T`, hour, minute, second of two
/// digits each, and `Z`.
pub open spec fn compact_utc_shape(ts: Seq<char>) -> bool {
    &&& ts.len() >= 16
    &&& ts[ts.len() - 1] == 'Z'
    &&& ts[ts.len() - 8] == 'T'
    &&& forall|i: int| ts.len() - 16 <= i < ts.len() - 1 && i != ts.len() - 8 ==> '0' <= #[trigger] ts[i] && ts[i] <= '9'
}

/// `chrono::Utc::now().format("%Y%m%dT%H%M%SZ")`: the current UTC time in
/// compact ISO-8601 form. Which time it shows depends on the clock; its
/// shape is that of every `%Y%m%dT%H%M%SZ` text: the year's last four
/// characters are digits whatever its sign or length, and the fields after
/// it have two zero-padded digits each.
#[verifier::external_body]
fn utc_timestamp_compact() -> (r: String)
    ensures
        compact_utc_shape(r@),
{
    chrono::Utc::now().format("%Y%m%dT%H%M%SZ").to_string()
}

// ---------------------------------------------------------------------------
// Runner
// ---------------------------------------------------------------------------

/// Drives execution of a parsed playbook: variable resolution and step
/// progress. It does not perform browser actions.
pub struct PlaybookRunner {
    playbook: Playbook,
    /// Static variables: declared defaults overridden by caller values.
    variables: Vec<(String, String)>,
    /// Runtime variables set by steps.
    runtime_vars: Vec<(String, String)>,
    /// Index of the next step to execute.
    current_step: usize,
    /// Results of completed steps with their positions.
    results: Vec<(usize, StepResult)>,
}

/// Static variables of a runner created from `vars` declarations and caller
/// values `supplied`: each declared default, then each supplied value.
pub open spec fn merged_variables(
    vars: Seq<(String, VariableDef)>,
    supplied: Seq<(Seq<char>, Seq<char>)>,
) -> Seq<(Seq<char>, Seq<char>)> {
    insert_all(defaults_of(vars), supplied)
}

/// The declared defaults, bound in declaration order.
pub open spec fn defaults_of(vars: Seq<(String, VariableDef)>) -> Seq<(Seq<char>, Seq<char>)>
    decreases vars.len(),
{
    if vars.len() == 0 {
        Seq::empty()
    } else {
        let rest = defaults_of(vars.drop_last());
        match vars.last().1.default {
            Some(d) => assoc_insert_spec(rest, vars.last().0@, d@),
            None => rest,
        }
    }
}

/// `base` with every entry of `es` bound in order.
pub open spec fn insert_all(
    base: Seq<(Seq<char>, Seq<char>)>,
    es: Seq<(Seq<char>, Seq<char>)>,
) -> Seq<(Seq<char>, Seq<char>)>
    decreases es.len(),
{
    if es.len() == 0 {
        base
    } else {
        assoc_insert_spec(insert_all(base, es.drop_last()), es.last().0, es.last().1)
    }
}

proof fn lemma_insert_all_lookup(base: Seq<(Seq<char>, Seq<char>)>, es: Seq<(Seq<char>, Seq<char>)>, i: int)
    requires
        keys_unique(base),
        0 <= i < es.len(),
        forall|j: int| 0 <= j < es.len() && j != i ==> #[trigger] es[j].0 != es[i].0,
    ensures
        lookup(insert_all(base, es), es[i].0) == Some(es[i].1),
    decreases es.len(),
{
    lemma_insert_all_unique(base, es.drop_last());
    lemma_insert(insert_all(base, es.drop_last()), es.last().0, es.last().1);
    if i < es.len() - 1 {
        let p = es.drop_last();
        assert forall|j: int| 0 <= j < p.len() && j != i implies #[trigger] p[j].0 != p[i].0 by {
            assert(p[j] == es[j] && p[i] == es[i]);
        }
        lemma_insert_all_lookup(base, p, i);
        assert(es[es.len() - 1].0 != es[i].0);
        assert(p[i] == es[i]);
    }
}

/// A value the caller supplies (under a name supplied once) is the value
/// the runner binds to that name, whatever default the playbook declares
/// for it: caller values override defaults.
pub proof fn lemma_caller_value_wins(
    vars: Seq<(String, VariableDef)>,
    supplied: Seq<(Seq<char>, Seq<char>)>,
    i: int,
)
    requires
        0 <= i < supplied.len(),
        forall|j: int| 0 <= j < supplied.len() && j != i ==> #[trigger] supplied[j].0 != supplied[i].0,
    ensures
        lookup(merged_variables(vars, supplied), supplied[i].0) == Some(supplied[i].1),
{
    lemma_defaults_unique(vars);
    lemma_insert_all_lookup(defaults_of(vars), supplied, i);
}

/// A declared default is bound when the caller supplies no value of that
/// name (each name declared once).
pub proof fn lemma_default_used(vars: Seq<(String, VariableDef)>, supplied: Seq<(Seq<char>, Seq<char>)>, j: int)
    requires
        names_distinct(vars),
        0 <= j < vars.len(),
        vars[j].1.default is Some,
        forall|q: int| 0 <= q < supplied.len() ==> #[trigger] supplied[q].0 != vars[j].0@,
    ensures
        lookup(merged_variables(vars, supplied), vars[j].0@) == Some(vars[j].1.default->0@),
{
    lemma_defaults_lookup(vars, j);
    lemma_defaults_unique(vars);
    lemma_insert_all_other(defaults_of(vars), supplied, vars[j].0@);
}

proof fn lemma_defaults_lookup(vars: Seq<(String, VariableDef)>, j: int)
    requires
        names_distinct(vars),
        0 <= j < vars.len(),
        vars[j].1.default is Some,
    ensures
        lookup(defaults_of(vars), vars[j].0@) == Some(vars[j].1.default->0@),
    decreases vars.len(),
{
    lemma_defaults_unique(vars.drop_last());
    let p = vars.drop_last();
    if j < vars.len() - 1 {
        assert(names_distinct(p)) by {
            assert forall|a: int, b: int| 0 <= a < b < p.len() implies #[trigger] p[a].0@ != #[trigger] p[b].0@ by {
                assert(p[a] == vars[a] && p[b] == vars[b]);
            }
        }
        assert(p[j] == vars[j]);
        lemma_defaults_lookup(p, j);
        if let Some(d) = vars.last().1.default {
            lemma_insert(defaults_of(p), vars.last().0@, d@);
            assert(vars[vars.len() - 1].0@ != vars[j].0@);
        }
    } else {
        lemma_insert(defaults_of(p), vars.last().0@, vars.last().1.default->0@);
    }
}

proof fn lemma_insert_all_other(base: Seq<(Seq<char>, Seq<char>)>, es: Seq<(Seq<char>, Seq<char>)>, k: Seq<char>)
    requires
        keys_unique(base),
        forall|q: int| 0 <= q < es.len() ==> #[trigger] es[q].0 != k,
    ensures
        lookup(insert_all(base, es), k) == lookup(base, k),
    decreases es.len(),
{
    if es.len() > 0 {
        let p = es.drop_last();
        assert forall|q: int| 0 <= q < p.len() implies #[trigger] p[q].0 != k by {
            assert(p[q] == es[q]);
        }
        lemma_insert_all_other(base, p, k);
        lemma_insert_all_unique(base, p);
        lemma_insert(insert_all(base, p), es.last().0, es.last().1);
        assert(es[es.len() - 1].0 != k);
    }
}

proof fn lemma_defaults_unique(vars: Seq<(String, VariableDef)>)
    ensures
        keys_unique(defaults_of(vars)),
    decreases vars.len(),
{
    if vars.len() > 0 {
        lemma_defaults_unique(vars.drop_last());
        if let Some(d) = vars.last().1.default {
            lemma_insert(defaults_of(vars.drop_last()), vars.last().0@, d@);
        }
    }
}

proof fn lemma_insert_all_unique(
    base: Seq<(Seq<char>, Seq<char>)>,
    es: Seq<(Seq<char>, Seq<char>)>,
)
    requires
        keys_unique(base),
    ensures
        keys_unique(insert_all(base, es)),
    decreases es.len(),
{
    if es.len() > 0 {
        lemma_insert_all_unique(base, es.drop_last());
        lemma_insert(insert_all(base, es.drop_last()), es.last().0, es.last().1);
    }
}

impl PlaybookRunner {
    /// Runner state is consistent: no variable name is bound twice.
    pub closed spec fn wf(&self) -> bool {
        &&& keys_unique(entries_view(self.variables@))
        &&& keys_unique(entries_view(self.runtime_vars@))
    }

    /// The step cursor.
    pub closed spec fn cursor(&self) -> nat {
        self.current_step as nat
    }

    /// The playbook being run.
    pub closed spec fn spec_playbook(&self) -> Playbook {
        self.playbook
    }

    /// Static variables, as character sequences.
    pub closed spec fn static_vars(&self) -> Seq<(Seq<char>, Seq<char>)> {
        entries_view(self.variables@)
    }

    /// Runtime variables, as character sequences.
    pub closed spec fn runtime(&self) -> Seq<(Seq<char>, Seq<char>)> {
        entries_view(self.runtime_vars@)
    }

    /// Recorded step results, in the order they were reported.
    pub closed spec fn recorded(&self) -> Seq<(usize, StepResult)> {
        self.results@
    }

    /// Create a runner: declared defaults are bound first, then every
    /// caller-supplied value (a caller value overrides a default). Missing
    /// required variables are not rejected here.
    pub fn new(playbook: Playbook, variables: Vec<(String, String)>) -> (r: Self)
        ensures
            r.wf(),
            r.static_vars() == merged_variables(playbook.variables@, entries_view(variables@)),
            r.runtime() == Seq::<(Seq<char>, Seq<char>)>::empty(),
            r.cursor() == 0,
            r.spec_playbook() == playbook,
            r.recorded() == Seq::<(usize, StepResult)>::empty(),
    {
        let mut merged: Vec<(String, String)> = Vec::new();
        let mut i: usize = 0;
        assert(playbook.variables@.take(0) =~= Seq::<(String, VariableDef)>::empty());
        assert(entries_view(merged@) =~= Seq::<(Seq<char>, Seq<char>)>::empty());
        while i < playbook.variables.len()
            invariant
                i <= playbook.variables.len(),
                entries_view(merged@) == defaults_of(playbook.variables@.take(i as int)),
            decreases playbook.variables.len() - i,
        {
            assert(playbook.variables@.take(i + 1).drop_last() =~= playbook.variables@.take(
                i as int,
            ));
            match &playbook.variables[i].1.default {
                Some(d) => {
                    assoc_insert(&mut merged, playbook.variables[i].0.clone(), d.clone());
                },
                None => {},
            }
            i += 1;
        }
        assert(playbook.variables@.take(i as int) =~= playbook.variables@);
        proof { lemma_defaults_unique(playbook.variables@); }
        let ghost base = entries_view(merged@);
        let ghost sv = entries_view(variables@);
        let mut j: usize = 0;
        assert(sv.take(0) =~= Seq::<(Seq<char>, Seq<char>)>::empty());
        while j < variables.len()
            invariant
                j <= variables.len(),
                sv == entries_view(variables@),
                entries_view(merged@) == insert_all(base, sv.take(j as int)),
            decreases variables.len() - j,
        {
            assert(sv.take(j + 1).drop_last() =~= sv.take(j as int));
            assert(sv.take(j + 1).last() == (variables@[j as int].0@, variables@[j as int].1@));
            assoc_insert(&mut merged, variables[j].0.clone(), variables[j].1.clone());
            j += 1;
        }
        assert(sv.take(j as int) =~= sv);
        proof { lemma_insert_all_unique(base, sv); }
        let runtime_vars: Vec<(String, String)> = Vec::new();
        assert(entries_view(runtime_vars@) =~= Seq::<(Seq<char>, Seq<char>)>::empty());
        PlaybookRunner {
            playbook,
            variables: merged,
            runtime_vars,
            current_step: 0,
            results: Vec::new(),
        }
    }

    /// Replace `{{name}}` placeholders with runtime variables, then static
    /// variables, then `{{timestamp}}` with `timestamp` and `{{_step}}` with
    /// the step cursor.
    pub fn resolve_variable_at(&self, template: &str, timestamp: &str) -> (r: String)
        ensures
            r@ == resolve_spec(self.runtime(), self.static_vars(), self.cursor(), template@, timestamp@),
    {
        let t = chars_of(template);
        let a = apply_entries(t, &self.runtime_vars);
        let b = apply_entries(a, &self.variables);
        self.finish(b, timestamp)
    }

    fn finish(&self, b: Vec<char>, timestamp: &str) -> (r: String)
        ensures
            r@ == replace_all(
                replace_all(b@, placeholder("timestamp"@), timestamp@),
                placeholder("_step"@),
                decimal(self.cursor()),
            ),
    {
        let tp = placeholder_chars("timestamp");
        let tv = chars_of(timestamp);
        let c = replace_chars(&b, &tp, &tv);
        let sp = placeholder_chars("_step");
        let step_text = decimal_string(self.current_step as u64);
        let sv = chars_of(step_text.as_str());
        let d = replace_chars(&c, &sp, &sv);
        string_of(&d)
    }

    /// Replace `{{name}}` placeholders: runtime variables take priority over
    /// static ones; `{{timestamp}}` becomes the current UTC time (read only
    /// when the text still holds that placeholder) and `{{_step}}` the step
    /// cursor. Unknown placeholders are left as they are.
    pub fn resolve_variable(&self, template: &str) -> (r: String)
        ensures
            exists|ts: Seq<char>| #![trigger compact_utc_shape(ts)]
                compact_utc_shape(ts)
                && r@ == resolve_spec(self.runtime(), self.static_vars(), self.cursor(), template@, ts),
    {
        let t = chars_of(template);
        let a = apply_entries(t, &self.runtime_vars);
        let b = apply_entries(a, &self.variables);
        let tp = placeholder_chars("timestamp");
        let ts = if crate::text::contains_chars(&b, &tp) {
            utc_timestamp_compact()
        } else {
            String::new()
        };
        let r = self.finish(b, ts.as_str());
        assert(r@ == resolve_spec(self.runtime(), self.static_vars(), self.cursor(), template@, ts@));
        proof {
            if !compact_utc_shape(ts@) {
                let w = seq!['0', '0', '0', '0', '0', '1', '0', '1', 'T', '0', '0', '0', '0', '0', '0', 'Z'];
                assert(compact_utc_shape(w));
                assert(!contains_seq(b@, tp@));
                assert forall|i: int| !occurs_at(b@, tp@, i) by {}
                lemma_replace_absent(b@, tp@, ts@);
                lemma_replace_absent(b@, tp@, w);
                assert(resolve_spec(self.runtime(), self.static_vars(), self.cursor(), template@, w) == r@);
            }
        }
        r
    }

    /// The next step to execute, or `None` once every step has been done.
    pub fn next_step(&self) -> (r: Option<&PlaybookStep>)
        ensures
            r == if self.cursor() < self.spec_playbook().steps.len() {
                Some(&self.spec_playbook().steps@[self.cursor() as int])
            } else {
                None
            },
    {
        if self.current_step < self.playbook.steps.len() {
            Some(&self.playbook.steps[self.current_step])
        } else {
            None
        }
    }

    /// Record the result of the step at `step_index`. A `Value` result is
    /// stored under `runtime_key` when one is given. The cursor advances by
    /// one exactly when `step_index` is the current step.
    pub fn mark_complete(&mut self, step_index: usize, result: StepResult, runtime_key: Option<&str>)
        requires
            old(self).wf(),
            old(self).cursor() < usize::MAX,
        ensures
            final(self).wf(),
            final(self).spec_playbook() == old(self).spec_playbook(),
            final(self).static_vars() == old(self).static_vars(),
            final(self).runtime() == match (result, runtime_key) {
                (StepResult::Value(v), Some(k)) => assoc_insert_spec(old(self).runtime(), k@, v@),
                _ => old(self).runtime(),
            },
            final(self).recorded() == old(self).recorded().push((step_index, result)),
            final(self).cursor() == old(self).cursor() + if old(self).cursor() == step_index {
                1int
            } else {
                0int
            },
    {
        if let StepResult::Value(val) = &result {
            if let Some(key) = runtime_key {
                proof { lemma_insert(self.runtime(), key@, val@); }
                assoc_insert(&mut self.runtime_vars, owned(key), val.clone());
            }
        }
        self.results.push((step_index, result));
        if self.current_step == step_index {
            self.current_step += 1;
        }
    }

    /// Bind a runtime variable (e.g. from an `extract` or `eval_js` step).
    pub fn set_runtime_var(&mut self, key: String, value: String)
        requires
            old(self).wf(),
        ensures
            final(self).wf(),
            final(self).runtime() == assoc_insert_spec(old(self).runtime(), key@, value@),
            final(self).static_vars() == old(self).static_vars(),
            final(self).cursor() == old(self).cursor(),
            final(self).spec_playbook() == old(self).spec_playbook(),
            final(self).recorded() == old(self).recorded(),
    {
        proof { lemma_insert(self.runtime(), key@, value@); }
        assoc_insert(&mut self.runtime_vars, key, value);
    }

    /// Whether every top-level step has been completed.
    pub fn is_complete(&self) -> (b: bool)
        ensures
            b == (self.cursor() >= self.spec_playbook().steps.len()),
    {
        self.current_step >= self.playbook.steps.len()
    }

    /// `(completed, total)` step counts.
    pub fn progress(&self) -> (r: (usize, usize))
        ensures
            r.0 == self.cursor(),
            r.1 == self.spec_playbook().steps.len(),
    {
        (self.current_step, self.playbook.steps.len())
    }

    /// The underlying playbook.
    pub fn playbook(&self) -> (r: &Playbook)
        ensures
            *r == self.spec_playbook(),
    {
        &self.playbook
    }

    /// The static variables (defaults merged with caller values).
    pub fn variables(&self) -> (r: &Vec<(String, String)>)
        ensures
            entries_view(r@) == self.static_vars(),
    {
        &self.variables
    }

    /// The runtime variables.
    pub fn runtime_vars(&self) -> (r: &Vec<(String, String)>)
        ensures
            entries_view(r@) == self.runtime(),
    {
        &self.runtime_vars
    }
}

// ---------------------------------------------------------------------------
// Laws
// ---------------------------------------------------------------------------

proof fn lemma_placeholder_distinct(k: Seq<char>, k2: Seq<char>)
    requires
        brace_free(k),
        brace_free(k2),
        k != k2,
    ensures
        forall|i: int| !occurs_at(placeholder(k), placeholder(k2), i),
{
    let s = placeholder(k);
    let p = placeholder(k2);
    assert forall|i: int| !occurs_at(s, p, i) by {
        if occurs_at(s, p, i) {
            assert(s.subrange(i, i + p.len())[0] == s[i]);
            assert(s.subrange(i, i + p.len())[1] == s[i + 1]);
            assert(p[0] == '{' && p[1] == '{');
            if i >= 2 && i < 2 + k.len() {
                assert(s[i] == k[i - 2]);
                assert(k.contains(k[i - 2]));
            }
            if i == 1 {
                if k.len() > 0 {
                    assert(s[2] == k[0]);
                    assert(k.contains(k[0]));
                } else {
                    assert(s[2] == '}');
                }
            }
            if i >= 2 + k.len() {
                assert(s[i] == '}');
            }
            assert(i == 0);
            if k2.len() < k.len() {
                assert(s.subrange(0, p.len() as int)[(2 + k2.len()) as int] == s[(2 + k2.len()) as int]);
                assert(s[(2 + k2.len()) as int] == k[k2.len() as int]);
                assert(p[(2 + k2.len()) as int] == '}');
                assert(k.contains(k[k2.len() as int]));
            } else if k2.len() > k.len() {
                assert(s.subrange(0, p.len() as int)[(2 + k.len()) as int] == s[(2 + k.len()) as int]);
                assert(s[(2 + k.len()) as int] == '}');
                assert(p[(2 + k.len()) as int] == k2[k.len() as int]);
                assert(k2.contains(k2[k.len() as int]));
            } else {
                assert forall|j: int| 0 <= j < k.len() implies k[j] == k2[j] by {
                    assert(s.subrange(0, p.len() as int)[2 + j] == s[2 + j]);
                    assert(s[2 + j] == k[j]);
                    assert(p[2 + j] == k2[j]);
                }
                assert(k =~= k2);
            }
        }
    }
}

proof fn lemma_fold_no_brace(t: Seq<char>, es: Seq<(Seq<char>, Seq<char>)>)
    requires
        !t.contains('{'),
    ensures
        fold_replace(t, es) == t,
    decreases es.len(),
{
    if es.len() > 0 {
        lemma_fold_no_brace(t, es.drop_last());
        let p = placeholder(es.last().0);
        assert(p[0] == '{');
        lemma_absent_first_char(t, p);
        lemma_replace_absent(t, p, es.last().1);
    }
}

proof fn lemma_fold_other_placeholder(k: Seq<char>, es: Seq<(Seq<char>, Seq<char>)>)
    requires
        brace_free(k),
        keys_brace_free(es),
        forall|i: int| 0 <= i < es.len() ==> es[i].0 != k,
    ensures
        fold_replace(placeholder(k), es) == placeholder(k),
    decreases es.len(),
{
    if es.len() > 0 {
        assert(keys_brace_free(es.drop_last()));
        lemma_fold_other_placeholder(k, es.drop_last());
        assert(es.last() == es[es.len() - 1]);
        lemma_placeholder_distinct(k, es.last().0);
        lemma_replace_absent(placeholder(k), placeholder(es.last().0), es.last().1);
    }
}

proof fn lemma_fold_hits_key(k: Seq<char>, v: Seq<char>, es: Seq<(Seq<char>, Seq<char>)>)
    requires
        brace_free(k),
        !v.contains('{'),
        keys_brace_free(es),
        keys_unique(es),
        lookup(es, k) == Some(v),
    ensures
        fold_replace(placeholder(k), es) == v,
    decreases es.len(),
{
    lemma_key_index(es, k);
    let i = key_index(es, k)->0;
    if i == es.len() - 1 {
        let front = es.drop_last();
        assert forall|j: int| 0 <= j < front.len() implies front[j].0 != k by {
            assert(front[j] == es[j]);
        }
        assert(keys_brace_free(front));
        lemma_fold_other_placeholder(k, front);
        let s = placeholder(k);
        assert(s.subrange(0, s.len() as int) =~= s);
        assert(s.subrange(s.len() as int, s.len() as int) =~= Seq::<char>::empty());
        assert(replace_all(s, s, v) == v + replace_all(Seq::<char>::empty(), s, v));
        assert(v + Seq::<char>::empty() =~= v);
    } else {
        let front = es.drop_last();
        assert(keys_brace_free(front));
        assert(keys_unique(front));
        assert(front[i] == es[i]);
        lemma_key_index(front, k);
        match key_index(front, k) {
            Some(j) => {
                assert(front[j] == es[j]);
                assert(j == i);
            },
            None => {},
        }
        lemma_fold_hits_key(k, v, front);
        lemma_absent_first_char(v, placeholder(es.last().0));
        lemma_replace_absent(v, placeholder(es.last().0), es.last().1);
    }
}

/// A runtime variable shadows everything else: when every variable name is
/// free of braces, resolving the bare placeholder of a runtime variable
/// whose value holds no `{` gives exactly that value, whatever the static
/// variables, the step and the clock.
pub proof fn lemma_runtime_var_wins(
    runtime: Seq<(Seq<char>, Seq<char>)>,
    vars: Seq<(Seq<char>, Seq<char>)>,
    step: nat,
    ts: Seq<char>,
    k: Seq<char>,
    v: Seq<char>,
)
    requires
        keys_unique(runtime),
        keys_brace_free(runtime),
        lookup(runtime, k) == Some(v),
        !v.contains('{'),
    ensures
        resolve_spec(runtime, vars, step, placeholder(k), ts) == v,
{
    lemma_key_index(runtime, k);
    let i = key_index(runtime, k)->0;
    assert(brace_free(runtime[i].0));
    lemma_fold_hits_key(k, v, runtime);
    lemma_fold_no_brace(v, vars);
    let tp = placeholder("timestamp"@);
    let sp = placeholder("_step"@);
    assert(tp[0] == '{');
    assert(sp[0] == '{');
    lemma_absent_first_char(v, tp);
    lemma_replace_absent(v, tp, ts);
    lemma_absent_first_char(v, sp);
    lemma_replace_absent(v, sp, decimal(step));
}

/// A static variable is used when no runtime variable has its name: with
/// brace-free names, resolving the bare placeholder of such a static
/// variable whose value holds no `{` gives that value.
pub proof fn lemma_static_var_used(
    runtime: Seq<(Seq<char>, Seq<char>)>,
    vars: Seq<(Seq<char>, Seq<char>)>,
    step: nat,
    ts: Seq<char>,
    k: Seq<char>,
    v: Seq<char>,
)
    requires
        brace_free(k),
        keys_brace_free(runtime),
        keys_brace_free(vars),
        keys_unique(vars),
        lookup(runtime, k) is None,
        lookup(vars, k) == Some(v),
        !v.contains('{'),
    ensures
        resolve_spec(runtime, vars, step, placeholder(k), ts) == v,
{
    lemma_key_index(runtime, k);
    lemma_fold_other_placeholder(k, runtime);
    lemma_fold_hits_key(k, v, vars);
    let tp = placeholder("timestamp"@);
    let sp = placeholder("_step"@);
    assert(tp[0] == '{');
    assert(sp[0] == '{');
    lemma_absent_first_char(v, tp);
    lemma_replace_absent(v, tp, ts);
    lemma_absent_first_char(v, sp);
    lemma_replace_absent(v, sp, decimal(step));
}

} // verus!
