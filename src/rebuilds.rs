//! Rebuild checks: a probe command per check, and the patterns in its error
//! output that show that a package needs rebuilding.
use vstd::prelude::*;

use crate::text::{chars_of, contains_chars, has_infix};

verus! {

/// A configured check.
#[derive(Debug, Clone)]
pub struct RebuildCheck {
    pub name: String,
    pub command: Vec<String>,
    pub error_patterns: Vec<String>,
    pub rebuild: String,
}

/// A check that found a problem, with the shell command that mends it.
#[derive(Debug, Clone)]
pub struct RebuildIssue {
    pub name: String,
    pub rebuild_command: String,
    pub selected: bool,
}

impl RebuildIssue {
    /// This issue with its selection flag set to `v`.
    pub open spec fn with_selected(self, v: bool) -> Self {
        RebuildIssue { selected: v, ..self }
    }
}

/// The check `c`, whose probe wrote `stderr` to its error output (`None`
/// where it could not run), finds a problem: it has a command, and one of its
/// patterns occurs in that output.
pub open spec fn finds_issue(c: RebuildCheck, stderr: Option<String>) -> bool {
    &&& c.command@.len() > 0
    &&& stderr is Some
    &&& exists|k: int|
        0 <= k < c.error_patterns@.len() && has_infix(
            stderr->Some_0@,
            #[trigger] c.error_patterns@[k]@,
        )
}

/// The probe output of the `i`th check: the `i`th of `outputs`, or none.
pub open spec fn output_at(outputs: Seq<Option<String>>, i: int) -> Option<String> {
    if 0 <= i < outputs.len() {
        outputs[i]
    } else {
        None
    }
}

/// The (name, rebuild command) of each check among `checks` that finds a
/// problem, in order.
pub open spec fn issues_of(checks: Seq<RebuildCheck>, outputs: Seq<Option<String>>) -> Seq<
    (Seq<char>, Seq<char>),
>
    decreases checks.len(),
{
    if checks.len() == 0 {
        Seq::empty()
    } else {
        let i = checks.len() - 1;
        let prev = issues_of(checks.drop_last(), outputs);
        if finds_issue(checks[i], output_at(outputs, i)) {
            prev.push((checks[i].name@, checks[i].rebuild@))
        } else {
            prev
        }
    }
}

fn has_rebuild_issue(check: &RebuildCheck, stderr: &Option<String>) -> (r: bool)
    ensures
        r == finds_issue(*check, *stderr),
{
    if check.command.len() == 0 {
        return false;
    }
    let out = match stderr {
        Some(s) => chars_of(s.as_str()),
        None => {
            return false;
        },
    };
    let mut k: usize = 0;
    while k < check.error_patterns.len()
        invariant
            check.command@.len() > 0,
            stderr is Some,
            out@ == stderr->Some_0@,
            k <= check.error_patterns@.len(),
            forall|j: int| 0 <= j < k ==> !has_infix(out@, #[trigger] check.error_patterns@[j]@),
        decreases check.error_patterns@.len() - k,
    {
        if contains_chars(&out, &chars_of(check.error_patterns[k].as_str())) {
            assert(has_infix(stderr->Some_0@, check.error_patterns@[k as int]@));
            return true;
        }
        k = k + 1;
    }
    false
}

/// The issues that the checks find, in their order, each not selected;
/// `outputs[i]` is the error output of the `i`th check's probe, or `None`
/// where it could not run (a check with no output given counts as not run).
pub fn check_rebuilds(checks: &Vec<RebuildCheck>, outputs: &Vec<Option<String>>) -> (r: Vec<
    RebuildIssue,
>)
    ensures
        r@.map_values(|i: RebuildIssue| (i.name@, i.rebuild_command@)) == issues_of(
            checks@,
            outputs@,
        ),
        forall|k: int| 0 <= k < r@.len() ==> !(#[trigger] r@[k]).selected,
{
    let mut r: Vec<RebuildIssue> = Vec::new();
    let mut i: usize = 0;
    while i < checks.len()
        invariant
            i <= checks@.len(),
            r@.map_values(|i: RebuildIssue| (i.name@, i.rebuild_command@)) == issues_of(
                checks@.subrange(0, i as int),
                outputs@,
            ),
            forall|k: int| 0 <= k < r@.len() ==> !(#[trigger] r@[k]).selected,
        decreases checks@.len() - i,
    {
        let ghost before = r@;
        assert(checks@.subrange(0, i + 1).drop_last() =~= checks@.subrange(0, i as int));
        let none: Option<String> = None;
        let out = if i < outputs.len() {
            &outputs[i]
        } else {
            &none
        };
        if has_rebuild_issue(&checks[i], out) {
            r.push(
                RebuildIssue {
                    name: checks[i].name.clone(),
                    rebuild_command: checks[i].rebuild.clone(),
                    selected: false,
                },
            );
            assert(r@.map_values(|i: RebuildIssue| (i.name@, i.rebuild_command@)) =~= before.map_values(
                |i: RebuildIssue| (i.name@, i.rebuild_command@),
            ).push((checks@[i as int].name@, checks@[i as int].rebuild@)));
        }
        i = i + 1;
    }
    assert(checks@.subrange(0, i as int) =~= checks@);
    r
}

} // verus!
