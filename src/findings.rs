//! Building findings and recommendations, and reading them as plain values.

use vstd::prelude::*;
use crate::model::{Issue, Priority, Recommendation, Severity};
use crate::text::{append_str, decimal, push_decimal};

verus! {

/// A finding as plain values: severity, rule, message, file.
pub type IssueFact = (Severity, Seq<char>, Seq<char>, Seq<char>);

/// A recommendation as plain values: category, title, description,
/// priority.
pub type AdviceFact = (Seq<char>, Seq<char>, Seq<char>, Priority);

/// The plain values of a finding, which carries no position.
pub open spec fn issue_fact(i: Issue) -> IssueFact {
    (i.severity, i.rule@, i.message@, i.file_path@)
}

/// The finding has no line or column.
pub open spec fn unpositioned(i: Issue) -> bool {
    i.line is None && i.column is None
}

/// The plain values of a recommendation, which names no file.
pub open spec fn advice_fact(r: Recommendation) -> AdviceFact {
    (r.category@, r.title@, r.description@, r.priority)
}

/// The findings of `v` as plain values, each without a position.
pub open spec fn issue_facts(v: Seq<Issue>) -> Seq<IssueFact> {
    v.map_values(|i: Issue| issue_fact(i))
}

/// All findings of `v` are without a position.
pub open spec fn all_unpositioned(v: Seq<Issue>) -> bool {
    forall|k: int| 0 <= k < v.len() ==> unpositioned(#[trigger] v[k])
}

/// The recommendations of `v` as plain values.
pub open spec fn advice_facts(v: Seq<Recommendation>) -> Seq<AdviceFact> {
    v.map_values(|r: Recommendation| advice_fact(r))
}

/// All recommendations of `v` name no file.
pub open spec fn all_general(v: Seq<Recommendation>) -> bool {
    forall|k: int| 0 <= k < v.len() ==> (#[trigger] v[k]).file_path is None
}

/// A finding without a position.
pub fn new_issue(severity: Severity, rule: &str, message: String, file_path: String) -> (r: Issue)
    ensures
        issue_fact(r) == (severity, rule@, message@, file_path@),
        unpositioned(r),
{
    Issue { severity, rule: rule.to_owned(), message, file_path, line: None, column: None }
}

/// A recommendation that names no file.
pub fn new_advice(category: &str, title: &str, description: String, priority: Priority) -> (r: Recommendation)
    ensures
        advice_fact(r) == (category@, title@, description@, priority),
        r.file_path is None,
{
    Recommendation {
        category: category.to_owned(),
        title: title.to_owned(),
        description,
        priority,
        file_path: None,
    }
}

/// `a`, the decimal digits of `n`, then `b`.
pub fn text_with_number(a: &str, n: usize, b: &str) -> (r: String)
    ensures
        r@ == a@ + decimal(n as nat) + b@,
{
    let mut s = a.to_owned();
    push_decimal(&mut s, n as u64);
    append_str(&mut s, b);
    s
}

/// `a`, `t`, then `b`.
pub fn text_with(a: &str, t: &str, b: &str) -> (r: String)
    ensures
        r@ == a@ + t@ + b@,
{
    let mut s = a.to_owned();
    append_str(&mut s, t);
    append_str(&mut s, b);
    s
}

/// Appends the findings of `more` to `out`.
pub fn append_issues(out: &mut Vec<Issue>, more: Vec<Issue>)
    requires
        all_unpositioned(old(out)@),
        all_unpositioned(more@),
    ensures
        issue_facts(final(out)@) == issue_facts(old(out)@) + issue_facts(more@),
        all_unpositioned(final(out)@),
{
    let mut more = more;
    let ghost o = out@;
    let ghost m = more@;
    out.append(&mut more);
    assert(issue_facts(out@) =~= issue_facts(o) + issue_facts(m));
}

} // verus!
