//! Rule checks on performance: stylesheets and templates, change detection,
//! module layout, cleanup, and bindings.

use vstd::prelude::*;
use crate::analysis::{contains_string, views};
use crate::component_rules::byte_len;
use crate::findings::{
    all_general, all_unpositioned, advice_facts, append_issues, issue_facts, new_advice, new_issue,
    text_with, text_with_number, AdviceFact, IssueFact,
};
use crate::model::{ChangeDetectionStrategy, Issue, NgComponent, NgProject, Priority, Recommendation, Severity};
use crate::text::{append_str, contains_str, contains_text, decimal, forward_slashes, lower_of, lowercase, normalize_path, push_decimal};

verus! {

/// Some of the names, in lower case, holds `a` or `b`.
pub open spec fn mentions(names: Seq<String>, a: Seq<char>, b: Seq<char>) -> bool {
    exists|i: int|
        0 <= i < names.len() && (contains_text(lower_of((#[trigger] names[i])@), a) || contains_text(
            lower_of(names[i]@),
            b,
        ))
}

/// Whether some of the names, in lower case, holds `a` or `b`.
pub fn mentions_either(names: &Vec<String>, a: &str, b: &str) -> (r: bool)
    ensures
        r == mentions(names@, a@, b@),
{
    let mut i: usize = 0;
    while i < names.len()
        invariant
            0 <= i <= names@.len(),
            forall|j: int|
                0 <= j < i ==> !(contains_text(lower_of((#[trigger] names@[j])@), a@) || contains_text(
                    lower_of(names@[j]@),
                    b@,
                )),
        decreases names@.len() - i,
    {
        let low = lowercase(names[i].as_str());
        if contains_str(low.as_str(), a) || contains_str(low.as_str(), b) {
            return true;
        }
        i += 1;
    }
    false
}

/// The component injects something HTTP- or service-like and does not
/// implement the destroy hook.
pub open spec fn leak_risk(c: NgComponent) -> bool {
    mentions(c.dependencies@, "http"@, "service"@) && !views(c.lifecycle_hooks@).contains("ngOnDestroy"@)
}

/// The findings of the per-component performance checks on one component:
/// many stylesheets, a large inline template, complex with default change
/// detection, a leak risk, many bindings.
pub open spec fn performance_findings(c: NgComponent) -> Seq<IssueFact> {
    let p = c.file_path@;
    let n = c.name@;
    let sheets: Seq<IssueFact> = if c.style_urls@.len() > 3 {
        seq![(Severity::Warning, "too-many-stylesheets"@, "Component '"@ + n + "' has "@ + decimal(
            c.style_urls@.len(),
        ) + " stylesheets. Consider consolidating styles."@, p)]
    } else {
        Seq::empty()
    };
    let template: Seq<IssueFact> = match c.template {
        Some(t) => if byte_len(t@) > 2000 {
            seq![(Severity::Warning, "large-inline-template"@, "Component '"@ + n
                + "' has a large inline template ("@ + decimal(byte_len(t@) as nat)
                + " characters). Consider using templateUrl."@, p)]
        } else {
            Seq::empty()
        },
        None => Seq::empty(),
    };
    let complex: Seq<IssueFact> = if c.change_detection == ChangeDetectionStrategy::Default && c.complexity_score > 8 {
        seq![(Severity::Warning, "complex-component-default-cd"@, "Complex component '"@ + n + "' (score: "@
            + decimal(c.complexity_score as nat) + ") uses default change detection. Consider OnPush strategy."@, p)]
    } else {
        Seq::empty()
    };
    let leak: Seq<IssueFact> = if leak_risk(c) {
        seq![(Severity::Warning, "potential-memory-leak"@, "Component '"@ + n
            + "' uses HTTP/services but doesn't implement ngOnDestroy. Potential memory leak risk."@, p)]
    } else {
        Seq::empty()
    };
    let bindings = c.inputs@.len() + c.outputs@.len();
    let many: Seq<IssueFact> = if bindings > 15 {
        seq![(Severity::Warning, "excessive-bindings"@, "Component '"@ + n + "' has "@ + decimal(bindings)
            + " bindings. Consider reducing to improve change detection performance."@, p)]
    } else {
        Seq::empty()
    };
    sheets + template + complex + leak + many
}

/// The per-component findings on the first `n` components, in order.
pub open spec fn all_performance_findings(cs: Seq<NgComponent>, n: int) -> Seq<IssueFact>
    decreases n,
{
    if n <= 0 {
        Seq::empty()
    } else {
        all_performance_findings(cs, n - 1) + performance_findings(cs[n - 1])
    }
}

/// The number of the first `n` components that satisfy `pred`.
pub open spec fn count_where(cs: Seq<NgComponent>, pred: spec_fn(NgComponent) -> bool, n: int) -> nat
    decreases n,
{
    if n <= 0 {
        0
    } else {
        count_where(cs, pred, n - 1) + if pred(cs[n - 1]) {
            1nat
        } else {
            0nat
        }
    }
}

proof fn lemma_count_where_bounded(cs: Seq<NgComponent>, pred: spec_fn(NgComponent) -> bool, n: int)
    requires
        0 <= n,
    ensures
        count_where(cs, pred, n) <= n,
    decreases n,
{
    if n > 0 {
        lemma_count_where_bounded(cs, pred, n - 1);
    }
}

/// `part / whole` as a value rounded to tenths, half up, with one decimal.
pub open spec fn ratio_text(part: nat, whole: nat) -> Seq<char> {
    let t = ((20 * part + whole) / (2 * whole)) as nat;
    decimal(t / 10) + "."@ + decimal(t % 10)
}

/// The project-wide findings: most components with the default change
/// detection, many components in a single module, and many components per
/// module on average.
pub open spec fn project_findings(p: NgProject, defaults: nat) -> Seq<IssueFact> {
    let t = p.components@.len();
    let m = p.modules@.len();
    let cd: Seq<IssueFact> = if t > 0 && 100 * defaults > 70 * t && t > 5 {
        seq![(Severity::Warning, "high-default-change-detection"@, ratio_text(100 * defaults, t)
            + "% of components use default change detection. Consider OnPush for better performance."@,
            forward_slashes(p.root_path@))]
    } else {
        Seq::empty()
    };
    let single: Seq<IssueFact> = if m == 1 && t > 10 {
        seq![(Severity::Info, "consider-lazy-loading"@, "Project has "@ + decimal(t)
            + " components in a single module. Consider implementing lazy-loaded feature modules."@, p.root_path@)]
    } else {
        Seq::empty()
    };
    let unbalanced: Seq<IssueFact> = if m > 1 && (t as u128) > 8 * (m as u128) {
        seq![(Severity::Info, "unbalanced-modules"@, "Average of "@ + ratio_text(t, m)
            + " components per module. Consider better module organization for lazy loading."@, p.root_path@)]
    } else {
        Seq::empty()
    };
    cd + single + unbalanced
}

pub open spec fn onpush_candidate(c: NgComponent) -> bool {
    c.change_detection == ChangeDetectionStrategy::Default && (c.complexity_score > 5 || c.inputs@.len()
        + c.outputs@.len() > 5)
}

pub open spec fn large_inline_template(c: NgComponent) -> bool {
    match c.template {
        Some(t) => byte_len(t@) > 500,
        None => false,
    }
}

/// The performance advice over the project.
pub open spec fn performance_advice(p: NgProject) -> Seq<AdviceFact> {
    let cs = p.components@;
    let n = cs.len() as int;
    let onpush = count_where(cs, |c: NgComponent| onpush_candidate(c), n);
    let leaks = count_where(cs, |c: NgComponent| leak_risk(c), n);
    let large = count_where(cs, |c: NgComponent| large_inline_template(c), n);
    let a: Seq<AdviceFact> = if onpush > 0 {
        seq![("Performance"@, "Implement OnPush Change Detection"@, "Implement OnPush change detection in "@
            + decimal(onpush) + " components to improve performance and reduce unnecessary re-renders."@,
            Priority::High)]
    } else {
        Seq::empty()
    };
    let b: Seq<AdviceFact> = if p.modules@.len() == 1 && cs.len() > 8 {
        seq![("Performance"@, "Implement Lazy Loading"@,
            "Split your application into feature modules with lazy loading to reduce initial bundle size and improve startup performance."@,
            Priority::Medium)]
    } else {
        Seq::empty()
    };
    let c: Seq<AdviceFact> = if leaks > 0 {
        seq![("Memory Management"@, "Prevent Memory Leaks"@, "Implement proper cleanup patterns in "@
            + decimal(leaks) + " components to prevent memory leaks from observables and event listeners."@,
            Priority::High)]
    } else {
        Seq::empty()
    };
    let d: Seq<AdviceFact> = if large > 0 {
        seq![("Bundle Size"@, "Optimize Template Size"@, "Move "@ + decimal(large)
            + " large inline templates to external files to improve build performance and enable template caching."@,
            Priority::Low)]
    } else {
        Seq::empty()
    };
    a + b + c + d
}

/// Checks a project for performance risks.
pub struct PerformanceAnalyzer;

fn one_issue_if(cond: bool, severity: Severity, rule: &str, message: String, file: &String) -> (r: Vec<Issue>)
    ensures
        issue_facts(r@) == if cond {
            seq![(severity, rule@, message@, file@)]
        } else {
            Seq::<IssueFact>::empty()
        },
        all_unpositioned(r@),
{
    let mut r: Vec<Issue> = Vec::new();
    if cond {
        r.push(new_issue(severity, rule, message, file.clone()));
    }
    assert(issue_facts(r@) =~= if cond {
        seq![(severity, rule@, message@, file@)]
    } else {
        Seq::<IssueFact>::empty()
    });
    r
}

impl PerformanceAnalyzer {
    pub fn new() -> (r: Self) {
        PerformanceAnalyzer
    }

    fn has_leak_risk(c: &NgComponent) -> (r: bool)
        ensures
            r == leak_risk(*c),
    {
        mentions_either(&c.dependencies, "http", "service") && !contains_string(&c.lifecycle_hooks, &"ngOnDestroy".to_owned())
    }

    /// The per-component checks on one component.
    pub fn analyze_component(&self, c: &NgComponent) -> (r: Vec<Issue>)
        requires
            c.inputs@.len() + c.outputs@.len() <= usize::MAX,
        ensures
            issue_facts(r@) == performance_findings(*c),
            all_unpositioned(r@),
    {
        let p = &c.file_path;
        let n = c.name.as_str();
        let mut m1 = text_with("Component '", n, "' has ");
        push_decimal(&mut m1, c.style_urls.len() as u64);
        append_str(&mut m1, " stylesheets. Consider consolidating styles.");
        let mut r = one_issue_if(c.style_urls.len() > 3, Severity::Warning, "too-many-stylesheets", m1, p);
        match &c.template {
            Some(t) => {
                let len = t.as_str().len();
                let mut m2 = text_with("Component '", n, "' has a large inline template (");
                push_decimal(&mut m2, len as u64);
                append_str(&mut m2, " characters). Consider using templateUrl.");
                append_issues(&mut r, one_issue_if(len > 2000, Severity::Warning, "large-inline-template", m2, p));
            },
            None => {},
        }
        let mut m3 = text_with("Complex component '", n, "' (score: ");
        push_decimal(&mut m3, c.complexity_score as u64);
        append_str(&mut m3, ") uses default change detection. Consider OnPush strategy.");
        append_issues(&mut r, one_issue_if(
            c.change_detection == ChangeDetectionStrategy::Default && c.complexity_score > 8,
            Severity::Warning,
            "complex-component-default-cd",
            m3,
            p,
        ));
        let m4 = text_with("Component '", n, "' uses HTTP/services but doesn't implement ngOnDestroy. Potential memory leak risk.");
        append_issues(&mut r, one_issue_if(Self::has_leak_risk(c), Severity::Warning, "potential-memory-leak", m4, p));
        let bindings = c.inputs.len() + c.outputs.len();
        let mut m5 = text_with("Component '", n, "' has ");
        push_decimal(&mut m5, bindings as u64);
        append_str(&mut m5, " bindings. Consider reducing to improve change detection performance.");
        append_issues(&mut r, one_issue_if(bindings > 15, Severity::Warning, "excessive-bindings", m5, p));
        assert(issue_facts(r@) =~= performance_findings(*c));
        r
    }
}

/// No component has more bindings than a count can hold, and the project
/// has fewer components than a count can hold.
pub open spec fn counts_fit(p: NgProject) -> bool {
    &&& p.components@.len() <= u32::MAX
    &&& forall|i: int|
        0 <= i < p.components@.len() ==> (#[trigger] p.components@[i]).inputs@.len()
            + p.components@[i].outputs@.len() <= usize::MAX
}

fn push_ratio(m: &mut String, part: u64, whole: u64)
    requires
        whole >= 1,
        part <= 100 * (u32::MAX as u64),
        whole <= u32::MAX,
    ensures
        final(m)@ == old(m)@ + ratio_text(part as nat, whole as nat),
{
    let ghost m0 = m@;
    let t = (20 * part + whole) / (2 * whole);
    assert(t <= 10 * part) by (nonlinear_arith)
        requires
            t == (20 * part + whole) / (2 * whole),
            whole >= 1,
    {
        assert(20 * part + whole < (10 * part + 1) * (2 * whole));
    }
    push_decimal(m, t / 10);
    append_str(m, ".");
    push_decimal(m, t % 10);
    assert(m@ =~= m0 + ratio_text(part as nat, whole as nat));
}

impl PerformanceAnalyzer {
    /// The project-wide findings, then the findings on each component in
    /// turn.
    pub fn analyze_issues(&self, p: &NgProject) -> (r: Vec<Issue>)
        requires
            counts_fit(*p),
        ensures
            issue_facts(r@) == project_findings(
                *p,
                count_where(p.components@, |c: NgComponent| c.change_detection == ChangeDetectionStrategy::Default, p.components@.len() as int),
            ) + all_performance_findings(p.components@, p.components@.len() as int),
            all_unpositioned(r@),
    {
        let cs = &p.components;
        let ghost dp = |c: NgComponent| c.change_detection == ChangeDetectionStrategy::Default;
        let mut defaults: u64 = 0;
        let mut i: usize = 0;
        while i < cs.len()
            invariant
                0 <= i <= cs@.len(),
                cs@.len() <= u32::MAX,
                defaults == count_where(cs@, dp, i as int),
                dp == (|c: NgComponent| c.change_detection == ChangeDetectionStrategy::Default),
            decreases cs@.len() - i,
        {
            proof {
                lemma_count_where_bounded(cs@, dp, i as int);
            }
            if cs[i].change_detection == ChangeDetectionStrategy::Default {
                defaults += 1;
            }
            i += 1;
        }
        proof {
            lemma_count_where_bounded(cs@, dp, cs@.len() as int);
        }
        let t = cs.len() as u64;
        let m = p.modules.len() as u64;
        let root = normalize_path(p.root_path.as_str());
        let mut r: Vec<Issue> = Vec::new();
        if t > 0 && 100 * defaults > 70 * t && t > 5 {
            let mut msg = String::new();
            push_ratio(&mut msg, 100 * defaults, t);
            append_str(&mut msg, "% of components use default change detection. Consider OnPush for better performance.");
            r.push(new_issue(Severity::Warning, "high-default-change-detection", msg, root.clone()));
        }
        if m == 1 && t > 10 {
            let msg = text_with_number("Project has ", cs.len(), " components in a single module. Consider implementing lazy-loaded feature modules.");
            r.push(new_issue(Severity::Info, "consider-lazy-loading", msg, p.root_path.clone()));
        }
        if m > 1 && (t as u128) > 8 * (m as u128) {
            let mut msg = "Average of ".to_owned();
            push_ratio(&mut msg, t, m);
            append_str(&mut msg, " components per module. Consider better module organization for lazy loading.");
            r.push(new_issue(Severity::Info, "unbalanced-modules", msg, p.root_path.clone()));
        }
        assert(issue_facts(r@) =~= project_findings(*p, defaults as nat)) by {
            reveal_strlit("");
        }
        let ghost head = issue_facts(r@);
        i = 0;
        while i < cs.len()
            invariant
                0 <= i <= cs@.len(),
                counts_fit(*p),
                cs == &p.components,
                issue_facts(r@) == head + all_performance_findings(cs@, i as int),
                all_unpositioned(r@),
            decreases cs@.len() - i,
        {
            assert(cs@[i as int].inputs@.len() + cs@[i as int].outputs@.len() <= usize::MAX);
            append_issues(&mut r, self.analyze_component(&cs[i]));
            i += 1;
        }
        r
    }

    /// The performance advice over the project.
    pub fn generate_performance_recommendations(&self, p: &NgProject) -> (r: Vec<Recommendation>)
        ensures
            advice_facts(r@) == performance_advice(*p),
            all_general(r@),
    {
        let cs = &p.components;
        let ghost op = |c: NgComponent| onpush_candidate(c);
        let ghost lp = |c: NgComponent| leak_risk(c);
        let ghost tp = |c: NgComponent| large_inline_template(c);
        let mut onpush: usize = 0;
        let mut leaks: usize = 0;
        let mut large: usize = 0;
        let mut i: usize = 0;
        while i < cs.len()
            invariant
                0 <= i <= cs@.len(),
                onpush == count_where(cs@, op, i as int),
                leaks == count_where(cs@, lp, i as int),
                large == count_where(cs@, tp, i as int),
                op == (|c: NgComponent| onpush_candidate(c)),
                lp == (|c: NgComponent| leak_risk(c)),
                tp == (|c: NgComponent| large_inline_template(c)),
            decreases cs@.len() - i,
        {
            proof {
                lemma_count_where_bounded(cs@, op, i as int);
                lemma_count_where_bounded(cs@, lp, i as int);
                lemma_count_where_bounded(cs@, tp, i as int);
            }
            let c = &cs[i];
            if c.change_detection == ChangeDetectionStrategy::Default && (c.complexity_score > 5
                || c.inputs.len() as u128 + c.outputs.len() as u128 > 5) {
                onpush += 1;
            }
            if Self::has_leak_risk(c) {
                leaks += 1;
            }
            let big = match &c.template {
                Some(t) => t.as_str().len() > 500,
                None => false,
            };
            if big {
                large += 1;
            }
            i += 1;
        }
        let mut r: Vec<Recommendation> = Vec::new();
        if onpush > 0 {
            let m = text_with_number("Implement OnPush change detection in ", onpush, " components to improve performance and reduce unnecessary re-renders.");
            r.push(new_advice("Performance", "Implement OnPush Change Detection", m, Priority::High));
        }
        if p.modules.len() == 1 && cs.len() > 8 {
            r.push(new_advice(
                "Performance",
                "Implement Lazy Loading",
                "Split your application into feature modules with lazy loading to reduce initial bundle size and improve startup performance.".to_owned(),
                Priority::Medium,
            ));
        }
        if leaks > 0 {
            let m = text_with_number("Implement proper cleanup patterns in ", leaks, " components to prevent memory leaks from observables and event listeners.");
            r.push(new_advice("Memory Management", "Prevent Memory Leaks", m, Priority::High));
        }
        if large > 0 {
            let m = text_with_number("Move ", large, " large inline templates to external files to improve build performance and enable template caching.");
            r.push(new_advice("Bundle Size", "Optimize Template Size", m, Priority::Low));
        }
        assert(advice_facts(r@) =~= performance_advice(*p));
        r
    }
}

} // verus!
