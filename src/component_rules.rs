//! Rule checks on single components, and advice over all of them.

use vstd::prelude::*;
use crate::analysis::contains_string;
use crate::findings::{
    all_general, all_unpositioned, advice_facts, append_issues, issue_facts, new_advice, new_issue,
    text_with_number, AdviceFact, IssueFact,
};
use crate::model::{ChangeDetectionStrategy, Issue, NgComponent, NgProject, Priority, Recommendation, Severity};
use crate::text::decimal;

verus! {

/// The number of bytes of `s` in UTF-8, as `str::len` counts them.
pub open spec fn byte_len(s: Seq<char>) -> usize {
    vstd::utf8::encode_utf8(s).len() as usize
}

/// Checks components against limits on complexity and on bindings.
pub struct ComponentAnalyzer {
    pub max_complexity: u32,
    pub max_depth: u32,
    pub max_inputs: usize,
    pub max_outputs: usize,
}

/// The findings on a component's complexity score.
pub open spec fn complexity_findings(max: u32, c: NgComponent) -> Seq<IssueFact> {
    let s = c.complexity_score;
    let p = c.file_path@;
    let high: Seq<IssueFact> = if s > max {
        seq![(Severity::Warning, "component-complexity"@, "Component complexity ("@ + decimal(s as nat)
            + ") exceeds threshold ("@ + decimal(max as nat)
            + "). Consider breaking down into smaller components."@, p)]
    } else {
        Seq::empty()
    };
    let critical: Seq<IssueFact> = if s > 2 * max {
        seq![(Severity::Error, "component-complexity-critical"@, "Component complexity ("@ + decimal(s as nat)
            + ") is critically high. Immediate refactoring required."@, p)]
    } else {
        Seq::empty()
    };
    high + critical
}

/// The finding on a component that keeps the default change detection.
pub open spec fn change_detection_findings(c: NgComponent) -> Seq<IssueFact> {
    if c.change_detection == ChangeDetectionStrategy::Default {
        seq![(Severity::Info, "change-detection-strategy"@,
            "Consider using OnPush change detection strategy for better performance"@, c.file_path@)]
    } else {
        Seq::empty()
    }
}

/// The findings on a component with too many inputs or outputs.
pub open spec fn binding_findings(max_inputs: usize, max_outputs: usize, c: NgComponent) -> Seq<IssueFact> {
    let p = c.file_path@;
    let i = c.inputs@.len();
    let o = c.outputs@.len();
    let a: Seq<IssueFact> = if i > max_inputs {
        seq![(Severity::Warning, "too-many-inputs"@, "Component has "@ + decimal(i)
            + " inputs, which exceeds the recommended maximum of "@ + decimal(max_inputs as nat), p)]
    } else {
        Seq::empty()
    };
    let b: Seq<IssueFact> = if o > max_outputs {
        seq![(Severity::Warning, "too-many-outputs"@, "Component has "@ + decimal(o)
            + " outputs, which exceeds the recommended maximum of "@ + decimal(max_outputs as nat), p)]
    } else {
        Seq::empty()
    };
    a + b
}

/// The finding on a component that implements many lifecycle hooks. (The
/// cleanup check on components with both the init and destroy hooks finds
/// a proper pattern in every component.)
pub open spec fn hook_findings(c: NgComponent) -> Seq<IssueFact> {
    let n = c.lifecycle_hooks@.len();
    if n > 4 {
        seq![(Severity::Info, "many-lifecycle-hooks"@, "Component implements "@ + decimal(n)
            + " lifecycle hooks. Consider if all are necessary"@, c.file_path@)]
    } else {
        Seq::empty()
    }
}

/// The findings on a component's template: both or neither of an inline
/// template and a template file, or a large inline template.
pub open spec fn template_findings(c: NgComponent) -> Seq<IssueFact> {
    let p = c.file_path@;
    let both: Seq<IssueFact> = if c.template is Some && c.template_url is Some {
        seq![(Severity::Error, "template-conflict"@,
            "Component has both inline template and templateUrl. Use only one."@, p)]
    } else {
        Seq::empty()
    };
    let neither: Seq<IssueFact> = if c.template is None && c.template_url is None {
        seq![(Severity::Error, "missing-template"@, "Component must have either a template or templateUrl"@, p)]
    } else {
        Seq::empty()
    };
    let large: Seq<IssueFact> = match c.template {
        Some(t) => if byte_len(t@) > 500 {
            seq![(Severity::Warning, "inline-template-too-large"@,
                "Inline template is large. Consider using templateUrl instead"@, p)]
        } else {
            Seq::empty()
        },
        None => Seq::empty(),
    };
    both + neither + large
}

/// Every finding on one component, check by check.
pub open spec fn component_findings(a: ComponentAnalyzer, c: NgComponent) -> Seq<IssueFact> {
    complexity_findings(a.max_complexity, c) + change_detection_findings(c) + binding_findings(
        a.max_inputs,
        a.max_outputs,
        c,
    ) + hook_findings(c) + template_findings(c)
}

/// The number of the first `n` components that satisfy `pred`.
pub open spec fn count_components(cs: Seq<NgComponent>, pred: spec_fn(NgComponent) -> bool, n: int) -> nat
    decreases n,
{
    if n <= 0 {
        0
    } else {
        count_components(cs, pred, n - 1) + if pred(cs[n - 1]) {
            1nat
        } else {
            0nat
        }
    }
}

pub open spec fn uses_default_detection(c: NgComponent) -> bool {
    c.change_detection == ChangeDetectionStrategy::Default
}

/// The advice over all components: adopt the optimized change detection
/// where the default is kept, and break up the too complex.
pub open spec fn component_advice(max: u32, cs: Seq<NgComponent>) -> Seq<AdviceFact> {
    let d = count_components(cs, |c: NgComponent| uses_default_detection(c), cs.len() as int);
    let h = count_components(cs, |c: NgComponent| c.complexity_score > max, cs.len() as int);
    let a: Seq<AdviceFact> = if d > 0 {
        seq![("Performance"@, "Optimize Change Detection"@,
            "Consider implementing OnPush change detection strategy for "@ + decimal(d)
            + " components to improve performance"@, Priority::Medium)]
    } else {
        Seq::empty()
    };
    let b: Seq<AdviceFact> = if h > 0 {
        seq![("Code Quality"@, "Reduce Component Complexity"@, "Break down "@ + decimal(h)
            + " complex components into smaller, more manageable pieces"@, Priority::High)]
    } else {
        Seq::empty()
    };
    a + b
}

proof fn lemma_count_bounded(cs: Seq<NgComponent>, pred: spec_fn(NgComponent) -> bool, n: int)
    requires
        0 <= n,
    ensures
        count_components(cs, pred, n) <= n,
    decreases n,
{
    if n > 0 {
        lemma_count_bounded(cs, pred, n - 1);
    }
}

impl ComponentAnalyzer {
    /// The default limits: complexity 10, depth 5, ten inputs, ten outputs.
    pub fn new() -> (r: Self)
        ensures
            r.max_complexity == 10 && r.max_depth == 5 && r.max_inputs == 10 && r.max_outputs == 10,
    {
        ComponentAnalyzer { max_complexity: 10, max_depth: 5, max_inputs: 10, max_outputs: 10 }
    }

    /// Limits of the caller's choosing.
    pub fn with_config(max_complexity: u32, max_depth: u32, max_inputs: usize, max_outputs: usize) -> (r: Self)
        ensures
            r.max_complexity == max_complexity && r.max_depth == max_depth && r.max_inputs == max_inputs
                && r.max_outputs == max_outputs,
    {
        ComponentAnalyzer { max_complexity, max_depth, max_inputs, max_outputs }
    }

    fn check_complexity(&self, c: &NgComponent) -> (r: Vec<Issue>)
        ensures
            issue_facts(r@) == complexity_findings(self.max_complexity, *c),
            all_unpositioned(r@),
    {
        let mut r: Vec<Issue> = Vec::new();
        let s = c.complexity_score;
        let p = c.file_path.as_str();
        if s > self.max_complexity {
            let mut m = text_with_number("Component complexity (", s as usize, ") exceeds threshold (");
            crate::text::push_decimal(&mut m, self.max_complexity as u64);
            crate::text::append_str(&mut m, "). Consider breaking down into smaller components.");
            r.push(new_issue(Severity::Warning, "component-complexity", m, p.to_owned()));
        }
        if (s as u64) > 2 * (self.max_complexity as u64) {
            let m = text_with_number("Component complexity (", s as usize, ") is critically high. Immediate refactoring required.");
            r.push(new_issue(Severity::Error, "component-complexity-critical", m, p.to_owned()));
        }
        assert(issue_facts(r@) =~= complexity_findings(self.max_complexity, *c));
        r
    }

    fn check_change_detection(&self, c: &NgComponent) -> (r: Vec<Issue>)
        ensures
            issue_facts(r@) == change_detection_findings(*c),
            all_unpositioned(r@),
    {
        let mut r: Vec<Issue> = Vec::new();
        if c.change_detection == ChangeDetectionStrategy::Default {
            r.push(new_issue(
                Severity::Info,
                "change-detection-strategy",
                "Consider using OnPush change detection strategy for better performance".to_owned(),
                c.file_path.clone(),
            ));
        }
        assert(issue_facts(r@) =~= change_detection_findings(*c));
        r
    }

    fn check_inputs_outputs(&self, c: &NgComponent) -> (r: Vec<Issue>)
        ensures
            issue_facts(r@) == binding_findings(self.max_inputs, self.max_outputs, *c),
            all_unpositioned(r@),
    {
        let mut r: Vec<Issue> = Vec::new();
        if c.inputs.len() > self.max_inputs {
            let mut m = text_with_number("Component has ", c.inputs.len(), " inputs, which exceeds the recommended maximum of ");
            crate::text::push_decimal(&mut m, self.max_inputs as u64);
            r.push(new_issue(Severity::Warning, "too-many-inputs", m, c.file_path.clone()));
        }
        if c.outputs.len() > self.max_outputs {
            let mut m = text_with_number("Component has ", c.outputs.len(), " outputs, which exceeds the recommended maximum of ");
            crate::text::push_decimal(&mut m, self.max_outputs as u64);
            r.push(new_issue(Severity::Warning, "too-many-outputs", m, c.file_path.clone()));
        }
        assert(issue_facts(r@) =~= binding_findings(self.max_inputs, self.max_outputs, *c));
        r
    }

    /// Whether the component cleans up after itself; every component is
    /// taken to.
    fn has_proper_cleanup_pattern(&self, c: &NgComponent) -> (r: bool)
        ensures
            r,
    {
        true
    }

    fn check_lifecycle_hooks(&self, c: &NgComponent) -> (r: Vec<Issue>)
        ensures
            issue_facts(r@) == hook_findings(*c),
            all_unpositioned(r@),
    {
        let mut r: Vec<Issue> = Vec::new();
        let hooks = &c.lifecycle_hooks;
        if contains_string(hooks, &"ngOnInit".to_owned()) && contains_string(hooks, &"ngOnDestroy".to_owned()) {
            if !self.has_proper_cleanup_pattern(c) {
                r.push(new_issue(
                    Severity::Warning,
                    "missing-cleanup-pattern",
                    "Component implements ngOnInit and ngOnDestroy but may be missing proper cleanup patterns (unsubscribe, etc.)".to_owned(),
                    c.file_path.clone(),
                ));
            }
        }
        if hooks.len() > 4 {
            let m = text_with_number("Component implements ", hooks.len(), " lifecycle hooks. Consider if all are necessary");
            r.push(new_issue(Severity::Info, "many-lifecycle-hooks", m, c.file_path.clone()));
        }
        assert(issue_facts(r@) =~= hook_findings(*c));
        r
    }

    fn check_template_style(&self, c: &NgComponent) -> (r: Vec<Issue>)
        ensures
            issue_facts(r@) == template_findings(*c),
            all_unpositioned(r@),
    {
        let mut r: Vec<Issue> = Vec::new();
        if c.template.is_some() && c.template_url.is_some() {
            r.push(new_issue(
                Severity::Error,
                "template-conflict",
                "Component has both inline template and templateUrl. Use only one.".to_owned(),
                c.file_path.clone(),
            ));
        }
        if c.template.is_none() && c.template_url.is_none() {
            r.push(new_issue(
                Severity::Error,
                "missing-template",
                "Component must have either a template or templateUrl".to_owned(),
                c.file_path.clone(),
            ));
        }
        match &c.template {
            Some(t) => {
                if t.as_str().len() > 500 {
                    r.push(new_issue(
                        Severity::Warning,
                        "inline-template-too-large",
                        "Inline template is large. Consider using templateUrl instead".to_owned(),
                        c.file_path.clone(),
                    ));
                }
            },
            None => {},
        }
        assert(issue_facts(r@) =~= template_findings(*c));
        r
    }

    /// Every check on one component, in turn.
    pub fn analyze_component(&self, c: &NgComponent) -> (r: Vec<Issue>)
        ensures
            issue_facts(r@) == component_findings(*self, *c),
            all_unpositioned(r@),
    {
        let mut r = self.check_complexity(c);
        append_issues(&mut r, self.check_change_detection(c));
        append_issues(&mut r, self.check_inputs_outputs(c));
        append_issues(&mut r, self.check_lifecycle_hooks(c));
        append_issues(&mut r, self.check_template_style(c));
        r
    }

    /// The findings on every component, component by component.
    pub fn analyze_components(&self, project: &NgProject) -> (r: Vec<Issue>)
        ensures
            issue_facts(r@) == all_component_findings(*self, project.components@, project.components@.len() as int),
            all_unpositioned(r@),
    {
        let mut r: Vec<Issue> = Vec::new();
        let mut i: usize = 0;
        while i < project.components.len()
            invariant
                0 <= i <= project.components@.len(),
                issue_facts(r@) == all_component_findings(*self, project.components@, i as int),
                all_unpositioned(r@),
            decreases project.components@.len() - i,
        {
            append_issues(&mut r, self.analyze_component(&project.components[i]));
            i += 1;
        }
        r
    }

    /// Advice over all components of the project.
    pub fn generate_recommendations(&self, project: &NgProject) -> (r: Vec<Recommendation>)
        ensures
            advice_facts(r@) == component_advice(self.max_complexity, project.components@),
            all_general(r@),
    {
        let cs = &project.components;
        let ghost dp = |c: NgComponent| uses_default_detection(c);
        let ghost hp = |c: NgComponent| c.complexity_score > self.max_complexity;
        let mut d: usize = 0;
        let mut h: usize = 0;
        let mut i: usize = 0;
        while i < cs.len()
            invariant
                0 <= i <= cs@.len(),
                d == count_components(cs@, dp, i as int),
                h == count_components(cs@, hp, i as int),
                dp == (|c: NgComponent| uses_default_detection(c)),
                hp == (|c: NgComponent| c.complexity_score > self.max_complexity),
            decreases cs@.len() - i,
        {
            proof {
                lemma_count_bounded(cs@, dp, i as int);
                lemma_count_bounded(cs@, hp, i as int);
            }
            if cs[i].change_detection == ChangeDetectionStrategy::Default {
                d += 1;
            }
            if cs[i].complexity_score > self.max_complexity {
                h += 1;
            }
            i += 1;
        }
        let mut r: Vec<Recommendation> = Vec::new();
        if d > 0 {
            let m = text_with_number("Consider implementing OnPush change detection strategy for ", d, " components to improve performance");
            r.push(new_advice("Performance", "Optimize Change Detection", m, Priority::Medium));
        }
        if h > 0 {
            let m = text_with_number("Break down ", h, " complex components into smaller, more manageable pieces");
            r.push(new_advice("Code Quality", "Reduce Component Complexity", m, Priority::High));
        }
        assert(advice_facts(r@) =~= component_advice(self.max_complexity, cs@));
        r
    }
}

/// The findings on the first `n` components, in order.
pub open spec fn all_component_findings(a: ComponentAnalyzer, cs: Seq<NgComponent>, n: int) -> Seq<IssueFact>
    decreases n,
{
    if n <= 0 {
        Seq::empty()
    } else {
        all_component_findings(a, cs, n - 1) + component_findings(a, cs[n - 1])
    }
}

/// The integer parts of a project's metrics; the average complexity is
/// `complexity_total` over `total_components`, and the share of the
/// optimized change detection `onpush_components` over it.
#[derive(Debug, Clone, Copy)]
pub struct MetricCounts {
    pub total_components: u32,
    pub total_services: u32,
    pub total_modules: u32,
    pub complexity_total: u64,
    pub onpush_components: u32,
}

/// The sum of the complexity scores of the first `n` components.
pub open spec fn complexity_sum(cs: Seq<NgComponent>, n: int) -> nat
    decreases n,
{
    if n <= 0 {
        0
    } else {
        complexity_sum(cs, n - 1) + cs[n - 1].complexity_score as nat
    }
}

proof fn lemma_complexity_sum_bounded(cs: Seq<NgComponent>, n: int)
    requires
        0 <= n,
    ensures
        complexity_sum(cs, n) <= n * (u32::MAX as int),
    decreases n,
{
    if n > 0 {
        lemma_complexity_sum_bounded(cs, n - 1);
    }
}

impl ComponentAnalyzer {
    /// The counts of the project's entities and the total complexity of its
    /// components.
    pub fn calculate_metrics(&self, project: &NgProject) -> (r: MetricCounts)
        requires
            project.components@.len() <= u32::MAX,
            project.services@.len() <= u32::MAX,
            project.modules@.len() <= u32::MAX,
        ensures
            r.total_components == project.components@.len(),
            r.total_services == project.services@.len(),
            r.total_modules == project.modules@.len(),
            r.complexity_total == complexity_sum(project.components@, project.components@.len() as int),
            r.onpush_components == count_components(
                project.components@,
                |c: NgComponent| c.change_detection == ChangeDetectionStrategy::OnPush,
                project.components@.len() as int,
            ),
    {
        let cs = &project.components;
        let ghost op = |c: NgComponent| c.change_detection == ChangeDetectionStrategy::OnPush;
        let mut total: u64 = 0;
        let mut onpush: u32 = 0;
        let mut i: usize = 0;
        while i < cs.len()
            invariant
                0 <= i <= cs@.len(),
                cs@.len() <= u32::MAX,
                total == complexity_sum(cs@, i as int),
                onpush == count_components(cs@, op, i as int),
                op == (|c: NgComponent| c.change_detection == ChangeDetectionStrategy::OnPush),
            decreases cs@.len() - i,
        {
            proof {
                lemma_count_bounded(cs@, op, i as int);
                lemma_complexity_sum_bounded(cs@, i as int);
                assert(i * (u32::MAX as int) + (u32::MAX as int) <= (u32::MAX as int) * (u32::MAX as int) + (u32::MAX as int)) by (nonlinear_arith)
                    requires i < u32::MAX;
            }
            total = total + cs[i].complexity_score as u64;
            if cs[i].change_detection == ChangeDetectionStrategy::OnPush {
                onpush += 1;
            }
            i += 1;
        }
        MetricCounts {
            total_components: cs.len() as u32,
            total_services: project.services.len() as u32,
            total_modules: project.modules.len() as u32,
            complexity_total: total,
            onpush_components: onpush,
        }
    }
}

} // verus!
