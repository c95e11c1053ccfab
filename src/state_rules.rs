//! Rule checks on state management: services that hold state, reactive
//! cleanup, and change detection around state.

use vstd::prelude::*;
use crate::analysis::{contains_string, views};
use crate::findings::{
    all_general, all_unpositioned, advice_facts, issue_facts, new_advice, new_issue, text_with,
    text_with_number, AdviceFact, IssueFact,
};
use crate::model::{ChangeDetectionStrategy, Issue, NgComponent, NgProject, NgService, Priority, Recommendation, Severity};
use crate::text::{contains_str, contains_text, decimal, lower_of, lowercase};

verus! {

/// `s` in lower case holds one of the needles.
pub open spec fn holds_any(s: Seq<char>, needles: Seq<Seq<char>>) -> bool {
    exists|j: int| 0 <= j < needles.len() && contains_text(lower_of(s), #[trigger] needles[j])
}

fn holds_any_exec(s: &String, needles: &Vec<String>) -> (r: bool)
    ensures
        r == holds_any(s@, views(needles@)),
{
    let low = lowercase(s.as_str());
    let mut j: usize = 0;
    while j < needles.len()
        invariant
            0 <= j <= needles@.len(),
            low@ == lower_of(s@),
            forall|k: int| 0 <= k < j ==> !contains_text(lower_of(s@), #[trigger] views(needles@)[k]),
        decreases needles@.len() - j,
    {
        if contains_str(low.as_str(), needles[j].as_str()) {
            assert(contains_text(lower_of(s@), views(needles@)[j as int]));
            return true;
        }
        j += 1;
    }
    false
}

/// Some of the names, in lower case, holds one of the needles.
pub open spec fn any_holds(names: Seq<String>, needles: Seq<Seq<char>>) -> bool {
    exists|i: int| 0 <= i < names.len() && holds_any((#[trigger] names[i])@, needles)
}

fn any_holds_exec(names: &Vec<String>, needles: &Vec<String>) -> (r: bool)
    ensures
        r == any_holds(names@, views(needles@)),
{
    let mut i: usize = 0;
    while i < names.len()
        invariant
            0 <= i <= names@.len(),
            forall|k: int| 0 <= k < i ==> !holds_any((#[trigger] names@[k])@, views(needles@)),
        decreases names@.len() - i,
    {
        if holds_any_exec(&names[i], needles) {
            return true;
        }
        i += 1;
    }
    false
}

fn words(a: &str, b: &str, c: &str) -> (r: Vec<String>)
    ensures
        views(r@) == seq![a@, b@, c@],
{
    let mut r: Vec<String> = Vec::new();
    r.push(a.to_owned());
    r.push(b.to_owned());
    r.push(c.to_owned());
    assert(views(r@) =~= seq![a@, b@, c@]);
    r
}

pub open spec fn state_method_words() -> Seq<Seq<char>> {
    seq!["get"@, "set"@, "update"@, "state"@]
}

pub open spec fn state_name_words() -> Seq<Seq<char>> {
    seq!["subject"@, "behaviorsubject"@, "replaysubject"@, "observable"@, "state"@, "store"@, "cache"@]
}

/// The service appears to manage state: a method name or its own name
/// suggests it.
pub open spec fn manages_state(s: NgService) -> bool {
    (exists|i: int| 0 <= i < s.methods@.len() && holds_any((#[trigger] s.methods@[i]).name@, state_method_words()))
        || holds_any(s.name@, state_name_words())
}

/// The services among the first `n` that appear to manage state, in order.
pub open spec fn state_services_upto(ss: Seq<NgService>, n: int) -> Seq<NgService>
    decreases n,
{
    if n <= 0 {
        Seq::empty()
    } else {
        let prev = state_services_upto(ss, n - 1);
        if manages_state(ss[n - 1]) {
            prev.push(ss[n - 1])
        } else {
            prev
        }
    }
}

pub open spec fn state_services(p: NgProject) -> Seq<NgService> {
    state_services_upto(p.services@, p.services@.len() as int)
}

/// Some service is named like a store, effect or reducer.
pub open spec fn has_ngrx(p: NgProject) -> bool {
    exists|i: int| 0 <= i < p.services@.len() && holds_any((#[trigger] p.services@[i]).name@, seq!["store"@, "effect"@, "reducer"@])
}

/// Checks how a project manages state.
pub struct StateAnalyzer;

fn method_suggests_state(s: &NgService) -> (r: bool)
    ensures
        r == exists|i: int| 0 <= i < s.methods@.len() && holds_any((#[trigger] s.methods@[i]).name@, state_method_words()),
{
    let mut needles: Vec<String> = Vec::new();
    needles.push("get".to_owned());
    needles.push("set".to_owned());
    needles.push("update".to_owned());
    needles.push("state".to_owned());
    assert(views(needles@) =~= state_method_words());
    let mut i: usize = 0;
    while i < s.methods.len()
        invariant
            0 <= i <= s.methods@.len(),
            views(needles@) == state_method_words(),
            forall|k: int| 0 <= k < i ==> !holds_any((#[trigger] s.methods@[k]).name@, state_method_words()),
        decreases s.methods@.len() - i,
    {
        if holds_any_exec(&s.methods[i].name, &needles) {
            return true;
        }
        i += 1;
    }
    false
}

fn name_suggests_state(name: &String) -> (r: bool)
    ensures
        r == holds_any(name@, state_name_words()),
{
    let mut needles: Vec<String> = Vec::new();
    needles.push("subject".to_owned());
    needles.push("behaviorsubject".to_owned());
    needles.push("replaysubject".to_owned());
    needles.push("observable".to_owned());
    needles.push("state".to_owned());
    needles.push("store".to_owned());
    needles.push("cache".to_owned());
    assert(views(needles@) =~= state_name_words());
    holds_any_exec(name, &needles)
}

impl StateAnalyzer {
    pub fn new() -> (r: Self) {
        StateAnalyzer
    }

    /// The positions of the services that appear to manage state.
    pub fn identify_state_services(&self, p: &NgProject) -> (r: Vec<usize>)
        ensures
            r@.len() == state_services(*p).len(),
            forall|k: int| 0 <= k < r@.len() ==> (#[trigger] r@[k]) < p.services@.len() && p.services@[r@[k] as int] == state_services(*p)[k],
    {
        let ss = &p.services;
        let mut r: Vec<usize> = Vec::new();
        let mut i: usize = 0;
        while i < ss.len()
            invariant
                0 <= i <= ss@.len(),
                ss == &p.services,
                r@.len() == state_services_upto(ss@, i as int).len(),
                forall|k: int| 0 <= k < r@.len() ==> (#[trigger] r@[k]) < ss@.len() && ss@[r@[k] as int] == state_services_upto(ss@, i as int)[k],
            decreases ss@.len() - i,
        {
            if method_suggests_state(&ss[i]) || name_suggests_state(&ss[i].name) {
                r.push(i);
            }
            i += 1;
        }
        r
    }

    /// Whether some service is named like a store, effect or reducer.
    pub fn has_ngrx_pattern(&self, p: &NgProject) -> (r: bool)
        ensures
            r == has_ngrx(*p),
    {
        let needles = words("store", "effect", "reducer");
        let mut i: usize = 0;
        while i < p.services.len()
            invariant
                0 <= i <= p.services@.len(),
                views(needles@) == seq!["store"@, "effect"@, "reducer"@],
                forall|k: int| 0 <= k < i ==> !holds_any((#[trigger] p.services@[k]).name@, seq!["store"@, "effect"@, "reducer"@]),
            decreases p.services@.len() - i,
        {
            if holds_any_exec(&p.services[i].name, &needles) {
                return true;
            }
            i += 1;
        }
        false
    }
}

/// The findings on state management: many state services without a store
/// library, then each state service whose name says neither state nor store.
pub open spec fn state_findings(p: NgProject) -> Seq<IssueFact> {
    let ss = state_services(p);
    let many: Seq<IssueFact> = if ss.len() > 3 && !has_ngrx(p) {
        seq![(Severity::Info, "consider-state-management"@, "Found "@ + decimal(ss.len())
            + " services that appear to manage state. Consider using NgRx or Akita for centralized state management."@,
            p.root_path@)]
    } else {
        Seq::empty()
    };
    many + naming_findings(ss, ss.len() as int)
}

/// The naming findings on the first `n` of the state services.
pub open spec fn naming_findings(ss: Seq<NgService>, n: int) -> Seq<IssueFact>
    decreases n,
{
    if n <= 0 {
        Seq::empty()
    } else {
        let prev = naming_findings(ss, n - 1);
        let s = ss[n - 1];
        if !holds_any(s.name@, seq!["state"@, "store"@]) {
            prev.push((Severity::Warning, "unclear-state-service-naming"@, "Service '"@ + s.name@
                + "' appears to manage state but naming doesn't reflect this. Consider renaming to include 'State' or 'Store'."@,
                s.file_path@))
        } else {
            prev
        }
    }
}

/// The component injects services but does not implement the destroy hook.
pub open spec fn lacks_unsubscribe(c: NgComponent) -> bool {
    !views(c.lifecycle_hooks@).contains("ngOnDestroy"@) && any_holds(c.dependencies@, seq!["service"@, "http"@])
}

/// The reactive-pattern findings on the first `n` components.
pub open spec fn reactive_findings(cs: Seq<NgComponent>, n: int) -> Seq<IssueFact>
    decreases n,
{
    if n <= 0 {
        Seq::empty()
    } else {
        let prev = reactive_findings(cs, n - 1);
        let c = cs[n - 1];
        if lacks_unsubscribe(c) {
            prev.push((Severity::Warning, "missing-unsubscribe-pattern"@, "Component '"@ + c.name@
                + "' uses services but doesn't implement ngOnDestroy. This may lead to memory leaks from unsubscribed observables."@,
                c.file_path@))
        } else {
            prev
        }
    }
}

/// The component keeps the default change detection and injects something
/// state-like.
pub open spec fn state_heavy(c: NgComponent) -> bool {
    c.change_detection == ChangeDetectionStrategy::Default && any_holds(c.dependencies@, seq!["state"@, "store"@, "service"@])
}

/// The number of the first `n` components satisfying `pred`.
pub open spec fn count_of(cs: Seq<NgComponent>, pred: spec_fn(NgComponent) -> bool, n: int) -> nat
    decreases n,
{
    if n <= 0 {
        0
    } else {
        count_of(cs, pred, n - 1) + if pred(cs[n - 1]) {
            1nat
        } else {
            0nat
        }
    }
}

proof fn lemma_count_of_bounded(cs: Seq<NgComponent>, pred: spec_fn(NgComponent) -> bool, n: int)
    requires
        0 <= n,
    ensures
        count_of(cs, pred, n) <= n,
    decreases n,
{
    if n > 0 {
        lemma_count_of_bounded(cs, pred, n - 1);
    }
}

/// The finding on many state-heavy components with the default change
/// detection.
pub open spec fn detection_findings(p: NgProject) -> Seq<IssueFact> {
    let n = count_of(p.components@, |c: NgComponent| state_heavy(c), p.components@.len() as int);
    if n > 2 {
        seq![(Severity::Warning, "state-change-detection-mismatch"@, decimal(n)
            + " components use state services but have default change detection. Consider OnPush strategy for better performance."@,
            p.root_path@)]
    } else {
        Seq::empty()
    }
}

/// The state advice over the project.
pub open spec fn state_advice(p: NgProject) -> Seq<AdviceFact> {
    let ss = state_services(p);
    let cs = p.components@;
    let defaults = count_of(cs, |c: NgComponent| c.change_detection == ChangeDetectionStrategy::Default, cs.len() as int);
    let no_destroy = count_of(cs, |c: NgComponent| !views(c.lifecycle_hooks@).contains("ngOnDestroy"@), cs.len() as int);
    let a: Seq<AdviceFact> = if ss.len() > 1 && !has_ngrx(p) {
        seq![("State Management"@, "Centralize State Management"@,
            "Consider implementing NgRx or Akita to centralize state management across "@ + decimal(ss.len())
            + " state services."@, Priority::Medium)]
    } else {
        Seq::empty()
    };
    let b: Seq<AdviceFact> = if defaults > 0 && ss.len() > 0 {
        seq![("Performance"@, "Optimize Change Detection"@, "Implement OnPush change detection strategy in "@
            + decimal(defaults) + " components that interact with state services."@, Priority::High)]
    } else {
        Seq::empty()
    };
    let c: Seq<AdviceFact> = if no_destroy > 0 {
        seq![("Memory Management"@, "Implement Proper Cleanup"@, "Implement ngOnDestroy in "@ + decimal(no_destroy)
            + " components to prevent memory leaks from observables."@, Priority::High)]
    } else {
        Seq::empty()
    };
    a + b + c
}

impl StateAnalyzer {
    /// Findings on how the project's services manage state.
    pub fn analyze_state_management(&self, p: &NgProject) -> (r: Vec<Issue>)
        ensures
            issue_facts(r@) == state_findings(*p),
            all_unpositioned(r@),
    {
        let ix = self.identify_state_services(p);
        let mut r: Vec<Issue> = Vec::new();
        if ix.len() > 3 && !self.has_ngrx_pattern(p) {
            let m = text_with_number("Found ", ix.len(), " services that appear to manage state. Consider using NgRx or Akita for centralized state management.");
            r.push(new_issue(Severity::Info, "consider-state-management", m, p.root_path.clone()));
        }
        let ghost head = issue_facts(r@);
        assert(head =~= state_findings(*p).subrange(0, head.len() as int));
        let mut needles: Vec<String> = Vec::new();
        needles.push("state".to_owned());
        needles.push("store".to_owned());
        assert(views(needles@) =~= seq!["state"@, "store"@]);
        let mut k: usize = 0;
        while k < ix.len()
            invariant
                0 <= k <= ix@.len(),
                views(needles@) == seq!["state"@, "store"@],
                ix@.len() == state_services(*p).len(),
                forall|t: int| 0 <= t < ix@.len() ==> (#[trigger] ix@[t]) < p.services@.len() && p.services@[ix@[t] as int] == state_services(*p)[t],
                issue_facts(r@) == head + naming_findings(state_services(*p), k as int),
                all_unpositioned(r@),
            decreases ix@.len() - k,
        {
            let s = &p.services[ix[k]];
            if !holds_any_exec(&s.name, &needles) {
                let m = text_with("Service '", s.name.as_str(), "' appears to manage state but naming doesn't reflect this. Consider renaming to include 'State' or 'Store'.");
                let ghost r0 = r@;
                r.push(new_issue(Severity::Warning, "unclear-state-service-naming", m, s.file_path.clone()));
                assert(issue_facts(r@) =~= issue_facts(r0).push(crate::findings::issue_fact(r@.last())));
            }
            k += 1;
        }
        assert(issue_facts(r@) =~= state_findings(*p));
        r
    }

    /// Findings on components that inject services and never clean up.
    pub fn analyze_reactive_patterns(&self, p: &NgProject) -> (r: Vec<Issue>)
        ensures
            issue_facts(r@) == reactive_findings(p.components@, p.components@.len() as int),
            all_unpositioned(r@),
    {
        let needles = {
            let mut v: Vec<String> = Vec::new();
            v.push("service".to_owned());
            v.push("http".to_owned());
            assert(views(v@) =~= seq!["service"@, "http"@]);
            v
        };
        let cs = &p.components;
        let mut r: Vec<Issue> = Vec::new();
        let mut i: usize = 0;
        while i < cs.len()
            invariant
                0 <= i <= cs@.len(),
                cs == &p.components,
                views(needles@) == seq!["service"@, "http"@],
                issue_facts(r@) == reactive_findings(cs@, i as int),
                all_unpositioned(r@),
            decreases cs@.len() - i,
        {
            let c = &cs[i];
            if !contains_string(&c.lifecycle_hooks, &"ngOnDestroy".to_owned()) && any_holds_exec(&c.dependencies, &needles) {
                let m = text_with("Component '", c.name.as_str(), "' uses services but doesn't implement ngOnDestroy. This may lead to memory leaks from unsubscribed observables.");
                let ghost r0 = r@;
                r.push(new_issue(Severity::Warning, "missing-unsubscribe-pattern", m, c.file_path.clone()));
                assert(issue_facts(r@) =~= issue_facts(r0).push(crate::findings::issue_fact(r@.last())));
            }
            i += 1;
        }
        r
    }

    /// The finding on many state-heavy components with the default change
    /// detection.
    pub fn analyze_change_detection_impact(&self, p: &NgProject) -> (r: Vec<Issue>)
        ensures
            issue_facts(r@) == detection_findings(*p),
            all_unpositioned(r@),
    {
        let needles = words("state", "store", "service");
        let cs = &p.components;
        let ghost pred = |c: NgComponent| state_heavy(c);
        let mut n: usize = 0;
        let mut i: usize = 0;
        while i < cs.len()
            invariant
                0 <= i <= cs@.len(),
                views(needles@) == seq!["state"@, "store"@, "service"@],
                n == count_of(cs@, pred, i as int),
                pred == (|c: NgComponent| state_heavy(c)),
            decreases cs@.len() - i,
        {
            proof {
                lemma_count_of_bounded(cs@, pred, i as int);
            }
            if cs[i].change_detection == ChangeDetectionStrategy::Default && any_holds_exec(&cs[i].dependencies, &needles) {
                n += 1;
            }
            i += 1;
        }
        let mut r: Vec<Issue> = Vec::new();
        if n > 2 {
            let m = text_with_number("", n, " components use state services but have default change detection. Consider OnPush strategy for better performance.");
            r.push(new_issue(Severity::Warning, "state-change-detection-mismatch", m, p.root_path.clone()));
        }
        proof {
            reveal_strlit("");
        }
        assert(issue_facts(r@) =~= detection_findings(*p));
        r
    }

    /// The state advice over the project.
    pub fn generate_state_recommendations(&self, p: &NgProject) -> (r: Vec<Recommendation>)
        ensures
            advice_facts(r@) == state_advice(*p),
            all_general(r@),
    {
        let ix = self.identify_state_services(p);
        let ngrx = self.has_ngrx_pattern(p);
        let cs = &p.components;
        let ghost dp = |c: NgComponent| c.change_detection == ChangeDetectionStrategy::Default;
        let ghost np = |c: NgComponent| !views(c.lifecycle_hooks@).contains("ngOnDestroy"@);
        let destroy = "ngOnDestroy".to_owned();
        let mut defaults: usize = 0;
        let mut no_destroy: usize = 0;
        let mut i: usize = 0;
        while i < cs.len()
            invariant
                0 <= i <= cs@.len(),
                destroy@ == "ngOnDestroy"@,
                defaults == count_of(cs@, dp, i as int),
                no_destroy == count_of(cs@, np, i as int),
                dp == (|c: NgComponent| c.change_detection == ChangeDetectionStrategy::Default),
                np == (|c: NgComponent| !views(c.lifecycle_hooks@).contains("ngOnDestroy"@)),
            decreases cs@.len() - i,
        {
            proof {
                lemma_count_of_bounded(cs@, dp, i as int);
                lemma_count_of_bounded(cs@, np, i as int);
            }
            if cs[i].change_detection == ChangeDetectionStrategy::Default {
                defaults += 1;
            }
            if !contains_string(&cs[i].lifecycle_hooks, &destroy) {
                no_destroy += 1;
            }
            i += 1;
        }
        let mut r: Vec<Recommendation> = Vec::new();
        if ix.len() > 1 && !ngrx {
            let m = text_with_number("Consider implementing NgRx or Akita to centralize state management across ", ix.len(), " state services.");
            r.push(new_advice("State Management", "Centralize State Management", m, Priority::Medium));
        }
        if defaults > 0 && ix.len() > 0 {
            let m = text_with_number("Implement OnPush change detection strategy in ", defaults, " components that interact with state services.");
            r.push(new_advice("Performance", "Optimize Change Detection", m, Priority::High));
        }
        if no_destroy > 0 {
            let m = text_with_number("Implement ngOnDestroy in ", no_destroy, " components to prevent memory leaks from observables.");
            r.push(new_advice("Memory Management", "Implement Proper Cleanup", m, Priority::High));
        }
        assert(advice_facts(r@) =~= state_advice(*p));
        r
    }
}

} // verus!
