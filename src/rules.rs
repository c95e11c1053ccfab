//! The catalogue of rule definitions, and its categories in order.

use vstd::prelude::*;
use crate::analysis::views;
use crate::text::chars_of;

verus! {

#[verifier::external_type_specification]
#[verifier::external_body]
pub struct ExJsonValue(serde_json::Value);

/// Relies on serde_json's `From<u64>` for `Value`: the JSON number `n`.
#[verifier::external_body]
fn json_number(n: u64) -> (r: serde_json::Value) {
    serde_json::Value::from(n)
}

/// A setting that a rule takes.
#[derive(Debug)]
pub struct ConfigurableOption {
    pub name: String,
    pub description: String,
    pub option_type: String,
    pub default_value: serde_json::Value,
    pub possible_values: Option<Vec<serde_json::Value>>,
}

/// A rule of the catalogue.
#[derive(Debug)]
pub struct RuleDefinition {
    pub name: String,
    pub description: String,
    pub category: String,
    pub default_severity: String,
    pub configurable_options: Vec<ConfigurableOption>,
}

/// Each rule of the catalogue: name, description, category, default
/// severity, and the name of its numeric setting, if any.
pub open spec fn rule_table() -> Seq<(Seq<char>, Seq<char>, Seq<char>, Seq<char>, Option<Seq<char>>)> {
    seq![
        ("component-complexity"@, "Checks if component complexity exceeds threshold"@, "Code Quality"@, "warning"@, Some("max_complexity"@)),
        ("change-detection-strategy"@, "Suggests using OnPush change detection strategy"@, "Performance"@, "info"@, None),
        ("too-many-inputs"@, "Checks if component has too many input properties"@, "Code Quality"@, "warning"@, Some("max_inputs"@)),
        ("too-many-outputs"@, "Checks if component has too many output properties"@, "Code Quality"@, "warning"@, Some("max_outputs"@)),
        ("missing-cleanup-pattern"@, "Checks for proper cleanup patterns in components"@, "Memory Management"@, "warning"@, None),
        ("template-conflict"@, "Checks for conflicting template definitions"@, "Code Quality"@, "error"@, None),
        ("circular-dependency"@, "Detects circular dependencies between components and services"@, "Architecture"@, "error"@, None),
        ("unused-dependency"@, "Identifies unused dependencies"@, "Code Quality"@, "warning"@, None),
        ("deep-dependency-chain"@, "Checks for overly deep dependency chains"@, "Architecture"@, "warning"@, Some("max_depth"@)),
        ("consider-state-management"@, "Suggests centralized state management for complex applications"@, "Architecture"@, "info"@, Some("state_service_threshold"@)),
        ("missing-unsubscribe-pattern"@, "Checks for proper observable unsubscription patterns"@, "Memory Management"@, "warning"@, None),
        ("high-default-change-detection"@, "Warns about high usage of default change detection"@, "Performance"@, "warning"@, Some("threshold_percentage"@)),
        ("consider-lazy-loading"@, "Suggests implementing lazy loading for large applications"@, "Performance"@, "info"@, Some("component_threshold"@)),
        ("potential-memory-leak"@, "Identifies potential memory leak risks"@, "Memory Management"@, "warning"@, None),
        ("excessive-bindings"@, "Checks for excessive property and event bindings"@, "Performance"@, "warning"@, Some("max_bindings"@)),
    ]
}

/// The rule `r` is the catalogue entry `e`.
pub open spec fn rule_is(r: RuleDefinition, e: (Seq<char>, Seq<char>, Seq<char>, Seq<char>, Option<Seq<char>>)) -> bool {
    &&& r.name@ == e.0
    &&& r.description@ == e.1
    &&& r.category@ == e.2
    &&& r.default_severity@ == e.3
    &&& match e.4 {
        Some(o) => r.configurable_options@.len() == 1 && r.configurable_options@[0].name@ == o
            && r.configurable_options@[0].option_type@ == "number"@
            && r.configurable_options@[0].possible_values is None,
        None => r.configurable_options@.len() == 0,
    }
}

fn rule(name: &str, description: &str, category: &str, severity: &str) -> (r: RuleDefinition)
    ensures
        r.name@ == name@ && r.description@ == description@ && r.category@ == category@
            && r.default_severity@ == severity@ && r.configurable_options@.len() == 0,
{
    RuleDefinition {
        name: name.to_owned(),
        description: description.to_owned(),
        category: category.to_owned(),
        default_severity: severity.to_owned(),
        configurable_options: Vec::new(),
    }
}

fn rule_with(name: &str, description: &str, category: &str, severity: &str, option: &str, option_description: &str, default: u64) -> (r: RuleDefinition)
    ensures
        r.name@ == name@ && r.description@ == description@ && r.category@ == category@
            && r.default_severity@ == severity@ && r.configurable_options@.len() == 1
            && r.configurable_options@[0].name@ == option@ && r.configurable_options@[0].description@ == option_description@
            && r.configurable_options@[0].option_type@ == "number"@ && r.configurable_options@[0].possible_values is None,
{
    let mut options: Vec<ConfigurableOption> = Vec::new();
    options.push(ConfigurableOption {
        name: option.to_owned(),
        description: option_description.to_owned(),
        option_type: "number".to_owned(),
        default_value: json_number(default),
        possible_values: None,
    });
    RuleDefinition {
        name: name.to_owned(),
        description: description.to_owned(),
        category: category.to_owned(),
        default_severity: severity.to_owned(),
        configurable_options: options,
    }
}

/// Every rule of the catalogue, in catalogue order.
pub fn get_all_rule_definitions() -> (r: Vec<RuleDefinition>)
    ensures
        r@.len() == rule_table().len(),
        forall|i: int| 0 <= i < r@.len() ==> rule_is(#[trigger] r@[i], rule_table()[i]),
{
    let mut r: Vec<RuleDefinition> = Vec::new();
    r.push(rule_with("component-complexity", "Checks if component complexity exceeds threshold", "Code Quality", "warning", "max_complexity", "Maximum allowed complexity score", 10));
    r.push(rule("change-detection-strategy", "Suggests using OnPush change detection strategy", "Performance", "info"));
    r.push(rule_with("too-many-inputs", "Checks if component has too many input properties", "Code Quality", "warning", "max_inputs", "Maximum allowed number of inputs", 8));
    r.push(rule_with("too-many-outputs", "Checks if component has too many output properties", "Code Quality", "warning", "max_outputs", "Maximum allowed number of outputs", 5));
    r.push(rule("missing-cleanup-pattern", "Checks for proper cleanup patterns in components", "Memory Management", "warning"));
    r.push(rule("template-conflict", "Checks for conflicting template definitions", "Code Quality", "error"));
    r.push(rule("circular-dependency", "Detects circular dependencies between components and services", "Architecture", "error"));
    r.push(rule("unused-dependency", "Identifies unused dependencies", "Code Quality", "warning"));
    r.push(rule_with("deep-dependency-chain", "Checks for overly deep dependency chains", "Architecture", "warning", "max_depth", "Maximum allowed dependency depth", 5));
    r.push(rule_with("consider-state-management", "Suggests centralized state management for complex applications", "Architecture", "info", "state_service_threshold", "Number of state services before suggesting centralized management", 3));
    r.push(rule("missing-unsubscribe-pattern", "Checks for proper observable unsubscription patterns", "Memory Management", "warning"));
    r.push(rule_with("high-default-change-detection", "Warns about high usage of default change detection", "Performance", "warning", "threshold_percentage", "Percentage threshold for default change detection usage", 70));
    r.push(rule_with("consider-lazy-loading", "Suggests implementing lazy loading for large applications", "Performance", "info", "component_threshold", "Number of components before suggesting lazy loading", 10));
    r.push(rule("potential-memory-leak", "Identifies potential memory leak risks", "Memory Management", "warning"));
    r.push(rule_with("excessive-bindings", "Checks for excessive property and event bindings", "Performance", "warning", "max_bindings", "Maximum allowed number of bindings", 15));
    r
}

/// The catalogue entry named `name`, if any: the first such.
pub open spec fn first_rule_named(name: Seq<char>, n: int) -> Option<int>
    decreases n,
{
    if n <= 0 {
        None
    } else {
        match first_rule_named(name, n - 1) {
            Some(i) => Some(i),
            None => if rule_table()[n - 1].0 == name {
                Some(n - 1)
            } else {
                None
            },
        }
    }
}

/// The rule named `name`.
pub fn get_rule_definition(name: &str) -> (r: Option<RuleDefinition>)
    ensures
        match first_rule_named(name@, rule_table().len() as int) {
            Some(i) => r matches Some(d) && rule_is(d, rule_table()[i]),
            None => r is None,
        },
{
    let mut all = get_all_rule_definitions();
    let ghost table = rule_table();
    let mut i: usize = 0;
    let ghost orig = all@;
    while all.len() > 0
        invariant
            i + all@.len() == table.len(),
            all@ == orig.subrange(i as int, table.len() as int),
            orig.len() == table.len(),
            forall|j: int| 0 <= j < orig.len() ==> rule_is(#[trigger] orig[j], table[j]),
            first_rule_named(name@, i as int) is None,
            table == rule_table(),
        decreases all@.len(),
    {
        let d = all.remove(0);
        assert(d == orig[i as int]);
        if d.name == name.to_owned() {
            assert(first_rule_named(name@, i as int + 1) == Some(i as int));
            proof {
                lemma_first_found(name@, i as int, table.len() as int);
            }
            return Some(d);
        }
        i += 1;
        assert(all@ =~= orig.subrange(i as int, table.len() as int));
    }
    None
}

proof fn lemma_first_found(name: Seq<char>, i: int, n: int)
    requires
        0 <= i < n,
        first_rule_named(name, i + 1) == Some(i),
    ensures
        first_rule_named(name, n) == Some(i),
    decreases n - i,
{
    if n > i + 1 {
        lemma_first_found(name, i, n - 1);
    }
}

/// The positions of the catalogue entries among the first `n` in
/// `category`.
pub open spec fn rules_in(category: Seq<char>, n: int) -> Seq<int>
    decreases n,
{
    if n <= 0 {
        Seq::empty()
    } else {
        let prev = rules_in(category, n - 1);
        if rule_table()[n - 1].2 == category {
            prev.push(n - 1)
        } else {
            prev
        }
    }
}

/// The rules in `category`, in catalogue order.
pub fn get_rules_by_category(category: &str) -> (r: Vec<RuleDefinition>)
    ensures
        r@.len() == rules_in(category@, rule_table().len() as int).len(),
        forall|k: int|
            0 <= k < r@.len() ==> rule_is(#[trigger] r@[k], rule_table()[rules_in(category@, rule_table().len() as int)[k]]),
{
    let mut all = get_all_rule_definitions();
    let ghost table = rule_table();
    let ghost orig = all@;
    let wanted = category.to_owned();
    let mut kept: Vec<RuleDefinition> = Vec::new();
    let mut i: usize = 0;
    while all.len() > 0
        invariant
            i + all@.len() == table.len(),
            all@ == orig.subrange(i as int, table.len() as int),
            orig.len() == table.len(),
            forall|j: int| 0 <= j < orig.len() ==> rule_is(#[trigger] orig[j], table[j]),
            table == rule_table(),
            wanted@ == category@,
            kept@.len() == rules_in(category@, i as int).len(),
            forall|k: int| 0 <= k < rules_in(category@, i as int).len() ==> 0 <= #[trigger] rules_in(category@, i as int)[k] < i,
            forall|k: int| 0 <= k < kept@.len() ==> rule_is(#[trigger] kept@[k], table[rules_in(category@, i as int)[k]]),
        decreases all@.len(),
    {
        let d = all.remove(0);
        assert(d == orig[i as int]);
        if d.category == wanted {
            kept.push(d);
        }
        i += 1;
        assert(all@ =~= orig.subrange(i as int, table.len() as int));
    }
    kept
}

/// `a` comes before `b` in code point order.
pub open spec fn text_less(a: Seq<char>, b: Seq<char>) -> bool {
    exists|k: int|
        0 <= k <= a.len() && k <= b.len() && a.subrange(0, k) == b.subrange(0, k) && ((k < a.len() && k < b.len()
            && (a[k] as int) < (b[k] as int)) || (k == a.len() && k < b.len()))
}

/// Whether `a` comes before `b` in code point order, as `String`'s order
/// has it.
fn less_than(a: &str, b: &str) -> (r: bool)
    ensures
        r == text_less(a@, b@),
{
    let x = chars_of(a);
    let y = chars_of(b);
    let mut k: usize = 0;
    while k < x.len() && k < y.len() && x[k] == y[k]
        invariant
            x@ == a@,
            y@ == b@,
            0 <= k <= x@.len(),
            k <= y@.len(),
            x@.subrange(0, k as int) == y@.subrange(0, k as int),
        decreases x@.len() - k,
    {
        k += 1;
        assert(x@.subrange(0, k as int) =~= y@.subrange(0, k as int));
    }
    let r = if k < x.len() && k < y.len() {
        x[k] < y[k]
    } else {
        k == x.len() && k < y.len()
    };
    proof {
        if text_less(a@, b@) {
            let j = choose|j: int|
                0 <= j <= a@.len() && j <= b@.len() && a@.subrange(0, j) == b@.subrange(0, j) && ((j < a@.len() && j < b@.len()
                    && (a@[j] as int) < (b@[j] as int)) || (j == a@.len() && j < b@.len()));
            if j < k {
                assert(a@[j] == a@.subrange(0, k as int)[j]);
                assert(b@[j] == b@.subrange(0, k as int)[j]);
            } else if j > k {
                assert(a@[k as int] == a@.subrange(0, j)[k as int]);
                assert(b@[k as int] == b@.subrange(0, j)[k as int]);
            }
        }
    }
    r
}

proof fn lemma_less_total_from(a: Seq<char>, b: Seq<char>, k: int)
    requires
        a != b,
        0 <= k <= a.len(),
        k <= b.len(),
        a.subrange(0, k) == b.subrange(0, k),
    ensures
        text_less(a, b) || text_less(b, a),
    decreases a.len() - k,
{
    if k < a.len() && k < b.len() {
        if a[k] == b[k] {
            assert(a.subrange(0, k + 1) =~= b.subrange(0, k + 1));
            lemma_less_total_from(a, b, k + 1);
        } else if (a[k] as int) < (b[k] as int) {
            assert(text_less(a, b));
        } else {
            assert((a[k] as int) != (b[k] as int));
            assert(b.subrange(0, k) == a.subrange(0, k));
            assert(text_less(b, a));
        }
    } else if a.len() < b.len() {
        assert(text_less(a, b));
    } else if b.len() < a.len() {
        assert(b.subrange(0, k) == a.subrange(0, k));
        assert(text_less(b, a));
    } else {
        assert(a =~= b) by {
            assert(a.subrange(0, k) =~= a);
            assert(b.subrange(0, k) =~= b);
        }
    }
}

proof fn lemma_less_total(a: Seq<char>, b: Seq<char>)
    requires
        a != b,
    ensures
        text_less(a, b) || text_less(b, a),
{
    assert(a.subrange(0, 0) =~= b.subrange(0, 0));
    lemma_less_total_from(a, b, 0);
}

proof fn lemma_less_transitive(a: Seq<char>, b: Seq<char>, c: Seq<char>)
    requires
        text_less(a, b),
        text_less(b, c),
    ensures
        text_less(a, c),
{
    let j = choose|j: int|
        0 <= j <= a.len() && j <= b.len() && a.subrange(0, j) == b.subrange(0, j) && ((j < a.len() && j < b.len()
            && (a[j] as int) < (b[j] as int)) || (j == a.len() && j < b.len()));
    let k = choose|k: int|
        0 <= k <= b.len() && k <= c.len() && b.subrange(0, k) == c.subrange(0, k) && ((k < b.len() && k < c.len()
            && (b[k] as int) < (c[k] as int)) || (k == b.len() && k < c.len()));
    let m = if j < k { j } else { k };
    assert(a.subrange(0, m) =~= c.subrange(0, m)) by {
        assert forall|t: int| 0 <= t < m implies a[t] == c[t] by {
            assert(a[t] == a.subrange(0, j)[t]);
            assert(b[t] == b.subrange(0, j)[t]);
            assert(b[t] == b.subrange(0, k)[t]);
            assert(c[t] == c.subrange(0, k)[t]);
        }
    }
    if j < k {
        assert(b[j] == b.subrange(0, k)[j]);
        assert(c[j] == c.subrange(0, k)[j]);
        if j < a.len() {
            assert((a[j] as int) < (c[j] as int));
        }
        assert(text_less(a, c));
    } else if k < j {
        assert(a[k] == a.subrange(0, j)[k]);
        assert(b[k] == b.subrange(0, j)[k]);
        assert(text_less(a, c));
    } else {
        assert(text_less(a, c));
    }
}

/// Strictly increasing in code point order.
pub open spec fn strictly_sorted(s: Seq<Seq<char>>) -> bool {
    forall|i: int, j: int| 0 <= i < j < s.len() ==> text_less(#[trigger] s[i], #[trigger] s[j])
}

/// The categories of the first `n` catalogue entries.
pub open spec fn categories_upto(n: int) -> Seq<Seq<char>> {
    rule_table().subrange(0, n).map_values(|e: (Seq<char>, Seq<char>, Seq<char>, Seq<char>, Option<Seq<char>>)| e.2)
}

/// The categories of the catalogue, each once, in code point order.
pub fn get_available_categories() -> (r: Vec<String>)
    ensures
        strictly_sorted(views(r@)),
        forall|x: Seq<char>| #[trigger] views(r@).contains(x) <==> categories_upto(rule_table().len() as int).contains(x),
{
    let all = get_all_rule_definitions();
    let mut r: Vec<String> = Vec::new();
    let mut i: usize = 0;
    while i < all.len()
        invariant
            0 <= i <= all@.len(),
            all@.len() == rule_table().len(),
            forall|j: int| 0 <= j < all@.len() ==> rule_is(#[trigger] all@[j], rule_table()[j]),
            strictly_sorted(views(r@)),
            forall|x: Seq<char>| #[trigger] views(r@).contains(x) <==> categories_upto(i as int).contains(x),
        decreases all@.len() - i,
    {
        let c = &all[i].category;
        let ghost before = views(r@);
        assert(categories_upto(i as int + 1) =~= categories_upto(i as int).push(c@));
        let mut pos: usize = 0;
        while pos < r.len() && less_than(r[pos].as_str(), c.as_str())
            invariant
                0 <= pos <= r@.len(),
                views(r@) == before,
                forall|t: int| 0 <= t < pos ==> text_less(#[trigger] before[t], c@),
            decreases r@.len() - pos,
        {
            pos += 1;
        }
        if pos < r.len() && r[pos] == *c {
            assert(before[pos as int] == c@);
        } else {
            proof {
                if pos < before.len() {
                    lemma_less_total(before[pos as int], c@);
                }
            }
            r.insert(pos, c.clone());
            proof {
                let now = views(r@);
                assert(now =~= before.insert(pos as int, c@));
                assert forall|a: int, b: int| 0 <= a < b < now.len() implies text_less(#[trigger] now[a], #[trigger] now[b]) by {
                    if b < pos {
                        assert(now[a] == before[a] && now[b] == before[b]);
                    } else if b == pos {
                        assert(now[a] == before[a]);
                    } else if a == pos {
                        assert(now[b] == before[b - 1]);
                        if b - 1 > pos {
                            lemma_less_transitive(c@, before[pos as int], before[b - 1]);
                        }
                    } else if a < pos {
                        assert(now[a] == before[a] && now[b] == before[b - 1]);
                    } else {
                        assert(now[a] == before[a - 1] && now[b] == before[b - 1]);
                    }
                }
                assert forall|x: Seq<char>| #[trigger] now.contains(x) <==> (before.contains(x) || x == c@) by {
                    if now.contains(x) {
                        let t = choose|t: int| 0 <= t < now.len() && now[t] == x;
                        if t < pos {
                            assert(before[t] == x);
                        } else if t > pos {
                            assert(before[t - 1] == x);
                        }
                    }
                    if before.contains(x) {
                        let t = choose|t: int| 0 <= t < before.len() && before[t] == x;
                        if t < pos {
                            assert(now[t] == x);
                        } else {
                            assert(now[t + 1] == x);
                        }
                    }
                    if x == c@ {
                        assert(now[pos as int] == x);
                    }
                }
            }
        }
        proof {
            assert forall|x: Seq<char>| #[trigger] views(r@).contains(x) <==> categories_upto(i as int + 1).contains(x) by {
                let cu = categories_upto(i as int);
                let cn = categories_upto(i as int + 1);
                if cn.contains(x) {
                    let t = choose|t: int| 0 <= t < cn.len() && cn[t] == x;
                    if t < i {
                        assert(cu[t] == x);
                    }
                }
                if cu.contains(x) {
                    let t = choose|t: int| 0 <= t < cu.len() && cu[t] == x;
                    assert(cn[t] == x);
                }
                if x == c@ {
                    assert(cn[i as int] == x);
                }
            }
        }
        i += 1;
    }
    r
}

} // verus!
