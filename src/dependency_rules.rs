//! Rule checks on the injected dependencies between components and
//! services: cycles, dependencies nothing provides, deep chains.

use vstd::prelude::*;
use crate::analysis::{contains_string, file_depth, has_edge, is_file_id, views};
use crate::cycles::{acyclic, find_circular_dependencies, is_cycle};
use crate::findings::{
    all_general, all_unpositioned, advice_facts, issue_facts, new_advice, new_issue, text_with,
    AdviceFact, IssueFact,
};
use crate::graph::find_dependency;
use crate::model::{
    Dependency, FileInfo, FileType, ImportExportGraph, ImportType, Issue, NgProject, Priority,
    Recommendation, Severity,
};
use crate::text::{append_str, decimal, forward_slashes, normalize_path, push_decimal};

verus! {

/// The names of the components, then of the services.
pub open spec fn entity_names(p: NgProject) -> Seq<Seq<char>> {
    p.components@.map_values(|c: crate::model::NgComponent| c.name@) + p.services@.map_values(
        |s: crate::model::NgService| s.name@,
    )
}

/// The dependencies of the components, then of the services.
pub open spec fn entity_deps(p: NgProject) -> Seq<Seq<Seq<char>>> {
    p.components@.map_values(|c: crate::model::NgComponent| views(c.dependencies@)) + p.services@.map_values(
        |s: crate::model::NgService| views(s.dependencies@),
    )
}

/// Some entity named `a` depends on the entity named `b`.
pub open spec fn entity_edge(p: NgProject, a: Seq<char>, b: Seq<char>) -> bool {
    exists|i: int|
        0 <= i < entity_names(p).len() && #[trigger] entity_names(p)[i] == a && entity_deps(p)[i].contains(b)
            && entity_names(p).contains(b)
}

/// `g` is the graph of the entities: one node per entity name, with an edge
/// wherever an entity depends on another entity.
pub open spec fn is_entity_graph(p: NgProject, g: ImportExportGraph) -> bool {
    &&& g.wf()
    &&& forall|x: Seq<char>| #[trigger] is_file_id(g, x) <==> entity_names(p).contains(x)
    &&& forall|a: Seq<char>, b: Seq<char>| #[trigger] has_edge(g, a, b) <==> entity_edge(p, a, b)
}

fn entity_list(p: &NgProject) -> (r: Vec<(String, Vec<String>)>)
    ensures
        r@.len() == entity_names(*p).len(),
        forall|i: int|
            0 <= i < r@.len() ==> (#[trigger] r@[i]).0@ == entity_names(*p)[i] && views(r@[i].1@)
                == entity_deps(*p)[i],
{
    let mut r: Vec<(String, Vec<String>)> = Vec::new();
    let nc = p.components.len();
    let mut i: usize = 0;
    while i < nc
        invariant
            nc == p.components@.len(),
            0 <= i <= nc,
            r@.len() == i,
            forall|j: int|
                0 <= j < i ==> (#[trigger] r@[j]).0@ == p.components@[j].name@ && views(r@[j].1@) == views(
                    p.components@[j].dependencies@,
                ),
        decreases nc - i,
    {
        r.push((p.components[i].name.clone(), crate::graph::clone_strings(&p.components[i].dependencies)));
        i += 1;
    }
    let mut k: usize = 0;
    while k < p.services.len()
        invariant
            nc == p.components@.len(),
            0 <= k <= p.services@.len(),
            r@.len() == nc + k,
            forall|j: int|
                0 <= j < nc ==> (#[trigger] r@[j]).0@ == p.components@[j].name@ && views(r@[j].1@) == views(
                    p.components@[j].dependencies@,
                ),
            forall|j: int|
                0 <= j < k ==> (#[trigger] r@[nc + j]).0@ == p.services@[j].name@ && views(r@[nc + j].1@)
                    == views(p.services@[j].dependencies@),
        decreases p.services@.len() - k,
    {
        r.push((p.services[k].name.clone(), crate::graph::clone_strings(&p.services[k].dependencies)));
        k += 1;
    }
    proof {
        assert forall|i: int| 0 <= i < r@.len() implies (#[trigger] r@[i]).0@ == entity_names(*p)[i] && views(r@[i].1@)
            == entity_deps(*p)[i] by {
            if i >= nc {
                assert(r@[nc + (i - nc)] == r@[i]);
            }
        }
    }
    r
}

/// The names of the entities in `l`.
pub open spec fn list_names(l: Seq<(String, Vec<String>)>) -> Seq<Seq<char>> {
    l.map_values(|e: (String, Vec<String>)| e.0@)
}

/// The entry at `i` of `l` depends, through its dependency at `k`, on `b`,
/// which is a name of `l`.
pub open spec fn depends_at(l: Seq<(String, Vec<String>)>, i: int, k: int, b: Seq<char>) -> bool {
    0 <= i < l.len() && 0 <= k < l[i].1@.len() && l[i].1@[k]@ == b && list_names(l).contains(b)
}

/// Some dependency before position `k` of entry `i`, or of an earlier entry,
/// leads from `a` to `b`.
pub open spec fn seen_before(l: Seq<(String, Vec<String>)>, i: int, k: int, a: Seq<char>, b: Seq<char>) -> bool {
    exists|i2: int, k2: int|
        #![trigger depends_at(l, i2, k2, b), l[i2]]
        depends_at(l, i2, k2, b) && l[i2].0@ == a && (i2 < i || (i2 == i && k2 < k))
}

fn entity_graph(l: &Vec<(String, Vec<String>)>) -> (g: ImportExportGraph)
    ensures
        g.wf(),
        forall|x: Seq<char>| #[trigger] is_file_id(g, x) <==> list_names(l@).contains(x),
        forall|a: Seq<char>, b: Seq<char>|
            #[trigger] has_edge(g, a, b) <==> seen_before(l@, l@.len() as int, 0, a, b),
{
    let mut files: Vec<FileInfo> = Vec::new();
    let mut ids: Vec<String> = Vec::new();
    let mut i: usize = 0;
    while i < l.len()
        invariant
            0 <= i <= l@.len(),
            files@.len() == ids@.len(),
            forall|j: int| 0 <= j < files@.len() ==> (#[trigger] files@[j]).id@ == ids@[j]@,
            views(ids@).no_duplicates(),
            forall|x: Seq<char>| #[trigger] views(ids@).contains(x) <==> list_names(l@).subrange(0, i as int).contains(x),
        decreases l@.len() - i,
    {
        let name = &l[i].0;
        let ghost before = views(ids@);
        let ghost names_i = list_names(l@).subrange(0, i as int);
        let ghost names_n = list_names(l@).subrange(0, i as int + 1);
        assert(names_n =~= names_i.push(name@));
        assert(forall|x: Seq<char>| #[trigger] before.contains(x) <==> names_i.contains(x));
        if !contains_string(&ids, name) {
            ids.push(name.clone());
            files.push(FileInfo {
                id: name.clone(),
                file_path: name.clone(),
                relative_path: name.clone(),
                file_type: FileType::Module,
                exports: Vec::new(),
                imports: Vec::new(),
            });
            assert(views(ids@) =~= before.push(name@));
        } else {
            assert(views(ids@) == before);
        }
        assert forall|x: Seq<char>| #[trigger] views(ids@).contains(x) <==> names_n.contains(x) by {
            assert(names_n[i as int] == name@);
            if names_n.contains(x) {
                let t = choose|t: int| 0 <= t < names_n.len() && names_n[t] == x;
                if t < i {
                    assert(names_i[t] == x);
                    assert(before.contains(x));
                    let u = choose|u: int| 0 <= u < before.len() && before[u] == x;
                    assert(views(ids@)[u] == x);
                } else {
                    assert(x == name@);
                    if views(ids@) == before {
                        assert(before.contains(name@));
                    } else {
                        assert(views(ids@)[views(ids@).len() - 1] == x);
                    }
                }
            }
            if views(ids@).contains(x) {
                let t = choose|t: int| 0 <= t < views(ids@).len() && views(ids@)[t] == x;
                if t < before.len() {
                    assert(before[t] == x);
                    assert(before.contains(x));
                    assert(names_i.contains(x));
                    let u = choose|u: int| 0 <= u < names_i.len() && names_i[u] == x;
                    assert(names_n[u] == x);
                } else {
                    assert(x == name@);
                }
            }
        }
        i += 1;
    }
    assert(list_names(l@).subrange(0, l@.len() as int) =~= list_names(l@));
    let mut deps: Vec<Dependency> = Vec::new();
    i = 0;
    while i < l.len()
        invariant
            0 <= i <= l@.len(),
            files@.len() == ids@.len(),
            forall|j: int| 0 <= j < files@.len() ==> (#[trigger] files@[j]).id@ == ids@[j]@,
            views(ids@).no_duplicates(),
            forall|x: Seq<char>| #[trigger] views(ids@).contains(x) <==> list_names(l@).contains(x),
            forall|e: int|
                0 <= e < deps@.len() ==> views(ids@).contains((#[trigger] deps@[e]).from_file@) && views(
                    ids@,
                ).contains(deps@[e].to_file@),
            forall|e: int, f: int|
                0 <= e < deps@.len() && 0 <= f < deps@.len() && e != f ==> !(#[trigger] deps@[e].from_file@
                    == #[trigger] deps@[f].from_file@ && deps@[e].to_file@ == deps@[f].to_file@),
            forall|a: Seq<char>, b: Seq<char>|
                (exists|e: int| 0 <= e < deps@.len() && #[trigger] deps@[e].from_file@ == a && deps@[e].to_file@ == b)
                    <==> #[trigger] seen_before(l@, i as int, 0, a, b),
        decreases l@.len() - i,
    {
        let name = &l[i].0;
        let ds = &l[i].1;
        let mut k: usize = 0;
        while k < ds.len()
            invariant
                0 <= i < l@.len(),
                files@.len() == ids@.len(),
                forall|j: int| 0 <= j < files@.len() ==> (#[trigger] files@[j]).id@ == ids@[j]@,
                views(ids@).no_duplicates(),
                name == &l@[i as int].0,
                ds == &l@[i as int].1,
                0 <= k <= ds@.len(),
                forall|x: Seq<char>| #[trigger] views(ids@).contains(x) <==> list_names(l@).contains(x),
                forall|e: int|
                    0 <= e < deps@.len() ==> views(ids@).contains((#[trigger] deps@[e]).from_file@) && views(
                        ids@,
                    ).contains(deps@[e].to_file@),
                forall|e: int, f: int|
                    0 <= e < deps@.len() && 0 <= f < deps@.len() && e != f ==> !(#[trigger] deps@[e].from_file@
                        == #[trigger] deps@[f].from_file@ && deps@[e].to_file@ == deps@[f].to_file@),
                forall|a: Seq<char>, b: Seq<char>|
                    (exists|e: int| 0 <= e < deps@.len() && #[trigger] deps@[e].from_file@ == a && deps@[e].to_file@ == b)
                        <==> #[trigger] seen_before(l@, i as int, k as int, a, b),
            decreases ds@.len() - k,
        {
            let d = &ds[k];
            let ghost old_deps = deps@;
            let known = contains_string(&ids, d);
            proof {
                assert(list_names(l@)[i as int] == name@);
                assert(list_names(l@).contains(name@));
            }
            if known {
                match find_dependency(&deps, name, d) {
                    Some(_) => {},
                    None => {
                        deps.push(Dependency {
                            from_file: name.clone(),
                            to_file: d.clone(),
                            import_type: ImportType::Named,
                            imported_symbols: Vec::new(),
                            line_number: None,
                        });
                    },
                }
            }
            proof {
                assert forall|a: Seq<char>, b: Seq<char>|
                    (exists|e: int| 0 <= e < deps@.len() && #[trigger] deps@[e].from_file@ == a && deps@[e].to_file@ == b)
                        <==> #[trigger] seen_before(l@, i as int, k as int + 1, a, b) by {
                    let now = seen_before(l@, i as int, k as int + 1, a, b);
                    let was = seen_before(l@, i as int, k as int, a, b);
                    let here = depends_at(l@, i as int, k as int, b) && name@ == a;
                    assert(here ==> now);
                    if now && !was {
                        let (i2, k2) = choose|i2: int, k2: int|
                            #![trigger depends_at(l@, i2, k2, b), l@[i2]]
                            depends_at(l@, i2, k2, b) && l@[i2].0@ == a && (i2 < i || (i2 == i && k2 < k + 1));
                        assert(i2 == i && k2 == k);
                    }
                    if was {
                        let (i2, k2) = choose|i2: int, k2: int|
                            #![trigger depends_at(l@, i2, k2, b), l@[i2]]
                            depends_at(l@, i2, k2, b) && l@[i2].0@ == a && (i2 < i || (i2 == i && k2 < k));
                        assert(depends_at(l@, i2, k2, b) && l@[i2].0@ == a && (i2 < i || (i2 == i && k2 < k + 1)));
                    }
                    if exists|e: int| 0 <= e < old_deps.len() && #[trigger] old_deps[e].from_file@ == a && old_deps[e].to_file@ == b {
                        let e = choose|e: int| 0 <= e < old_deps.len() && #[trigger] old_deps[e].from_file@ == a && old_deps[e].to_file@ == b;
                        assert(deps@[e] == old_deps[e]);
                    }
                    if exists|e: int| 0 <= e < deps@.len() && #[trigger] deps@[e].from_file@ == a && deps@[e].to_file@ == b {
                        let e = choose|e: int| 0 <= e < deps@.len() && #[trigger] deps@[e].from_file@ == a && deps@[e].to_file@ == b;
                        if e < old_deps.len() {
                            assert(old_deps[e] == deps@[e]);
                        }
                    }
                    if here && !(exists|e: int| 0 <= e < old_deps.len() && #[trigger] old_deps[e].from_file@ == a && old_deps[e].to_file@ == b) {
                        assert(known);
                        assert(deps@[deps@.len() - 1].from_file@ == a);
                    }
                }
                assert forall|e: int, f: int|
                    0 <= e < deps@.len() && 0 <= f < deps@.len() && e != f implies !(#[trigger] deps@[e].from_file@
                        == #[trigger] deps@[f].from_file@ && deps@[e].to_file@ == deps@[f].to_file@) by {
                    if e < old_deps.len() && f < old_deps.len() {
                        assert(deps@[e] == old_deps[e] && deps@[f] == old_deps[f]);
                    } else if e < old_deps.len() {
                        assert(deps@[e] == old_deps[e]);
                    } else if f < old_deps.len() {
                        assert(deps@[f] == old_deps[f]);
                    }
                }
                assert forall|e: int| 0 <= e < deps@.len() implies views(ids@).contains((#[trigger] deps@[e]).from_file@)
                    && views(ids@).contains(deps@[e].to_file@) by {
                    if e < old_deps.len() {
                        assert(deps@[e] == old_deps[e]);
                    }
                }
            }
            k += 1;
        }
        proof {
            assert(k == ds@.len());
            assert forall|a: Seq<char>, b: Seq<char>|
                (exists|e: int| 0 <= e < deps@.len() && #[trigger] deps@[e].from_file@ == a && deps@[e].to_file@ == b)
                    <==> #[trigger] seen_before(l@, i as int + 1, 0, a, b) by {
                assert((exists|e: int| 0 <= e < deps@.len() && #[trigger] deps@[e].from_file@ == a && deps@[e].to_file@ == b)
                    <==> seen_before(l@, i as int, k as int, a, b));
                if seen_before(l@, i as int + 1, 0, a, b) {
                    let (i2, k2) = choose|i2: int, k2: int|
                        #![trigger depends_at(l@, i2, k2, b), l@[i2]]
                        depends_at(l@, i2, k2, b) && l@[i2].0@ == a && (i2 < i + 1 || (i2 == i + 1 && k2 < 0));
                    assert(depends_at(l@, i2, k2, b) && l@[i2].0@ == a && (i2 < i || (i2 == i && k2 < k)));
                }
                if seen_before(l@, i as int, k as int, a, b) {
                    let (i2, k2) = choose|i2: int, k2: int|
                        #![trigger depends_at(l@, i2, k2, b), l@[i2]]
                        depends_at(l@, i2, k2, b) && l@[i2].0@ == a && (i2 < i || (i2 == i && k2 < k));
                    assert(depends_at(l@, i2, k2, b) && l@[i2].0@ == a && (i2 < i + 1 || (i2 == i + 1 && k2 < 0)));
                }
            }
        }
        i += 1;
    }
    let g = ImportExportGraph { files, dependencies: deps, exports: Vec::new(), imports: Vec::new() };
    proof {
        assert forall|x: Seq<char>| #[trigger] is_file_id(g, x) <==> views(ids@).contains(x) by {
            if is_file_id(g, x) {
                let j = choose|j: int| 0 <= j < g.files@.len() && #[trigger] g.files@[j].id@ == x;
                assert(views(ids@)[j] == x);
            }
            if views(ids@).contains(x) {
                let j = choose|j: int| 0 <= j < views(ids@).len() && views(ids@)[j] == x;
                assert(g.files@[j].id@ == x);
            }
        }
        assert forall|p: int, q: int|
            0 <= p < g.files@.len() && 0 <= q < g.files@.len() && p != q implies #[trigger] g.files@[p].id@
                != #[trigger] g.files@[q].id@ by {
            assert(views(ids@)[p] == g.files@[p].id@);
            assert(views(ids@)[q] == g.files@[q].id@);
        }
        assert forall|a: Seq<char>, b: Seq<char>| #[trigger] has_edge(g, a, b) <==> seen_before(l@, l@.len() as int, 0, a, b) by {
            if has_edge(g, a, b) {
                let e = choose|e: int| 0 <= e < g.dependencies@.len() && #[trigger] g.dependencies@[e].from_file@ == a && g.dependencies@[e].to_file@ == b;
                assert(exists|e: int| 0 <= e < g.dependencies@.len() && #[trigger] g.dependencies@[e].from_file@ == a && g.dependencies@[e].to_file@ == b);
            }
        }
    }
    g
}

proof fn lemma_list_edges(p: NgProject, l: Seq<(String, Vec<String>)>, a: Seq<char>, b: Seq<char>)
    requires
        l.len() == entity_names(p).len(),
        forall|i: int| 0 <= i < l.len() ==> (#[trigger] l[i]).0@ == entity_names(p)[i] && views(l[i].1@) == entity_deps(p)[i],
    ensures
        seen_before(l, l.len() as int, 0, a, b) == entity_edge(p, a, b),
        list_names(l) == entity_names(p),
{
    assert(list_names(l) =~= entity_names(p));
    if seen_before(l, l.len() as int, 0, a, b) {
        let (i2, k2) = choose|i2: int, k2: int|
            #![trigger depends_at(l, i2, k2, b), l[i2]]
            depends_at(l, i2, k2, b) && l[i2].0@ == a && (i2 < l.len() || (i2 == l.len() && k2 < 0));
        assert(views(l[i2].1@)[k2] == b);
        assert(entity_deps(p)[i2].contains(b));
        assert(entity_names(p)[i2] == a);
    }
    if entity_edge(p, a, b) {
        let i = choose|i: int|
            0 <= i < entity_names(p).len() && #[trigger] entity_names(p)[i] == a && entity_deps(p)[i].contains(b)
                && entity_names(p).contains(b);
        let k = choose|k: int| 0 <= k < views(l[i].1@).len() && views(l[i].1@)[k] == b;
        assert(depends_at(l, i, k, b));
        assert(l[i].0@ == a);
    }
}

/// The parts joined with `sep` between each two.
pub open spec fn joined(parts: Seq<Seq<char>>, sep: Seq<char>) -> Seq<char>
    decreases parts.len(),
{
    if parts.len() == 0 {
        Seq::empty()
    } else if parts.len() == 1 {
        parts[0]
    } else {
        joined(parts.drop_last(), sep) + sep + parts.last()
    }
}

pub(crate) fn join_strings(parts: &Vec<String>, sep: &str) -> (r: String)
    ensures
        r@ == joined(views(parts@), sep@),
{
    let mut r = String::new();
    let mut i: usize = 0;
    while i < parts.len()
        invariant
            0 <= i <= parts@.len(),
            r@ == joined(views(parts@).subrange(0, i as int), sep@),
        decreases parts@.len() - i,
    {
        let ghost pre = views(parts@).subrange(0, i as int);
        let ghost nxt = views(parts@).subrange(0, i as int + 1);
        assert(nxt.drop_last() =~= pre);
        if i > 0 {
            append_str(&mut r, sep);
        }
        append_str(&mut r, parts[i].as_str());
        proof {
            if i == 0 {
                assert(r@ =~= nxt[0]);
            }
        }
        i += 1;
    }
    assert(views(parts@).subrange(0, parts@.len() as int) =~= views(parts@));
    r
}

/// `r` reports, one finding each, cycles `cs` of the entity graph `g`, none
/// of them exactly when the entity graph has no cycle.
pub open spec fn reports_cycles(p: NgProject, g: ImportExportGraph, cs: Seq<Seq<Seq<char>>>, r: Seq<Issue>) -> bool {
    &&& is_entity_graph(p, g)
    &&& cs.len() == r.len()
    &&& (cs.len() == 0 <==> acyclic(g))
    &&& forall|k: int|
        0 <= k < cs.len() ==> is_cycle(g, #[trigger] cs[k]) && crate::findings::issue_fact(r[k]) == (
            Severity::Error,
            "circular-dependency"@,
            "Circular dependency detected: "@ + joined(cs[k], " -> "@),
            forward_slashes(p.root_path@),
        )
}

/// The names that components depend on, in order, with repeats.
pub open spec fn component_dep_names(cs: Seq<crate::model::NgComponent>, n: int) -> Seq<Seq<char>>
    decreases n,
{
    if n <= 0 {
        Seq::empty()
    } else {
        component_dep_names(cs, n - 1) + views(cs[n - 1].dependencies@)
    }
}

/// A name that some service depends on.
pub open spec fn service_dep(p: NgProject, x: Seq<char>) -> bool {
    exists|i: int| 0 <= i < p.services@.len() && views((#[trigger] p.services@[i]).dependencies@).contains(x)
}

/// A dependency that nothing uses: no service depends on it and no entity
/// has its name.
pub open spec fn is_unused(p: NgProject, x: Seq<char>) -> bool {
    !service_dep(p, x) && !entity_names(p).contains(x)
}

/// The distinct unused names among the first `n` of `deps`, in order of
/// first occurrence.
pub open spec fn unused_upto(p: NgProject, deps: Seq<Seq<char>>, n: int) -> Seq<Seq<char>>
    decreases n,
{
    if n <= 0 {
        Seq::empty()
    } else {
        let prev = unused_upto(p, deps, n - 1);
        let x = deps[n - 1];
        if !prev.contains(x) && is_unused(p, x) {
            prev.push(x)
        } else {
            prev
        }
    }
}

/// The unused dependencies of the project's components.
pub open spec fn unused_dependencies(p: NgProject) -> Seq<Seq<char>> {
    let deps = component_dep_names(p.components@, p.components@.len() as int);
    unused_upto(p, deps, deps.len() as int)
}

/// The pairs (entity name, name it depends on) of the first `n` entities,
/// entity by entity, known or not.
pub open spec fn edge_pairs(names: Seq<Seq<char>>, deps: Seq<Seq<Seq<char>>>, n: int) -> Seq<(Seq<char>, Seq<char>)>
    decreases n,
{
    if n <= 0 {
        Seq::empty()
    } else {
        edge_pairs(names, deps, n - 1) + deps[n - 1].map_values(|d: Seq<char>| (names[n - 1], d))
    }
}

/// The ends of each dependency of `e`.
pub open spec fn pair_views(e: Seq<Dependency>) -> Seq<(Seq<char>, Seq<char>)> {
    e.map_values(|d: Dependency| (d.from_file@, d.to_file@))
}

/// The deepest dependency chain from the entity named `name` over the
/// edges `e`, counting each distinct name along the chain.
pub open spec fn chain_depth(e: Seq<Dependency>, name: Seq<char>) -> nat {
    file_depth(e, name, Seq::empty(), (e.len() + 1) as nat)
}

/// The component's dependency chain is longer than five.
pub open spec fn deep_finding(c: crate::model::NgComponent, d: nat) -> IssueFact {
    (Severity::Warning, "deep-dependency-chain"@, "Component '"@ + c.name@ + "' has dependency depth of "@
        + decimal(d) + ", which exceeds recommended maximum of 5"@, c.file_path@)
}

/// Checks the dependencies between components and services.
pub struct DependencyAnalyzer;

impl DependencyAnalyzer {
    pub fn new() -> (r: Self) {
        DependencyAnalyzer
    }

    /// A finding for each cycle met among the entities' dependencies.
    pub fn analyze_circular_dependencies(&self, p: &NgProject) -> (r: Vec<Issue>)
        ensures
            exists|g: ImportExportGraph, cs: Seq<Seq<Seq<char>>>| reports_cycles(*p, g, cs, r@),
            all_unpositioned(r@),
    {
        let l = entity_list(p);
        let g = entity_graph(&l);
        proof {
            assert forall|a: Seq<char>, b: Seq<char>| #[trigger] has_edge(g, a, b) <==> entity_edge(*p, a, b) by {
                lemma_list_edges(*p, l@, a, b);
            }
            lemma_list_edges(*p, l@, Seq::empty(), Seq::empty());
        }
        let cycles = find_circular_dependencies(&g);
        let root = normalize_path(p.root_path.as_str());
        let mut r: Vec<Issue> = Vec::new();
        let ghost mut cs: Seq<Seq<Seq<char>>> = Seq::empty();
        let mut k: usize = 0;
        while k < cycles.len()
            invariant
                0 <= k <= cycles@.len(),
                root@ == forward_slashes(p.root_path@),
                is_entity_graph(*p, g),
                cycles@.len() == 0 <==> acyclic(g),
                forall|a: int|
                    0 <= a < cycles@.len() ==> is_cycle(g, views((#[trigger] cycles@[a]).cycle@)),
                cs.len() == k,
                r@.len() == k,
                all_unpositioned(r@),
                forall|a: int| 0 <= a < k ==> #[trigger] cs[a] == views(cycles@[a].cycle@),
                forall|a: int|
                    0 <= a < k ==> crate::findings::issue_fact(#[trigger] r@[a]) == (
                        Severity::Error,
                        "circular-dependency"@,
                        "Circular dependency detected: "@ + joined(cs[a], " -> "@),
                        forward_slashes(p.root_path@),
                    ),
            decreases cycles@.len() - k,
        {
            let chain = join_strings(&cycles[k].cycle, " -> ");
            let m = text_with("Circular dependency detected: ", chain.as_str(), "");
            proof {
                reveal_strlit("");
                assert(m@ =~= "Circular dependency detected: "@ + chain@);
            }
            r.push(new_issue(Severity::Error, "circular-dependency", m, root.clone()));
            proof {
                cs = cs.push(views(cycles@[k as int].cycle@));
            }
            k += 1;
        }
        assert(reports_cycles(*p, g, cs, r@));
        r
    }
}

proof fn lemma_unused_prefix(p: NgProject, s: Seq<Seq<char>>, x: Seq<char>, n: int)
    requires
        0 <= n <= s.len(),
    ensures
        unused_upto(p, s.push(x), n) == unused_upto(p, s, n),
    decreases n,
{
    if n > 0 {
        lemma_unused_prefix(p, s, x, n - 1);
        assert(s.push(x)[n - 1] == s[n - 1]);
    }
}

fn names_contain(l: &Vec<(String, Vec<String>)>, x: &String) -> (r: bool)
    ensures
        r == list_names(l@).contains(x@),
{
    let mut i: usize = 0;
    while i < l.len()
        invariant
            0 <= i <= l@.len(),
            forall|j: int| 0 <= j < i ==> l@[j].0@ != x@,
        decreases l@.len() - i,
    {
        if l[i].0 == *x {
            assert(list_names(l@)[i as int] == x@);
            return true;
        }
        i += 1;
    }
    proof {
        if list_names(l@).contains(x@) {
            let j = choose|j: int| 0 <= j < list_names(l@).len() && list_names(l@)[j] == x@;
        }
    }
    false
}

fn some_service_depends_on(p: &NgProject, x: &String) -> (r: bool)
    ensures
        r == service_dep(*p, x@),
{
    let mut i: usize = 0;
    while i < p.services.len()
        invariant
            0 <= i <= p.services@.len(),
            forall|j: int| 0 <= j < i ==> !views((#[trigger] p.services@[j]).dependencies@).contains(x@),
        decreases p.services@.len() - i,
    {
        if contains_string(&p.services[i].dependencies, x) {
            return true;
        }
        i += 1;
    }
    false
}

/// The findings on components whose dependency chain is deeper than five,
/// among the first `n` components, in order.
pub open spec fn deep_findings(cs: Seq<crate::model::NgComponent>, e: Seq<Dependency>, n: int) -> Seq<IssueFact>
    decreases n,
{
    if n <= 0 {
        Seq::empty()
    } else {
        let prev = deep_findings(cs, e, n - 1);
        let d = chain_depth(e, cs[n - 1].name@);
        if d > 5 {
            prev.push(deep_finding(cs[n - 1], d))
        } else {
            prev
        }
    }
}

/// The advice over the project's dependencies: add services where there
/// are several components and none, and reduce coupling where entities
/// average more than five dependencies (shown to one decimal).
pub open spec fn dependency_advice(components: nat, services: nat, total: nat) -> Seq<AdviceFact> {
    let a: Seq<AdviceFact> = if services == 0 && components > 3 {
        seq![("Architecture"@, "Consider Adding Services"@,
            "Your project has multiple components but no services. Consider extracting shared logic into services."@,
            Priority::Medium)]
    } else {
        Seq::empty()
    };
    let n = components + services;
    let b: Seq<AdviceFact> = if n > 0 && total > 5 * n {
        seq![("Dependency Management"@, "High Dependency Coupling"@, "Average dependency count is "@
            + tenths_text(total, n) + ". Consider reducing coupling between components and services."@,
            Priority::Medium)]
    } else {
        Seq::empty()
    };
    a + b
}

/// `total / n` rounded to tenths, half up, written with one decimal.
pub open spec fn tenths_text(total: nat, n: nat) -> Seq<char> {
    let t = ((20 * total + n) / (2 * n)) as nat;
    decimal(t / 10) + "."@ + decimal(t % 10)
}

/// The total number of dependencies of the first `n` entities.
pub open spec fn dep_total(deps: Seq<Seq<Seq<char>>>, n: int) -> nat
    decreases n,
{
    if n <= 0 {
        0
    } else {
        dep_total(deps, n - 1) + deps[n - 1].len()
    }
}

impl DependencyAnalyzer {
    /// A finding for each distinct dependency of a component that no
    /// service depends on and no entity provides, in order of first
    /// mention.
    pub fn analyze_unused_dependencies(&self, p: &NgProject) -> (r: Vec<Issue>)
        ensures
            r@.len() == unused_dependencies(*p).len(),
            forall|k: int|
                0 <= k < r@.len() ==> crate::findings::issue_fact(#[trigger] r@[k]) == (
                    Severity::Warning,
                    "unused-dependency"@,
                    "Dependency '"@ + unused_dependencies(*p)[k] + "' appears to be unused"@,
                    forward_slashes(p.root_path@),
                ),
            all_unpositioned(r@),
    {
        let l = entity_list(p);
        proof {
            lemma_list_edges(*p, l@, Seq::empty(), Seq::empty());
        }
        let root = normalize_path(p.root_path.as_str());
        let cs = &p.components;
        let mut found: Vec<String> = Vec::new();
        let ghost mut seen: Seq<Seq<char>> = Seq::empty();
        let mut i: usize = 0;
        while i < cs.len()
            invariant
                0 <= i <= cs@.len(),
                cs == &p.components,
                list_names(l@) == entity_names(*p),
                seen == component_dep_names(cs@, i as int),
                views(found@) == unused_upto(*p, seen, seen.len() as int),
            decreases cs@.len() - i,
        {
            let ds = &cs[i].dependencies;
            let ghost seen0 = seen;
            let mut j: usize = 0;
            while j < ds.len()
                invariant
                    0 <= j <= ds@.len(),
                    0 <= i < cs@.len(),
                    ds == &cs@[i as int].dependencies,
                    list_names(l@) == entity_names(*p),
                    seen0 == component_dep_names(cs@, i as int),
                    seen == seen0 + views(ds@).subrange(0, j as int),
                    views(found@) == unused_upto(*p, seen, seen.len() as int),
                decreases ds@.len() - j,
            {
                let x = &ds[j];
                let ghost prev = seen;
                proof {
                    seen = seen.push(x@);
                    assert(seen =~= seen0 + views(ds@).subrange(0, j as int + 1));
                    lemma_unused_prefix(*p, prev, x@, prev.len() as int);
                }
                if !contains_string(&found, x) && !some_service_depends_on(p, x) && !names_contain(&l, x) {
                    let ghost f0 = views(found@);
                    found.push(x.clone());
                    assert(views(found@) =~= f0.push(x@));
                }
                j += 1;
            }
            assert(views(ds@).subrange(0, ds@.len() as int) =~= views(ds@));
            i += 1;
        }
        let mut r: Vec<Issue> = Vec::new();
        let mut k: usize = 0;
        while k < found.len()
            invariant
                0 <= k <= found@.len(),
                root@ == forward_slashes(p.root_path@),
                views(found@) == unused_dependencies(*p),
                r@.len() == k,
                all_unpositioned(r@),
                forall|a: int|
                    0 <= a < k ==> crate::findings::issue_fact(#[trigger] r@[a]) == (
                        Severity::Warning,
                        "unused-dependency"@,
                        "Dependency '"@ + unused_dependencies(*p)[a] + "' appears to be unused"@,
                        forward_slashes(p.root_path@),
                    ),
            decreases found@.len() - k,
        {
            let m = text_with("Dependency '", found[k].as_str(), "' appears to be unused");
            assert(views(found@)[k as int] == found@[k as int]@);
            r.push(new_issue(Severity::Warning, "unused-dependency", m, root.clone()));
            k += 1;
        }
        r
    }

    /// A finding for each component whose dependency chain is deeper than
    /// five.
    pub fn analyze_dependency_depth(&self, p: &NgProject) -> (r: Vec<Issue>)
        requires
            dep_total(entity_deps(*p), entity_deps(*p).len() as int) < u32::MAX,
        ensures
            exists|e: Seq<Dependency>|
                pair_views(e) == edge_pairs(entity_names(*p), entity_deps(*p), entity_names(*p).len() as int)
                    && issue_facts(r@) == deep_findings(p.components@, e, p.components@.len() as int),
            all_unpositioned(r@),
    {
        let l = entity_list(p);
        let mut e: Vec<Dependency> = Vec::new();
        let mut i: usize = 0;
        while i < l.len()
            invariant
                0 <= i <= l@.len(),
                l@.len() == entity_names(*p).len(),
                forall|t: int| 0 <= t < l@.len() ==> (#[trigger] l@[t]).0@ == entity_names(*p)[t] && views(l@[t].1@) == entity_deps(*p)[t],
                pair_views(e@) == edge_pairs(entity_names(*p), entity_deps(*p), i as int),
                e@.len() == dep_total(entity_deps(*p), i as int),
            decreases l@.len() - i,
        {
            let ghost e0 = pair_views(e@);
            let ghost len0 = e@.len();
            let mut j: usize = 0;
            while j < l[i].1.len()
                invariant
                    0 <= i < l@.len(),
                    0 <= j <= l@[i as int].1@.len(),
                    e@.len() == len0 + j,
                    pair_views(e@) == e0 + views(l@[i as int].1@).subrange(0, j as int).map_values(
                        |d: Seq<char>| (l@[i as int].0@, d),
                    ),
                decreases l@[i as int].1@.len() - j,
            {
                let ghost before = e@;
                e.push(Dependency {
                    from_file: l[i].0.clone(),
                    to_file: l[i].1[j].clone(),
                    import_type: ImportType::Named,
                    imported_symbols: Vec::new(),
                    line_number: None,
                });
                assert(pair_views(e@) =~= pair_views(before).push((l@[i as int].0@, l@[i as int].1@[j as int]@)));
                assert(views(l@[i as int].1@).subrange(0, j as int + 1).map_values(|d: Seq<char>| (l@[i as int].0@, d))
                    =~= views(l@[i as int].1@).subrange(0, j as int).map_values(|d: Seq<char>| (l@[i as int].0@, d)).push(
                    (l@[i as int].0@, l@[i as int].1@[j as int]@),
                ));
                j += 1;
                assert(pair_views(e@) =~= e0 + views(l@[i as int].1@).subrange(0, j as int).map_values(
                    |d: Seq<char>| (l@[i as int].0@, d),
                ));
            }
            assert(views(l@[i as int].1@).subrange(0, j as int) =~= views(l@[i as int].1@));
            assert(pair_views(e@) =~= edge_pairs(entity_names(*p), entity_deps(*p), i as int + 1));
            i += 1;
        }
        let cs = &p.components;
        let fuel = e.len() + 1;
        let mut r: Vec<Issue> = Vec::new();
        let mut k: usize = 0;
        while k < cs.len()
            invariant
                0 <= k <= cs@.len(),
                cs == &p.components,
                fuel == e@.len() + 1,
                fuel <= u32::MAX,
                issue_facts(r@) == deep_findings(cs@, e@, k as int),
                all_unpositioned(r@),
            decreases cs@.len() - k,
        {
            let mut path: Vec<String> = Vec::new();
            assert(views(path@) =~= Seq::<Seq<char>>::empty());
            let d = crate::analysis::file_depth_exec(&e, &cs[k].name, &mut path, fuel);
            if d > 5 {
                let mut m = text_with("Component '", cs[k].name.as_str(), "' has dependency depth of ");
                push_decimal(&mut m, d as u64);
                append_str(&mut m, ", which exceeds recommended maximum of 5");
                let ghost r0 = r@;
                r.push(new_issue(Severity::Warning, "deep-dependency-chain", m, cs[k].file_path.clone()));
                assert(issue_facts(r@) =~= issue_facts(r0).push(crate::findings::issue_fact(r@.last())));
            }
            k += 1;
        }
        r
    }

    /// Advice over the project's dependencies.
    pub fn generate_dependency_recommendations(&self, p: &NgProject) -> (r: Vec<Recommendation>)
        requires
            dep_total(entity_deps(*p), entity_deps(*p).len() as int) <= u32::MAX,
            entity_names(*p).len() <= u32::MAX,
        ensures
            advice_facts(r@) == dependency_advice(
                p.components@.len(),
                p.services@.len(),
                dep_total(entity_deps(*p), entity_deps(*p).len() as int),
            ),
            all_general(r@),
    {
        let l = entity_list(p);
        let nc = p.components.len();
        let ns = p.services.len();
        let mut total: u64 = 0;
        let mut i: usize = 0;
        while i < l.len()
            invariant
                0 <= i <= l@.len(),
                l@.len() == entity_names(*p).len(),
                forall|t: int| 0 <= t < l@.len() ==> (#[trigger] l@[t]).0@ == entity_names(*p)[t] && views(l@[t].1@) == entity_deps(*p)[t],
                dep_total(entity_deps(*p), entity_deps(*p).len() as int) <= u32::MAX,
                total == dep_total(entity_deps(*p), i as int),
            decreases l@.len() - i,
        {
            proof {
                lemma_dep_total_grows(entity_deps(*p), i as int + 1, entity_deps(*p).len() as int);
            }
            total = total + l[i].1.len() as u64;
            i += 1;
        }
        let mut r: Vec<Recommendation> = Vec::new();
        if ns == 0 && nc > 3 {
            r.push(new_advice(
                "Architecture",
                "Consider Adding Services",
                "Your project has multiple components but no services. Consider extracting shared logic into services.".to_owned(),
                Priority::Medium,
            ));
        }
        let n = (nc + ns) as u64;
        if n > 0 && total > 5 * n {
            let t = (20 * total + n) / (2 * n);
            assert(t <= 10 * total) by (nonlinear_arith)
                requires
                    t == (20 * total + n) / (2 * n),
                    n >= 1,
            {
                assert(20 * total + n < (10 * total + 1) * (2 * n));
            }
            let mut m = "Average dependency count is ".to_owned();
            push_decimal(&mut m, t / 10);
            append_str(&mut m, ".");
            push_decimal(&mut m, t % 10);
            append_str(&mut m, ". Consider reducing coupling between components and services.");
            assert(m@ =~= "Average dependency count is "@ + tenths_text(total as nat, n as nat)
                + ". Consider reducing coupling between components and services."@);
            r.push(new_advice("Dependency Management", "High Dependency Coupling", m, Priority::Medium));
        }
        assert(advice_facts(r@) =~= dependency_advice(nc as nat, ns as nat, total as nat));
        r
    }
}

proof fn lemma_dep_total_grows(deps: Seq<Seq<Seq<char>>>, i: int, n: int)
    requires
        0 <= i <= n,
    ensures
        dep_total(deps, i) <= dep_total(deps, n),
    decreases n - i,
{
    if i < n {
        lemma_dep_total_grows(deps, i, n - 1);
    }
}

} // verus!
