//! The graph queries: cycle detection, orphan detection, dependency depth and
//! importance ranking. Each is a read-only function of a well-formed graph.

use vstd::prelude::*;
use crate::ranking::{is_top_ranking, lemma_greater_count_ranks_higher, top_ranked};
use crate::model::{Dependency, FileInfo, ImportExportGraph};

verus! {

/// The views of a sequence of strings.
pub open spec fn views(s: Seq<String>) -> Seq<Seq<char>> {
    s.map_values(|x: String| x@)
}

/// Some dependency leads from the file with id `from` to the file with id `to`.
pub open spec fn has_edge(g: ImportExportGraph, from: Seq<char>, to: Seq<char>) -> bool {
    exists|k: int|
        0 <= k < g.dependencies@.len() && #[trigger] g.dependencies@[k].from_file@ == from
            && g.dependencies@[k].to_file@ == to
}

/// Some file of the graph has id `id`.
pub open spec fn is_file_id(g: ImportExportGraph, id: Seq<char>) -> bool {
    exists|i: int| 0 <= i < g.files@.len() && #[trigger] g.files@[i].id@ == id
}

impl ImportExportGraph {
    /// File ids are unique, every edge joins two known files, and no two
    /// edges join the same pair.
    pub open spec fn wf(&self) -> bool {
        &&& forall|i: int, j: int|
            0 <= i < self.files@.len() && 0 <= j < self.files@.len() && i != j
                ==> #[trigger] self.files@[i].id@ != #[trigger] self.files@[j].id@
        &&& forall|k: int|
            0 <= k < self.dependencies@.len() ==> is_file_id(
                *self,
                #[trigger] self.dependencies@[k].from_file@,
            ) && is_file_id(*self, self.dependencies@[k].to_file@)
        &&& forall|k: int, l: int|
            0 <= k < self.dependencies@.len() && 0 <= l < self.dependencies@.len() && k != l
                ==> !(#[trigger] self.dependencies@[k].from_file@ == #[trigger] self.dependencies@[l].from_file@
                && self.dependencies@[k].to_file@ == self.dependencies@[l].to_file@)
    }
}

/// Some dependency has `id` as its target.
pub open spec fn is_imported(g: ImportExportGraph, id: Seq<char>) -> bool {
    exists|k: int| 0 <= k < g.dependencies@.len() && #[trigger] g.dependencies@[k].to_file@ == id
}

/// Some export record comes from the file at `path`.
pub open spec fn is_exporting(g: ImportExportGraph, path: Seq<char>) -> bool {
    exists|e: int| 0 <= e < g.exports@.len() && #[trigger] g.exports@[e].file_path@ == path
}

/// A file is orphaned when it is never imported and exports nothing.
pub open spec fn is_orphan(g: ImportExportGraph, f: FileInfo) -> bool {
    !is_imported(g, f.id@) && !is_exporting(g, f.file_path@)
}

/// The paths of the orphaned files among the first `n` files, in file order.
pub open spec fn orphans_upto(g: ImportExportGraph, n: int) -> Seq<String>
    decreases n,
{
    if n <= 0 {
        Seq::empty()
    } else {
        let prev = orphans_upto(g, n - 1);
        if is_orphan(g, g.files@[n - 1]) {
            prev.push(g.files@[n - 1].file_path)
        } else {
            prev
        }
    }
}

/// The paths of all orphaned files, in file order.
pub open spec fn orphans(g: ImportExportGraph) -> Seq<String> {
    orphans_upto(g, g.files@.len() as int)
}

/// Whether `v` holds a string equal to `s`.
pub fn contains_string(v: &Vec<String>, s: &String) -> (r: bool)
    ensures
        r == views(v@).contains(s@),
{
    let mut i: usize = 0;
    while i < v.len()
        invariant
            0 <= i <= v@.len(),
            forall|j: int| 0 <= j < i ==> v@[j]@ != s@,
        decreases v@.len() - i,
    {
        if v[i] == *s {
            assert(views(v@)[i as int] == s@);
            return true;
        }
        i += 1;
    }
    proof {
        if views(v@).contains(s@) {
            let j = choose|j: int| 0 <= j < views(v@).len() && views(v@)[j] == s@;
            assert(v@[j]@ == s@);
        }
    }
    false
}

fn imported_anywhere(g: &ImportExportGraph, id: &String) -> (r: bool)
    ensures
        r == is_imported(*g, id@),
{
    let mut k: usize = 0;
    while k < g.dependencies.len()
        invariant
            0 <= k <= g.dependencies@.len(),
            forall|j: int| 0 <= j < k ==> g.dependencies@[j].to_file@ != id@,
        decreases g.dependencies@.len() - k,
    {
        if g.dependencies[k].to_file == *id {
            return true;
        }
        k += 1;
    }
    false
}

fn exports_anything(g: &ImportExportGraph, path: &String) -> (r: bool)
    ensures
        r == is_exporting(*g, path@),
{
    let mut e: usize = 0;
    while e < g.exports.len()
        invariant
            0 <= e <= g.exports@.len(),
            forall|j: int| 0 <= j < e ==> g.exports@[j].file_path@ != path@,
        decreases g.exports@.len() - e,
    {
        if g.exports[e].file_path == *path {
            return true;
        }
        e += 1;
    }
    false
}

/// The paths of the files that are never imported and export nothing, in
/// file order.
pub fn find_orphaned_files(g: &ImportExportGraph) -> (r: Vec<String>)
    ensures
        r@ == orphans(*g),
{
    let mut r: Vec<String> = Vec::new();
    let mut i: usize = 0;
    while i < g.files.len()
        invariant
            0 <= i <= g.files@.len(),
            r@ == orphans_upto(*g, i as int),
        decreases g.files@.len() - i,
    {
        let f = &g.files[i];
        if !imported_anywhere(g, &f.id) && !exports_anything(g, &f.file_path) {
            r.push(f.file_path.clone());
        }
        i += 1;
    }
    r
}

/// The depth of the file with id `id`: one more than the deepest of the files
/// it imports, counting only files not already on `path`; 0 for a file on
/// `path`. `fuel` is the number of files that may still join the path, so it
/// never cuts a chain of distinct files short when it starts at the number of
/// files.
pub open spec fn file_depth(deps: Seq<Dependency>, id: Seq<char>, path: Seq<Seq<char>>, fuel: nat) -> nat
    decreases fuel, 0nat,
{
    if fuel == 0 || path.contains(id) {
        0
    } else {
        1 + children_depth(deps, id, path.push(id), (fuel - 1) as nat, deps.len())
    }
}

/// The greatest depth among the targets of the first `k` dependencies that
/// leave the file with id `id`; 0 if there is none.
pub open spec fn children_depth(
    deps: Seq<Dependency>,
    id: Seq<char>,
    path: Seq<Seq<char>>,
    fuel: nat,
    k: nat,
) -> nat
    decreases fuel, k + 1,
{
    if k == 0 {
        0
    } else {
        let rest = children_depth(deps, id, path, fuel, (k - 1) as nat);
        if deps[k - 1].from_file@ == id {
            let d = file_depth(deps, deps[k - 1].to_file@, path, fuel);
            if d > rest {
                d
            } else {
                rest
            }
        } else {
            rest
        }
    }
}

/// The depth of a file of the graph, as the queries report it.
pub open spec fn depth_of(g: ImportExportGraph, id: Seq<char>) -> nat {
    file_depth(g.dependencies@, id, Seq::empty(), g.files@.len())
}

proof fn lemma_depth_bounded(deps: Seq<Dependency>, id: Seq<char>, path: Seq<Seq<char>>, fuel: nat)
    ensures
        file_depth(deps, id, path, fuel) <= fuel,
    decreases fuel, 0nat,
{
    if fuel > 0 && !path.contains(id) {
        lemma_children_bounded(deps, id, path.push(id), (fuel - 1) as nat, deps.len());
    }
}

proof fn lemma_children_bounded(
    deps: Seq<Dependency>,
    id: Seq<char>,
    path: Seq<Seq<char>>,
    fuel: nat,
    k: nat,
)
    ensures
        children_depth(deps, id, path, fuel, k) <= fuel,
    decreases fuel, k + 1,
{
    if k > 0 {
        lemma_children_bounded(deps, id, path, fuel, (k - 1) as nat);
        if deps[k - 1].from_file@ == id {
            lemma_depth_bounded(deps, deps[k - 1].to_file@, path, fuel);
        }
    }
}

pub(crate) fn file_depth_exec(deps: &Vec<Dependency>, id: &String, path: &mut Vec<String>, fuel: usize) -> (r: u32)
    requires
        fuel <= u32::MAX,
    ensures
        r == file_depth(deps@, id@, views(old(path)@), fuel as nat),
        final(path)@ == old(path)@,
    decreases fuel,
{
    if fuel == 0 || contains_string(path, id) {
        return 0;
    }
    let ghost p0 = path@;
    path.push(id.clone());
    assert(views(path@) =~= views(p0).push(id@));
    let mut best: u32 = 0;
    let mut k: usize = 0;
    while k < deps.len()
        invariant
            0 <= k <= deps@.len(),
            fuel >= 1,
            fuel <= u32::MAX,
            path@ == p0.push(path@.last()),
            views(path@) =~= views(p0).push(id@),
            best == children_depth(deps@, id@, views(path@), (fuel - 1) as nat, k as nat),
            best <= fuel - 1,
        decreases deps@.len() - k,
    {
        if deps[k].from_file == *id {
            let d = file_depth_exec(deps, &deps[k].to_file, path, fuel - 1);
            proof {
                lemma_depth_bounded(deps@, deps@[k as int].to_file@, views(path@), (fuel - 1) as nat);
            }
            if d > best {
                best = d;
            }
        }
        k += 1;
    }
    path.pop();
    assert(path@ =~= p0);
    best + 1
}

/// For each file, in file order, its path and its depth.
pub fn calculate_dependency_depth(g: &ImportExportGraph) -> (r: Vec<(String, u32)>)
    requires
        g.files@.len() <= u32::MAX,
    ensures
        r@.len() == g.files@.len(),
        forall|i: int|
            0 <= i < r@.len() ==> (#[trigger] r@[i]).0 == g.files@[i].file_path && r@[i].1 == depth_of(
                *g,
                g.files@[i].id@,
            ),
{
    let mut r: Vec<(String, u32)> = Vec::new();
    let mut i: usize = 0;
    while i < g.files.len()
        invariant
            0 <= i <= g.files@.len(),
            g.files@.len() <= u32::MAX,
            r@.len() == i,
            forall|j: int|
                0 <= j < i ==> (#[trigger] r@[j]).0 == g.files@[j].file_path && r@[j].1 == depth_of(
                    *g,
                    g.files@[j].id@,
                ),
        decreases g.files@.len() - i,
    {
        let mut path: Vec<String> = Vec::new();
        assert(views(path@) =~= Seq::<Seq<char>>::empty());
        let d = file_depth_exec(&g.dependencies, &g.files[i].id, &mut path, g.files.len());
        r.push((g.files[i].file_path.clone(), d));
        i += 1;
    }
    r
}

proof fn lemma_children_single_target(
    deps: Seq<Dependency>,
    x: Seq<char>,
    y: Seq<char>,
    path: Seq<Seq<char>>,
    fuel: nat,
    k: nat,
)
    requires
        k <= deps.len(),
        forall|j: int| 0 <= j < k && #[trigger] deps[j].from_file@ == x ==> deps[j].to_file@ == y,
    ensures
        (exists|j: int| 0 <= j < k && #[trigger] deps[j].from_file@ == x) ==> children_depth(
            deps,
            x,
            path,
            fuel,
            k,
        ) == file_depth(deps, y, path, fuel),
        (forall|j: int| 0 <= j < k ==> #[trigger] deps[j].from_file@ != x) ==> children_depth(
            deps,
            x,
            path,
            fuel,
            k,
        ) == 0,
    decreases k,
{
    if k > 0 {
        lemma_children_single_target(deps, x, y, path, fuel, (k - 1) as nat);
        if deps[k - 1].from_file@ != x {
            if exists|j: int| 0 <= j < k && #[trigger] deps[j].from_file@ == x {
                let j = choose|j: int| 0 <= j < k && #[trigger] deps[j].from_file@ == x;
                assert(j < k - 1);
            }
        }
    }
}

/// Depth along a chain: where the file `c` imports nothing, `b` imports only
/// `c` and `a` imports only `b`, the depths of `c`, `b` and `a` are 1, 2 and 3.
pub proof fn lemma_depth_of_chain(g: ImportExportGraph, a: Seq<char>, b: Seq<char>, c: Seq<char>)
    requires
        is_file_id(g, a),
        is_file_id(g, b),
        is_file_id(g, c),
        a != b,
        b != c,
        a != c,
        has_edge(g, a, b),
        has_edge(g, b, c),
        forall|k: int|
            0 <= k < g.dependencies@.len() && #[trigger] g.dependencies@[k].from_file@ == a
                ==> g.dependencies@[k].to_file@ == b,
        forall|k: int|
            0 <= k < g.dependencies@.len() && #[trigger] g.dependencies@[k].from_file@ == b
                ==> g.dependencies@[k].to_file@ == c,
        forall|k: int| 0 <= k < g.dependencies@.len() ==> #[trigger] g.dependencies@[k].from_file@ != c,
    ensures
        depth_of(g, c) == 1,
        depth_of(g, b) == 2,
        depth_of(g, a) == 3,
{
    let deps = g.dependencies@;
    let n = g.files@.len();
    let ia = choose|i: int| 0 <= i < g.files@.len() && #[trigger] g.files@[i].id@ == a;
    let ib = choose|i: int| 0 <= i < g.files@.len() && #[trigger] g.files@[i].id@ == b;
    let ic = choose|i: int| 0 <= i < g.files@.len() && #[trigger] g.files@[i].id@ == c;
    assert(n >= 3);
    let e: Seq<Seq<char>> = Seq::empty();
    // c alone, below any path that misses it
    assert forall|p: Seq<Seq<char>>, f: nat| f >= 1 && !p.contains(c) implies file_depth(deps, c, p, f) == 1 by {
        lemma_children_single_target(deps, c, c, p.push(c), (f - 1) as nat, deps.len());
    }
    // b, then c below it
    assert forall|p: Seq<Seq<char>>, f: nat| f >= 2 && !p.contains(b) && !p.contains(c) implies file_depth(deps, b, p, f) == 2 by {
        lemma_children_single_target(deps, b, c, p.push(b), (f - 1) as nat, deps.len());
        assert(!p.push(b).contains(c)) by {
            if p.push(b).contains(c) {
                let j = choose|j: int| 0 <= j < p.push(b).len() && p.push(b)[j] == c;
                if j < p.len() {
                    assert(p[j] == c);
                }
            }
        }
    }
    lemma_children_single_target(deps, a, b, e.push(a), (n - 1) as nat, deps.len());
    assert(!e.push(a).contains(b)) by {
        if e.push(a).contains(b) {
            let j = choose|j: int| 0 <= j < e.push(a).len() && e.push(a)[j] == b;
            assert(j == 0);
        }
    }
    assert(!e.push(a).contains(c)) by {
        if e.push(a).contains(c) {
            let j = choose|j: int| 0 <= j < e.push(a).len() && e.push(a)[j] == c;
            assert(j == 0);
        }
    }
    assert(!e.contains(a) && !e.contains(b) && !e.contains(c));
}

/// How many ranked files the ranking queries report.
pub const TOP_COUNT: usize = 10;

/// The number of the first `k` dependencies that have `id` as target
/// (`incoming`) or as source.
pub open spec fn degree_upto(deps: Seq<Dependency>, id: Seq<char>, incoming: bool, k: nat) -> nat
    decreases k,
{
    if k == 0 {
        0
    } else {
        let end = if incoming {
            deps[k - 1].to_file@
        } else {
            deps[k - 1].from_file@
        };
        degree_upto(deps, id, incoming, (k - 1) as nat) + if end == id {
            1nat
        } else {
            0nat
        }
    }
}

proof fn lemma_degree_bounded(deps: Seq<Dependency>, id: Seq<char>, incoming: bool, k: nat)
    ensures
        degree_upto(deps, id, incoming, k) <= k,
    decreases k,
{
    if k > 0 {
        lemma_degree_bounded(deps, id, incoming, (k - 1) as nat);
    }
}

/// For each file, in file order, how many dependencies lead into it
/// (`incoming`) or out of it.
pub open spec fn degrees(g: ImportExportGraph, incoming: bool) -> Seq<u32> {
    Seq::new(
        g.files@.len(),
        |i: int|
            degree_upto(g.dependencies@, g.files@[i].id@, incoming, g.dependencies@.len()) as u32,
    )
}

/// `r` lists the files of the top ranking of `counts`, by path with their
/// count.
pub open spec fn is_file_ranking(g: ImportExportGraph, counts: Seq<u32>, r: Seq<(String, u32)>) -> bool {
    exists|ix: Seq<usize>|
        is_top_ranking(counts, TOP_COUNT as nat, ix) && r.len() == ix.len() && forall|a: int|
            0 <= a < r.len() ==> (#[trigger] r[a]).0 == g.files@[ix[a] as int].file_path && r[a].1
                == counts[ix[a] as int]
}

fn degree_counts(g: &ImportExportGraph, incoming: bool) -> (r: Vec<u32>)
    requires
        g.dependencies@.len() <= u32::MAX,
    ensures
        r@ == degrees(*g, incoming),
{
    let mut r: Vec<u32> = Vec::new();
    let mut i: usize = 0;
    while i < g.files.len()
        invariant
            0 <= i <= g.files@.len(),
            g.dependencies@.len() <= u32::MAX,
            r@.len() == i,
            forall|j: int| 0 <= j < i ==> r@[j] == degrees(*g, incoming)[j],
        decreases g.files@.len() - i,
    {
        let id = &g.files[i].id;
        let mut c: u32 = 0;
        let mut k: usize = 0;
        while k < g.dependencies.len()
            invariant
                0 <= k <= g.dependencies@.len(),
                g.dependencies@.len() <= u32::MAX,
                c == degree_upto(g.dependencies@, id@, incoming, k as nat),
            decreases g.dependencies@.len() - k,
        {
            proof {
                lemma_degree_bounded(g.dependencies@, id@, incoming, k as nat);
            }
            let end = if incoming {
                &g.dependencies[k].to_file
            } else {
                &g.dependencies[k].from_file
            };
            if *end == *id {
                c += 1;
            }
            k += 1;
        }
        r.push(c);
        i += 1;
    }
    assert(r@ =~= degrees(*g, incoming));
    r
}

fn ranked_paths(g: &ImportExportGraph, counts: &Vec<u32>) -> (r: Vec<(String, u32)>)
    requires
        counts@.len() == g.files@.len(),
    ensures
        is_file_ranking(*g, counts@, r@),
{
    let ix = top_ranked(counts, TOP_COUNT);
    let mut r: Vec<(String, u32)> = Vec::new();
    let mut a: usize = 0;
    while a < ix.len()
        invariant
            0 <= a <= ix@.len(),
            counts@.len() == g.files@.len(),
            is_top_ranking(counts@, TOP_COUNT as nat, ix@),
            r@.len() == a,
            forall|b: int|
                0 <= b < a ==> (#[trigger] r@[b]).0 == g.files@[ix@[b] as int].file_path && r@[b].1
                    == counts@[ix@[b] as int],
        decreases ix@.len() - a,
    {
        let f = ix[a];
        r.push((g.files[f].file_path.clone(), counts[f]));
        a += 1;
    }
    r
}

/// The most imported files: path and number of dependencies leading into
/// each, greatest first, at most `TOP_COUNT` of them.
pub fn find_most_imported_files(g: &ImportExportGraph) -> (r: Vec<(String, u32)>)
    requires
        g.dependencies@.len() <= u32::MAX,
    ensures
        is_file_ranking(*g, degrees(*g, true), r@),
{
    let counts = degree_counts(g, true);
    ranked_paths(g, &counts)
}

/// The most dependent files: path and number of dependencies leading out of
/// each, greatest first, at most `TOP_COUNT` of them.
pub fn find_most_dependent_files(g: &ImportExportGraph) -> (r: Vec<(String, u32)>)
    requires
        g.dependencies@.len() <= u32::MAX,
    ensures
        is_file_ranking(*g, degrees(*g, false), r@),
{
    let counts = degree_counts(g, false);
    ranked_paths(g, &counts)
}

/// Ranking stability: a file imported more often than a listed file is
/// listed too, with its count, before it.
pub proof fn lemma_more_imported_ranks_higher(g: ImportExportGraph, r: Seq<(String, u32)>, i: usize, q: int)
    requires
        is_file_ranking(g, degrees(g, true), r),
        i < g.files@.len(),
        0 <= q < r.len(),
        degrees(g, true)[i as int] > r[q].1,
    ensures
        exists|p: int|
            0 <= p < q && r[p].0 == g.files@[i as int].file_path && r[p].1 == degrees(g, true)[i as int],
{
    let counts = degrees(g, true);
    let ix = choose|ix: Seq<usize>|
        is_top_ranking(counts, TOP_COUNT as nat, ix) && r.len() == ix.len() && forall|a: int|
            0 <= a < r.len() ==> (#[trigger] r[a]).0 == g.files@[ix[a] as int].file_path && r[a].1
                == counts[ix[a] as int];
    assert(r[q].1 == counts[ix[q] as int]);
    lemma_greater_count_ranks_higher(counts, TOP_COUNT as nat, ix, i, q);
    let p = choose|p: int| 0 <= p < q && ix[p] == i;
    assert(r[p].0 == g.files@[ix[p] as int].file_path);
}

proof fn lemma_orphans_upto(g: ImportExportGraph, n: int)
    requires
        0 <= n <= g.files@.len(),
    ensures
        forall|i: int|
            0 <= i < n && is_orphan(g, g.files@[i]) ==> orphans_upto(g, n).contains(
                #[trigger] g.files@[i].file_path,
            ),
        forall|t: int|
            0 <= t < orphans_upto(g, n).len() ==> !is_exporting(g, (#[trigger] orphans_upto(g, n)[t])@),
    decreases n,
{
    if n > 0 {
        lemma_orphans_upto(g, n - 1);
        let prev = orphans_upto(g, n - 1);
        let cur = orphans_upto(g, n);
        assert forall|i: int| 0 <= i < n && is_orphan(g, g.files@[i]) implies cur.contains(
            #[trigger] g.files@[i].file_path,
        ) by {
            if i < n - 1 {
                let t = choose|t: int| 0 <= t < prev.len() && prev[t] == g.files@[i].file_path;
                assert(cur[t] == prev[t]);
            } else {
                assert(cur[cur.len() - 1] == g.files@[i].file_path);
            }
        }
        assert forall|t: int| 0 <= t < cur.len() implies !is_exporting(g, (#[trigger] cur[t])@) by {
            if t < prev.len() {
                assert(cur[t] == prev[t]);
            }
        }
    }
}

/// Orphan detection: a file that is never imported and exports nothing is
/// reported; a file that exports something is not, whether imported or not.
pub proof fn lemma_orphan_detection(g: ImportExportGraph, i: int)
    requires
        0 <= i < g.files@.len(),
    ensures
        !is_imported(g, g.files@[i].id@) && !is_exporting(g, g.files@[i].file_path@) ==> orphans(
            g,
        ).contains(g.files@[i].file_path),
        is_exporting(g, g.files@[i].file_path@) ==> forall|t: int|
            0 <= t < orphans(g).len() ==> (#[trigger] orphans(g)[t])@ != g.files@[i].file_path@,
{
    lemma_orphans_upto(g, g.files@.len() as int);
}

} // verus!
