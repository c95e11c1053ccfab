//! Cycle detection: a depth-first search from every file not yet visited,
//! reporting at most one cycle per search root.

use vstd::prelude::*;
use crate::analysis::{has_edge, is_file_id, views};
use crate::model::{CircularDependency, CycleSeverity, ImportExportGraph};

verus! {

/// `c` is a simple cycle of the graph: a sequence of file ids, each
/// importing the next, whose last entry repeats the first and whose other
/// entries are distinct.
pub open spec fn is_cycle(g: ImportExportGraph, c: Seq<Seq<char>>) -> bool {
    &&& c.len() >= 2
    &&& c[0] == c[c.len() - 1]
    &&& forall|t: int| 0 <= t < c.len() - 1 ==> has_edge(g, #[trigger] c[t], c[t + 1])
    &&& forall|a: int, b: int| 0 <= a < b < c.len() - 1 ==> #[trigger] c[a] != #[trigger] c[b]
}

/// `c` is a closed walk of the graph: each entry imports the next, and the
/// last entry repeats the first.
pub open spec fn is_closed_walk(g: ImportExportGraph, c: Seq<Seq<char>>) -> bool {
    &&& c.len() >= 2
    &&& c[0] == c[c.len() - 1]
    &&& forall|t: int| 0 <= t < c.len() - 1 ==> has_edge(g, #[trigger] c[t], c[t + 1])
}

/// No sequence of imports leads from a file back to itself.
pub open spec fn acyclic(g: ImportExportGraph) -> bool {
    forall|c: Seq<Seq<char>>| !is_closed_walk(g, c)
}

/// The severity of a cycle through `files` distinct files.
pub open spec fn severity_for(files: int) -> CycleSeverity {
    if files <= 2 {
        CycleSeverity::Critical
    } else if files <= 4 {
        CycleSeverity::Warning
    } else {
        CycleSeverity::Info
    }
}

/// The severity of a cycle through `files` distinct files: critical up to
/// two files, a warning up to four, informational beyond.
pub fn cycle_severity(files: usize) -> (r: CycleSeverity)
    ensures
        r == severity_for(files as int),
{
    if files <= 2 {
        CycleSeverity::Critical
    } else if files <= 4 {
        CycleSeverity::Warning
    } else {
        CycleSeverity::Info
    }
}

/// The dependency from file `u` to file `v` (by position) exists.
pub open spec fn edge_ix(g: ImportExportGraph, u: int, v: int) -> bool {
    has_edge(g, g.files@[u].id@, g.files@[v].id@)
}

/// The position of the file with id `id`.
pub open spec fn index_of(g: ImportExportGraph, id: Seq<char>) -> int {
    choose|i: int| 0 <= i < g.files@.len() && g.files@[i].id@ == id
}

/// `es` holds, for each dependency in order, the positions of its two files.
pub open spec fn indexes_edges(g: ImportExportGraph, es: Seq<(usize, usize)>) -> bool {
    &&& es.len() == g.dependencies@.len()
    &&& forall|k: int|
        0 <= k < es.len() ==> (#[trigger] es[k]).0 < g.files@.len() && es[k].1 < g.files@.len()
            && g.files@[es[k].0 as int].id@ == g.dependencies@[k].from_file@
            && g.files@[es[k].1 as int].id@ == g.dependencies@[k].to_file@
}

fn position_of_id(g: &ImportExportGraph, id: &String) -> (r: Option<usize>)
    ensures
        r matches Some(i) ==> i < g.files@.len() && g.files@[i as int].id@ == id@,
        r is None ==> !is_file_id(*g, id@),
{
    let mut i: usize = 0;
    while i < g.files.len()
        invariant
            0 <= i <= g.files@.len(),
            forall|j: int| 0 <= j < i ==> g.files@[j].id@ != id@,
        decreases g.files@.len() - i,
    {
        if g.files[i].id == *id {
            return Some(i);
        }
        i += 1;
    }
    None
}

fn edge_positions(g: &ImportExportGraph) -> (es: Vec<(usize, usize)>)
    requires
        g.wf(),
    ensures
        indexes_edges(*g, es@),
        es@ == edges_of(*g),
{
    let mut es: Vec<(usize, usize)> = Vec::new();
    let mut k: usize = 0;
    while k < g.dependencies.len()
        invariant
            g.wf(),
            0 <= k <= g.dependencies@.len(),
            es@.len() == k,
            forall|j: int|
                0 <= j < k ==> (#[trigger] es@[j]).0 < g.files@.len() && es@[j].1 < g.files@.len()
                    && g.files@[es@[j].0 as int].id@ == g.dependencies@[j].from_file@
                    && g.files@[es@[j].1 as int].id@ == g.dependencies@[j].to_file@,
        decreases g.dependencies@.len() - k,
    {
        assert(is_file_id(*g, g.dependencies@[k as int].from_file@));
        let a = position_of_id(g, &g.dependencies[k].from_file);
        let b = position_of_id(g, &g.dependencies[k].to_file);
        match (a, b) {
            (Some(a), Some(b)) => {
                es.push((a, b));
            },
            _ => {
                assert(false);
            },
        }
        k += 1;
    }
    proof {
        assert forall|j: int| 0 <= j < es@.len() implies es@[j] == edges_of(*g)[j] by {
            let a = index_of(*g, g.dependencies@[j].from_file@);
            let b = index_of(*g, g.dependencies@[j].to_file@);
            assert(g.files@[es@[j].0 as int].id@ == g.dependencies@[j].from_file@);
            assert(g.files@[es@[j].1 as int].id@ == g.dependencies@[j].to_file@);
            assert(0 <= a < g.files@.len() && g.files@[a].id@ == g.dependencies@[j].from_file@);
            assert(0 <= b < g.files@.len() && g.files@[b].id@ == g.dependencies@[j].to_file@);
            assert(a == es@[j].0 as int);
            assert(b == es@[j].1 as int);
        }
        assert(es@ =~= edges_of(*g));
    }
    es
}

proof fn lemma_edge_of_position(g: ImportExportGraph, es: Seq<(usize, usize)>, k: int)
    requires
        indexes_edges(g, es),
        0 <= k < es.len(),
    ensures
        edge_ix(g, es[k].0 as int, es[k].1 as int),
{
    assert(g.dependencies@[k].from_file@ == g.files@[es[k].0 as int].id@);
}

/// What a search leaves: the files visited, and the cycle met, if any.
pub type SearchOutcome = (Seq<bool>, Option<Seq<usize>>);

/// The positions of each dependency's two files, in dependency order.
pub open spec fn edges_of(g: ImportExportGraph) -> Seq<(usize, usize)> {
    Seq::new(
        g.dependencies@.len(),
        |k: int| (index_of(g, g.dependencies@[k].from_file@) as usize, index_of(g, g.dependencies@[k].to_file@) as usize),
    )
}

/// The cycle closed by an edge back to `v` on `path`: the path from `v`'s
/// place on it, then `v` again.
pub open spec fn closed_at(path: Seq<usize>, v: usize) -> Seq<usize> {
    let pos = choose|i: int| 0 <= i < path.len() && path[i] == v;
    path.subrange(pos, path.len() as int).push(v)
}

/// The depth-first search from the file at `node`, with `path` the files
/// the search is inside of: `node` is marked visited and joins the path,
/// then its edges are followed in dependency order. `fuel` bounds the
/// depth; it starts at the number of files less the path's length, which
/// no path of distinct files exhausts.
pub open spec fn search_spec(es: Seq<(usize, usize)>, node: usize, visited: Seq<bool>, path: Seq<usize>, fuel: nat) -> SearchOutcome
    decreases fuel, 0nat,
{
    if fuel == 0 {
        (visited, None)
    } else {
        scan_spec(es, node, 0, visited.update(node as int, true), path.push(node), (fuel - 1) as nat)
    }
}

/// The rest of the search from `node`, from its edge at `k` on: an edge to
/// a file not yet visited is searched, and a cycle met there ends the
/// search; an edge to a file on the path closes a cycle and ends it; an
/// edge to any other visited file is passed over.
pub open spec fn scan_spec(
    es: Seq<(usize, usize)>,
    node: usize,
    k: nat,
    visited: Seq<bool>,
    path: Seq<usize>,
    fuel: nat,
) -> SearchOutcome
    decreases fuel, (es.len() - k) as nat + 1,
{
    if k >= es.len() {
        (visited, None)
    } else if es[k as int].0 != node {
        scan_spec(es, node, k + 1, visited, path, fuel)
    } else {
        let v = es[k as int].1;
        if !visited[v as int] {
            let (after, found) = search_spec(es, v, visited, path, fuel);
            if found is Some {
                (after, found)
            } else {
                scan_spec(es, node, k + 1, after, path, fuel)
            }
        } else if path.contains(v) {
            (visited, Some(closed_at(path, v)))
        } else {
            scan_spec(es, node, k + 1, visited, path, fuel)
        }
    }
}

/// The cycles met by searching from each file from position `i` on that
/// is not yet visited, in file order, at most one per search.
pub open spec fn roots_spec(es: Seq<(usize, usize)>, n: nat, i: nat, visited: Seq<bool>) -> Seq<Seq<usize>>
    decreases n - i,
{
    if i >= n {
        Seq::empty()
    } else if visited[i as int] {
        roots_spec(es, n, i + 1, visited)
    } else {
        let (after, found) = search_spec(es, i as usize, visited, Seq::empty(), n);
        match found {
            Some(c) => seq![c] + roots_spec(es, n, i + 1, after),
            None => roots_spec(es, n, i + 1, after),
        }
    }
}

/// The cycles the search meets in the graph, as file positions.
pub open spec fn cycles_found(g: ImportExportGraph) -> Seq<Seq<usize>> {
    roots_spec(edges_of(g), g.files@.len(), 0, Seq::new(g.files@.len(), |i: int| false))
}

/// The ids of the files at the positions `c`.
pub open spec fn ids_at(g: ImportExportGraph, c: Seq<usize>) -> Seq<Seq<char>> {
    c.map_values(|x: usize| g.files@[x as int].id@)
}

/// The result of an exec search as plain values.
pub open spec fn found_view(r: Option<Vec<usize>>) -> Option<Seq<usize>> {
    match r {
        Some(c) => Some(c@),
        None => None,
    }
}

/// The state of the search: files visited, the current path (also as marks),
/// and, for the proof, the files finished and when.
struct Search {
    visited: Vec<bool>,
    on_path: Vec<bool>,
    path: Vec<usize>,
    done: Ghost<Seq<bool>>,
    finish: Ghost<Seq<int>>,
    clock: Ghost<int>,
}

impl Search {
    spec fn shaped(&self, n: nat) -> bool {
        &&& self.visited@.len() == n
        &&& self.on_path@.len() == n
        &&& self.done@.len() == n
        &&& self.finish@.len() == n
    }

    /// The path is a walk of distinct visited files, marked in `on_path`.
    spec fn path_ok(&self, g: ImportExportGraph) -> bool {
        let p = self.path@;
        &&& forall|t: int| 0 <= t < p.len() ==> (#[trigger] p[t]) < g.files@.len() && self.visited@[p[t] as int]
        &&& forall|a: int, b: int| 0 <= a < b < p.len() ==> #[trigger] p[a] != #[trigger] p[b]
        &&& forall|i: int| 0 <= i < g.files@.len() ==> (self.on_path@[i] <==> p.contains(i as usize))
        &&& forall|t: int| 0 <= t < p.len() - 1 ==> edge_ix(g, #[trigger] p[t] as int, p[t + 1] as int)
    }

    /// Every visited file is on the path or finished, and every edge out of a
    /// finished file leads to a file finished earlier.
    spec fn clean(&self, es: Seq<(usize, usize)>, n: nat) -> bool {
        &&& forall|i: int| 0 <= i < n && #[trigger] self.visited@[i] ==> self.on_path@[i] || self.done@[i]
        &&& forall|i: int| 0 <= i < n && #[trigger] self.done@[i] ==> self.visited@[i] && !self.on_path@[i]
        &&& forall|i: int| 0 <= i < n && #[trigger] self.done@[i] ==> self.finish@[i] < self.clock@
        &&& forall|k: int|
            0 <= k < es.len() && self.done@[(#[trigger] es[k]).0 as int] ==> self.done@[es[k].1 as int]
                && self.finish@[es[k].1 as int] < self.finish@[es[k].0 as int]
    }
}

/// `c` is a cycle of file positions, as the search reports it.
spec fn is_index_cycle(g: ImportExportGraph, c: Seq<usize>) -> bool {
    &&& c.len() >= 2
    &&& c[0] == c[c.len() - 1]
    &&& forall|t: int| 0 <= t < c.len() ==> (#[trigger] c[t]) < g.files@.len()
    &&& forall|t: int| 0 <= t < c.len() - 1 ==> edge_ix(g, #[trigger] c[t] as int, c[t + 1] as int)
    &&& forall|a: int, b: int| 0 <= a < b < c.len() - 1 ==> #[trigger] c[a] != #[trigger] c[b]
}

/// The files on a path of distinct files, with one more file off it, are no
/// more than all files.
proof fn lemma_path_shorter(p: Seq<usize>, node: usize, n: nat)
    requires
        forall|t: int| 0 <= t < p.len() ==> (#[trigger] p[t]) < n,
        forall|a: int, b: int| 0 <= a < b < p.len() ==> #[trigger] p[a] != #[trigger] p[b],
        !p.contains(node),
        node < n,
    ensures
        p.len() < n,
{
    let m = Seq::new(p.len(), |t: int| p[t] as int);
    let all = vstd::set_lib::set_int_range(0, n as int);
    vstd::set_lib::lemma_int_range(0, n as int);
    assert(m.no_duplicates()) by {
        assert forall|a: int, b: int| 0 <= a < m.len() && 0 <= b < m.len() && a != b implies m[a] != m[b] by {
            if a < b {
                assert(p[a] != p[b]);
            } else {
                assert(p[b] != p[a]);
            }
        }
    }
    m.unique_seq_to_set();
    let ps = m.to_set().insert(node as int);
    assert(!m.to_set().contains(node as int)) by {
        if m.to_set().contains(node as int) {
            let t = choose|t: int| 0 <= t < m.len() && m[t] == node as int;
            assert(p[t] == node);
        }
    }
    assert(ps.subset_of(all)) by {
        assert forall|x: int| ps.contains(x) implies all.contains(x) by {
            if x != node as int {
                let t = choose|t: int| 0 <= t < m.len() && m[t] == x;
                assert(p[t] < n);
            }
        }
    }
    vstd::set_lib::lemma_len_subset(ps, all);
}

/// The search from the file at `node` has so far met, for every edge out of
/// it before position `k`, a finished target; the state is clean apart from
/// `node` being on the path; and nothing finished before was changed.
spec fn clean_progress(
    st: Search,
    s0: Search,
    es: Seq<(usize, usize)>,
    n: nat,
    node: usize,
    k: int,
) -> bool {
    &&& forall|i: int| 0 <= i < n && #[trigger] st.visited@[i] ==> st.on_path@[i] || st.done@[i]
    &&& forall|i: int| 0 <= i < n && #[trigger] st.done@[i] ==> st.visited@[i] && !st.on_path@[i]
    &&& forall|i: int| 0 <= i < n && #[trigger] st.done@[i] ==> st.finish@[i] < st.clock@
    &&& forall|j: int|
        0 <= j < es.len() && st.done@[(#[trigger] es[j]).0 as int] ==> st.done@[es[j].1 as int]
            && st.finish@[es[j].1 as int] < st.finish@[es[j].0 as int]
    &&& forall|j: int|
        0 <= j < k && (#[trigger] es[j]).0 == node ==> st.done@[es[j].1 as int] && st.finish@[es[j].1 as int]
            < st.clock@
    &&& st.clock@ >= s0.clock@
    &&& forall|i: int| 0 <= i < n && #[trigger] s0.done@[i] ==> st.done@[i] && st.finish@[i] == s0.finish@[i]
}

proof fn lemma_closed_path(g: ImportExportGraph, q: Seq<usize>, pos: int, c: Seq<usize>)
    requires
        0 <= pos < q.len(),
        c == q.subrange(pos, q.len() as int).push(q[pos]),
        forall|t: int| 0 <= t < q.len() ==> (#[trigger] q[t]) < g.files@.len(),
        forall|a: int, b: int| 0 <= a < b < q.len() ==> #[trigger] q[a] != #[trigger] q[b],
        forall|t: int| 0 <= t < q.len() - 1 ==> edge_ix(g, #[trigger] q[t] as int, q[t + 1] as int),
        edge_ix(g, q.last() as int, q[pos] as int),
    ensures
        is_index_cycle(g, c),
{
    assert forall|u: int| 0 <= u < c.len() - 1 implies edge_ix(g, #[trigger] c[u] as int, c[u + 1] as int) by {
        if u < c.len() - 2 {
            assert(c[u] == q[pos + u] && c[u + 1] == q[pos + u + 1]);
        } else {
            assert(c[u] == q[q.len() - 1]);
        }
    }
    assert forall|a: int, b: int| 0 <= a < b < c.len() - 1 implies #[trigger] c[a] != #[trigger] c[b] by {
        assert(c[a] == q[pos + a] && c[b] == q[pos + b]);
    }
    assert forall|u: int| 0 <= u < c.len() implies (#[trigger] c[u]) < g.files@.len() by {
        if u < c.len() - 1 {
            assert(c[u] == q[pos + u]);
        }
    }
}

/// The cycle that closes when the edge from the end of `p` leads back to the
/// entry at `pos`.
fn close_cycle(g: &ImportExportGraph, p: &Vec<usize>, pos: usize) -> (c: Vec<usize>)
    requires
        pos < p@.len(),
        forall|t: int| 0 <= t < p@.len() ==> (#[trigger] p@[t]) < g.files@.len(),
        forall|a: int, b: int| 0 <= a < b < p@.len() ==> #[trigger] p@[a] != #[trigger] p@[b],
        forall|t: int| 0 <= t < p@.len() - 1 ==> edge_ix(*g, #[trigger] p@[t] as int, p@[t + 1] as int),
        edge_ix(*g, p@.last() as int, p@[pos as int] as int),
    ensures
        is_index_cycle(*g, c@),
        c@ == p@.subrange(pos as int, p@.len() as int).push(p@[pos as int]),
{
    let mut c: Vec<usize> = Vec::new();
    let mut t: usize = pos;
    while t < p.len()
        invariant
            pos <= t <= p@.len(),
            c@ == p@.subrange(pos as int, t as int),
        decreases p@.len() - t,
    {
        c.push(p[t]);
        t += 1;
        assert(c@ =~= p@.subrange(pos as int, t as int));
    }
    let ghost body = c@;
    c.push(p[pos]);
    assert(body =~= p@.subrange(pos as int, p@.len() as int));
    proof {
        lemma_closed_path(*g, p@, pos as int, c@);
    }
    assert(c@ == p@.subrange(pos as int, p@.len() as int).push(p@[pos as int]));
    c
}

proof fn lemma_path_restored(g: ImportExportGraph, s0: Search, st: Search)
    requires
        s0.path_ok(g),
        st.path@ == s0.path@,
        st.on_path@ == s0.on_path@,
        forall|i: int| 0 <= i < g.files@.len() && s0.visited@[i] ==> #[trigger] st.visited@[i],
    ensures
        st.path_ok(g),
{
    let p = st.path@;
    assert forall|t: int| 0 <= t < p.len() implies (#[trigger] p[t]) < g.files@.len() && st.visited@[p[t] as int] by {
        assert(s0.visited@[p[t] as int]);
    }
}

fn search_from(g: &ImportExportGraph, es: &Vec<(usize, usize)>, node: usize, st: &mut Search) -> (r: Option<Vec<usize>>)
    requires
        g.wf(),
        indexes_edges(*g, es@),
        old(st).shaped(g.files@.len()),
        node < g.files@.len(),
        !old(st).visited@[node as int],
        old(st).path_ok(*g),
        old(st).path@.len() > 0 ==> edge_ix(*g, old(st).path@.last() as int, node as int),
    ensures
        final(st).shaped(g.files@.len()),
        final(st).path@ == old(st).path@,
        final(st).on_path@ == old(st).on_path@,
        final(st).path_ok(*g),
        final(st).visited@[node as int],
        forall|i: int| 0 <= i < g.files@.len() && old(st).visited@[i] ==> #[trigger] final(st).visited@[i],
        r matches Some(c) ==> is_index_cycle(*g, c@),
        (final(st).visited@, found_view(r)) == search_spec(
            es@,
            node,
            old(st).visited@,
            old(st).path@,
            (g.files@.len() - old(st).path@.len()) as nat,
        ),
        old(st).clean(es@, g.files@.len()) && r is None ==> final(st).clean(es@, g.files@.len())
            && final(st).done@[node as int] && final(st).clock@ >= old(st).clock@ && forall|i: int|
            0 <= i < g.files@.len() && #[trigger] old(st).done@[i] ==> final(st).done@[i]
                && final(st).finish@[i] == old(st).finish@[i],
    decreases g.files@.len() - old(st).path@.len(),
{
    let ghost n = g.files@.len();
    let ghost was_clean = st.clean(es@, n);
    let ghost s0 = *st;
    let count = g.files.len();
    assert(n == count);
    assert(!s0.path@.contains(node)) by {
        if s0.path@.contains(node) {
            let t = choose|t: int| 0 <= t < s0.path@.len() && s0.path@[t] == node;
        }
    }
    proof {
        lemma_path_shorter(s0.path@, node, n);
    }
    let ghost fuel0: nat = (n - s0.path@.len()) as nat;
    st.visited.set(node, true);
    st.on_path.set(node, true);
    st.path.push(node);
    assert(search_spec(es@, node, s0.visited@, s0.path@, fuel0) == scan_spec(
        es@,
        node,
        0,
        st.visited@,
        st.path@,
        (fuel0 - 1) as nat,
    ));
    assert(st.path_ok(*g)) by {
        let p = st.path@;
        assert(p[p.len() - 1] == node);
        assert forall|i: int| 0 <= i < n implies (st.on_path@[i] <==> p.contains(i as usize)) by {
            if i == node as int {
            } else if s0.path@.contains(i as usize) {
                let t = choose|t: int| 0 <= t < s0.path@.len() && s0.path@[t] == i as usize;
                assert(p[t] == i as usize);
            } else if p.contains(i as usize) {
                let t = choose|t: int| 0 <= t < p.len() && p[t] == i as usize;
                assert(i as usize != node);
                assert(t != p.len() - 1);
                assert(s0.path@[t] == i as usize);
            }
        }
        assert forall|a: int, b: int| 0 <= a < b < p.len() implies #[trigger] p[a] != #[trigger] p[b] by {
            if b == p.len() - 1 {
                assert(s0.path@[a] == p[a]);
                assert(s0.path@.contains(p[a]));
            } else {
                assert(s0.path@[a] == p[a] && s0.path@[b] == p[b]);
            }
        }
        assert forall|t: int| 0 <= t < p.len() - 1 implies edge_ix(*g, #[trigger] p[t] as int, p[t + 1] as int) by {
            if t == p.len() - 2 {
                assert(p[t] == s0.path@.last());
            } else {
                assert(p[t] == s0.path@[t] && p[t + 1] == s0.path@[t + 1]);
            }
        }
        assert forall|t: int| 0 <= t < p.len() implies (#[trigger] p[t]) < n && st.visited@[p[t] as int] by {
            if t < p.len() - 1 {
                assert(p[t] == s0.path@[t]);
            }
        }
    }
    let mut k: usize = 0;
    while k < es.len()
        invariant
            g.wf(),
            indexes_edges(*g, es@),
            n == g.files@.len(),
            node < n,
            s0.path@.len() < n,
            s0.shaped(n),
            *old(st) == s0,
            s0.path_ok(*g),
            st.shaped(n),
            st.path@ == s0.path@.push(node),
            st.on_path@ == s0.on_path@.update(node as int, true),
            !s0.on_path@[node as int],
            st.path_ok(*g),
            st.visited@[node as int],
            forall|i: int| 0 <= i < n && s0.visited@[i] ==> #[trigger] st.visited@[i],
            0 <= k <= es@.len(),
            was_clean ==> clean_progress(*st, s0, es@, n, node, k as int),
            fuel0 == (n - s0.path@.len()) as nat,
            search_spec(es@, node, s0.visited@, s0.path@, fuel0) == scan_spec(
                es@,
                node,
                k as nat,
                st.visited@,
                st.path@,
                (fuel0 - 1) as nat,
            ),
        decreases es@.len() - k,
    {
        let (from, to) = es[k];
        let ghost vis_k = st.visited@;
        let ghost rest = scan_spec(es@, node, k as nat, vis_k, st.path@, (fuel0 - 1) as nat);
        if from != node {
            assert(rest == scan_spec(es@, node, (k + 1) as nat, vis_k, st.path@, (fuel0 - 1) as nat));
        }
        if from == node {
            proof {
                lemma_edge_of_position(*g, es@, k as int);
            }
            if !st.visited[to] {
                assert(st.path@.len() == s0.path@.len() + 1);
                assert(st.path@.last() == node);
                let ghost p1 = st.path@;
                let r = search_from(g, es, to, st);
                proof {
                    assert((n - p1.len()) as nat == (fuel0 - 1) as nat);
                    let sub = search_spec(es@, to, vis_k, p1, (fuel0 - 1) as nat);
                    if sub.1 is Some {
                        assert(rest == sub);
                    } else {
                        assert(rest == scan_spec(es@, node, (k + 1) as nat, sub.0, p1, (fuel0 - 1) as nat));
                    }
                }
                if r.is_some() {
                    st.path.pop();
                    st.on_path.set(node, false);
                    assert(st.path@ =~= s0.path@);
                    assert(st.on_path@ =~= s0.on_path@);
                    proof {
                        lemma_path_restored(*g, s0, *st);
                    }
                    return r;
                }
            } else if st.on_path[to] {
                let pos = position_in_path(&st.path, to);
                let c = close_cycle(g, &st.path, pos);
                proof {
                    let p1 = st.path@;
                    assert(p1.contains(to));
                    let pos2 = choose|i: int| 0 <= i < p1.len() && p1[i] == to;
                    if pos2 != pos as int {
                        if pos2 < pos as int {
                            assert(p1[pos2] != p1[pos as int]);
                        } else {
                            assert(p1[pos as int] != p1[pos2]);
                        }
                    }
                    assert(closed_at(p1, to) == c@);
                    assert(rest == (vis_k, Some(closed_at(p1, to))));
                }
                st.path.pop();
                st.on_path.set(node, false);
                assert(s0.on_path@.len() == n);
                assert(st.path@ =~= s0.path@);
                assert(st.on_path@ =~= s0.on_path@);
                proof {
                    lemma_path_restored(*g, s0, *st);
                }
                return Some(c);
            } else {
                assert(rest == scan_spec(es@, node, (k + 1) as nat, vis_k, st.path@, (fuel0 - 1) as nat));
            }
        }
        k += 1;
    }
    st.path.pop();
    st.on_path.set(node, false);
    assert(st.path@ =~= s0.path@);
    assert(st.on_path@ =~= s0.on_path@);
    proof {
        lemma_path_restored(*g, s0, *st);
    }
    st.done = Ghost(st.done@.update(node as int, true));
    st.finish = Ghost(st.finish@.update(node as int, st.clock@));
    st.clock = Ghost(st.clock@ + 1);
    None
}

fn position_in_path(path: &Vec<usize>, v: usize) -> (r: usize)
    requires
        path@.contains(v),
    ensures
        r < path@.len(),
        path@[r as int] == v,
{
    let mut i: usize = 0;
    while i < path.len()
        invariant
            0 <= i <= path@.len(),
            path@.contains(v),
            forall|j: int| 0 <= j < i ==> path@[j] != v,
        decreases path@.len() - i,
    {
        if path[i] == v {
            return i;
        }
        i += 1;
    }
    proof {
        let j = choose|j: int| 0 <= j < path@.len() && path@[j] == v;
    }
    0
}

proof fn lemma_step_descends(
    g: ImportExportGraph,
    es: Seq<(usize, usize)>,
    finish: Seq<int>,
    from: Seq<char>,
    to: Seq<char>,
)
    requires
        g.wf(),
        indexes_edges(g, es),
        forall|k: int| 0 <= k < es.len() ==> finish[(#[trigger] es[k]).1 as int] < finish[es[k].0 as int],
        has_edge(g, from, to),
    ensures
        0 <= index_of(g, from) < g.files@.len(),
        0 <= index_of(g, to) < g.files@.len(),
        finish[index_of(g, to)] < finish[index_of(g, from)],
{
    let k = choose|k: int|
        0 <= k < g.dependencies@.len() && #[trigger] g.dependencies@[k].from_file@ == from
            && g.dependencies@[k].to_file@ == to;
    let e = es[k];
    assert(g.files@[e.0 as int].id@ == from);
    assert(g.files@[e.1 as int].id@ == to);
    let i = index_of(g, from);
    let j = index_of(g, to);
    assert(g.files@[i].id@ == from);
    assert(g.files@[j].id@ == to);
    assert(i == e.0 as int);
    assert(j == e.1 as int);
}

proof fn lemma_walk_descends(
    g: ImportExportGraph,
    es: Seq<(usize, usize)>,
    finish: Seq<int>,
    c: Seq<Seq<char>>,
    t: int,
)
    requires
        g.wf(),
        indexes_edges(g, es),
        forall|k: int| 0 <= k < es.len() ==> finish[(#[trigger] es[k]).1 as int] < finish[es[k].0 as int],
        is_closed_walk(g, c),
        0 <= t < c.len(),
    ensures
        finish[index_of(g, c[t])] + t <= finish[index_of(g, c[0])],
    decreases t,
{
    if t > 0 {
        lemma_walk_descends(g, es, finish, c, t - 1);
        assert(has_edge(g, c[t - 1], c[t]));
        lemma_step_descends(g, es, finish, c[t - 1], c[t]);
    }
}

/// Where every edge leads from a later-finished file to an earlier-finished
/// one, no walk closes.
proof fn lemma_finish_order_acyclic(g: ImportExportGraph, es: Seq<(usize, usize)>, finish: Seq<int>)
    requires
        g.wf(),
        indexes_edges(g, es),
        forall|k: int| 0 <= k < es.len() ==> finish[(#[trigger] es[k]).1 as int] < finish[es[k].0 as int],
    ensures
        acyclic(g),
{
    assert forall|c: Seq<Seq<char>>| !is_closed_walk(g, c) by {
        if is_closed_walk(g, c) {
            lemma_walk_descends(g, es, finish, c, c.len() - 1);
        }
    }
}

/// The file ids of a cycle of file positions.
fn cycle_ids(g: &ImportExportGraph, c: &Vec<usize>) -> (r: Vec<String>)
    requires
        g.wf(),
        is_index_cycle(*g, c@),
    ensures
        is_cycle(*g, views(r@)),
        r@.len() == c@.len(),
        views(r@) == ids_at(*g, c@),
{
    let mut r: Vec<String> = Vec::new();
    let mut t: usize = 0;
    while t < c.len()
        invariant
            is_index_cycle(*g, c@),
            0 <= t <= c@.len(),
            r@.len() == t,
            forall|u: int| 0 <= u < t ==> (#[trigger] r@[u])@ == g.files@[c@[u] as int].id@,
        decreases c@.len() - t,
    {
        r.push(g.files[c[t]].id.clone());
        t += 1;
    }
    proof {
        let v = views(r@);
        assert forall|u: int| 0 <= u < v.len() implies #[trigger] v[u] == g.files@[c@[u] as int].id@ by {
            assert(v[u] == r@[u]@);
        }
        assert forall|u: int| 0 <= u < v.len() - 1 implies has_edge(*g, #[trigger] v[u], v[u + 1]) by {
            assert(edge_ix(*g, c@[u] as int, c@[u + 1] as int));
        }
        assert forall|a: int, b: int| 0 <= a < b < v.len() - 1 implies #[trigger] v[a] != #[trigger] v[b] by {
            assert(c@[a] != c@[b]);
        }
        assert(v =~= ids_at(*g, c@));
    }
    r
}

/// The cycles met by a depth-first search from each file not yet visited,
/// in file order, at most one per search, each closed from the first place
/// on the path of the file it returns to: exactly the cycles of
/// `cycles_found`, by file id. Each is a simple cycle of the graph with the
/// severity its length gives, and none is reported exactly when the graph
/// has no cycle.
pub fn find_circular_dependencies(g: &ImportExportGraph) -> (r: Vec<CircularDependency>)
    requires
        g.wf(),
    ensures
        forall|a: int|
            0 <= a < r@.len() ==> is_cycle(*g, views((#[trigger] r@[a]).cycle@)) && r@[a].severity
                == severity_for(r@[a].cycle@.len() - 1),
        r@.len() == 0 <==> acyclic(*g),
        r@.len() <= g.files@.len(),
        r@.len() == cycles_found(*g).len(),
        forall|a: int| 0 <= a < r@.len() ==> views((#[trigger] r@[a]).cycle@) == ids_at(*g, cycles_found(*g)[a]),
{
    let es = edge_positions(g);
    let n = g.files.len();
    let mut st = Search {
        visited: Vec::new(),
        on_path: Vec::new(),
        path: Vec::new(),
        done: Ghost(Seq::new(n as nat, |i: int| false)),
        finish: Ghost(Seq::new(n as nat, |i: int| 0)),
        clock: Ghost(0),
    };
    let mut i: usize = 0;
    while i < n
        invariant
            n == g.files@.len(),
            0 <= i <= n,
            st.visited@.len() == i,
            st.on_path@.len() == i,
            st.path@.len() == 0,
            st.done@.len() == n,
            st.finish@.len() == n,
            forall|j: int| 0 <= j < i ==> !st.visited@[j] && !st.on_path@[j],
            forall|j: int| 0 <= j < n ==> !st.done@[j],
            st.clock@ == 0,
        decreases n - i,
    {
        st.visited.push(false);
        st.on_path.push(false);
        i += 1;
    }
    let mut r: Vec<CircularDependency> = Vec::new();
    assert(st.path_ok(*g)) by {
        assert forall|j: int| 0 <= j < n implies (st.on_path@[j] <==> st.path@.contains(j as usize)) by {
            assert(!st.on_path@[j]);
        }
    }
    assert(st.visited@ =~= Seq::new(n as nat, |i: int| false));
    let ghost mut found: Seq<Seq<usize>> = Seq::empty();
    i = 0;
    while i < n
        invariant
            g.wf(),
            indexes_edges(*g, es@),
            es@ == edges_of(*g),
            cycles_found(*g) == found + roots_spec(es@, n as nat, i as nat, st.visited@),
            r@.len() == found.len(),
            forall|a: int| 0 <= a < r@.len() ==> views((#[trigger] r@[a]).cycle@) == ids_at(*g, found[a]),
            n == g.files@.len(),
            0 <= i <= n,
            st.shaped(n as nat),
            st.path@.len() == 0,
            forall|j: int| 0 <= j < n ==> !st.on_path@[j],
            st.path_ok(*g),
            forall|j: int| 0 <= j < i ==> #[trigger] st.visited@[j],
            r@.len() == 0 ==> st.clean(es@, n as nat),
            r@.len() <= i,
            forall|a: int|
                0 <= a < r@.len() ==> is_cycle(*g, views((#[trigger] r@[a]).cycle@)) && r@[a].severity
                    == severity_for(r@[a].cycle@.len() - 1),
        decreases n - i,
    {
        let ghost vis_i = st.visited@;
        if !st.visited[i] {
            let hit = search_from(g, &es, i, &mut st);
            let ghost outcome = search_spec(es@, i, vis_i, Seq::empty(), n as nat);
            assert(st.path@ =~= Seq::<usize>::empty());
            match hit {
                Some(c) => {
                    let ids = cycle_ids(g, &c);
                    let severity = cycle_severity(ids.len() - 1);
                    r.push(CircularDependency { cycle: ids, severity });
                    proof {
                        assert(roots_spec(es@, n as nat, i as nat, vis_i) == seq![c@] + roots_spec(es@, n as nat, (i + 1) as nat, st.visited@));
                        assert(found + (seq![c@] + roots_spec(es@, n as nat, (i + 1) as nat, st.visited@)) =~= found.push(c@) + roots_spec(es@, n as nat, (i + 1) as nat, st.visited@));
                        found = found.push(c@);
                    }
                },
                None => {
                    assert(roots_spec(es@, n as nat, i as nat, vis_i) == roots_spec(es@, n as nat, (i + 1) as nat, st.visited@));
                },
            }
        } else {
            assert(roots_spec(es@, n as nat, i as nat, vis_i) == roots_spec(es@, n as nat, (i + 1) as nat, vis_i));
        }
        i += 1;
    }
    assert(found + roots_spec(es@, n as nat, n as nat, st.visited@) =~= found);
    proof {
        if r@.len() == 0 {
            assert forall|k: int| 0 <= k < es@.len() implies st.finish@[(#[trigger] es@[k]).1 as int]
                < st.finish@[es@[k].0 as int] by {
                let u = es@[k].0 as int;
                assert(st.visited@[u]);
                assert(st.done@[u]);
            }
            lemma_finish_order_acyclic(*g, es@, st.finish@);
        } else {
            let c = views(r@[0].cycle@);
            assert(is_cycle(*g, c));
            assert(is_closed_walk(*g, c));
        }
    }
    r
}

proof fn lemma_layered_walk(g: ImportExportGraph, level: spec_fn(Seq<char>) -> int, c: Seq<Seq<char>>, t: int)
    requires
        forall|a: Seq<char>, b: Seq<char>| #[trigger] has_edge(g, a, b) ==> level(a) > level(b),
        is_closed_walk(g, c),
        0 <= t < c.len(),
    ensures
        level(c[t]) + t <= level(c[0]),
    decreases t,
{
    if t > 0 {
        lemma_layered_walk(g, level, c, t - 1);
        assert(has_edge(g, c[t - 1], c[t]));
    }
}

/// No false cycle: a graph whose files can be given levels so that every
/// import leads to a strictly lower level (such as a layered graph) has no
/// cycle, so cycle detection reports none on it.
pub proof fn lemma_layered_graph_acyclic(g: ImportExportGraph, level: spec_fn(Seq<char>) -> int)
    requires
        forall|a: Seq<char>, b: Seq<char>| #[trigger] has_edge(g, a, b) ==> level(a) > level(b),
    ensures
        acyclic(g),
{
    assert forall|c: Seq<Seq<char>>| !is_closed_walk(g, c) by {
        if is_closed_walk(g, c) {
            lemma_layered_walk(g, level, c, c.len() - 1);
        }
    }
}

} // verus!
