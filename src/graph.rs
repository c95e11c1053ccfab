//! The dependency graph builder: files get stable ids, and relative imports
//! are resolved by file name into merged file-to-file edges.

use vstd::prelude::*;
use crate::analysis::{
    calculate_dependency_depth, contains_string, depth_of, degrees, find_most_dependent_files,
    find_most_imported_files, find_orphaned_files, has_edge, is_file_ranking, orphans, views,
};
use crate::cycles::{find_circular_dependencies, acyclic, cycles_found, ids_at, is_cycle, severity_for};
use crate::model::{Dependency, DependencyAnalysis, Export, FileInfo, FileType, Import, ImportExportGraph};
use crate::extract::{export_fact, extract_imports_exports, import_fact, module_exports, module_imports};
use crate::project::SourceFile;
use crate::text::{
    file_name, file_name_of, forward_slashes, normalize_path, push_char, push_decimal,
    starts_with_dot, strip_dot_slash, trim_dot_slash, decimal, lemma_decimal_injective, has_suffix,
    ends_with_str,
};

verus! {

/// The id given to the file at position `i`: `file_` and the decimal digits.
pub open spec fn file_id_text(i: nat) -> Seq<char> {
    seq!['f', 'i', 'l', 'e', '_'] + decimal(i)
}

/// Each file's id is the id of its position.
pub open spec fn ids_by_position(files: Seq<FileInfo>) -> bool {
    forall|j: int| 0 <= j < files.len() ==> (#[trigger] files[j]).id@ == file_id_text(j as nat)
}

proof fn lemma_file_ids_distinct(a: nat, b: nat)
    requires
        a != b,
    ensures
        file_id_text(a) != file_id_text(b),
{
    if file_id_text(a) == file_id_text(b) {
        let p = seq!['f', 'i', 'l', 'e', '_'];
        assert(decimal(a) =~= file_id_text(a).subrange(5, file_id_text(a).len() as int));
        assert(decimal(b) =~= file_id_text(b).subrange(5, file_id_text(b).len() as int));
        lemma_decimal_injective(a, b);
    }
}

/// Files numbered by position have unique ids.
pub proof fn lemma_positional_ids_unique(files: Seq<FileInfo>)
    requires
        ids_by_position(files),
    ensures
        forall|i: int, j: int|
            0 <= i < files.len() && 0 <= j < files.len() && i != j ==> #[trigger] files[i].id@
                != #[trigger] files[j].id@,
{
    assert forall|i: int, j: int|
        0 <= i < files.len() && 0 <= j < files.len() && i != j implies #[trigger] files[i].id@
        != #[trigger] files[j].id@ by {
        assert(files[i].id@ == file_id_text(i as nat));
        assert(files[j].id@ == file_id_text(j as nat));
        lemma_file_ids_distinct(i as nat, j as nat);
    }
}

/// The id of the file at position `i`.
pub fn file_id(i: usize) -> (r: String)
    ensures
        r@ == file_id_text(i as nat),
{
    let mut s = String::new();
    push_char(&mut s, 'f');
    push_char(&mut s, 'i');
    push_char(&mut s, 'l');
    push_char(&mut s, 'e');
    push_char(&mut s, '_');
    push_decimal(&mut s, i as u64);
    assert(s@ =~= file_id_text(i as nat));
    s
}

/// The extension of the path `p`, as `std::path::Path::extension` gives it.
pub uninterp spec fn extension_of(p: Seq<char>) -> Option<Seq<char>>;

/// Relies on `Path::extension`: the part of the file name after its last
/// dot, if any.
#[verifier::external_body]
pub(crate) fn extension_of_path(p: &str) -> (r: Option<String>)
    ensures
        r matches Some(e) ==> extension_of(p@) == Some(e@),
        r is None ==> extension_of(p@) is None,
{
    std::path::Path::new(p).extension().map(|e| e.to_string_lossy().to_string())
}

/// The kind of the file at `p`: a path ending in `.d.ts` is a declaration
/// file; otherwise the extension decides, `ts` a script module, `js` a plain
/// script, anything else unknown.
pub open spec fn file_type_for(p: Seq<char>) -> FileType {
    if has_suffix(p, ".d.ts"@) {
        FileType::Declaration
    } else {
        match extension_of(p) {
            Some(e) => if e == "ts"@ {
                FileType::TypeScript
            } else if e == "js"@ {
                FileType::JavaScript
            } else {
                FileType::Module
            },
            None => FileType::Module,
        }
    }
}

/// The kind of the file at `path`: a declaration file by its `.d.ts`
/// ending, else by its extension.
pub fn get_file_type(path: &str) -> (r: FileType)
    ensures
        r == file_type_for(path@),
{
    if ends_with_str(path, ".d.ts") {
        return FileType::Declaration;
    }
    match extension_of_path(path) {
        Some(e) => {
            if e == "ts".to_owned() {
                FileType::TypeScript
            } else if e == "js".to_owned() {
                FileType::JavaScript
            } else {
                FileType::Module
            }
        },
        None => FileType::Module,
    }
}

fn symbol_names_of_imports(v: &Vec<Import>) -> (r: Vec<String>)
    ensures
        r@.len() == v@.len(),
        forall|i: int| 0 <= i < v@.len() ==> #[trigger] r@[i] == v@[i].symbol_name,
{
    let mut r: Vec<String> = Vec::new();
    let mut i: usize = 0;
    while i < v.len()
        invariant
            0 <= i <= v@.len(),
            r@.len() == i,
            forall|j: int| 0 <= j < i ==> #[trigger] r@[j] == v@[j].symbol_name,
        decreases v@.len() - i,
    {
        r.push(v[i].symbol_name.clone());
        i += 1;
    }
    r
}

fn symbol_names_of_exports(v: &Vec<Export>) -> (r: Vec<String>)
    ensures
        r@.len() == v@.len(),
        forall|i: int| 0 <= i < v@.len() ==> #[trigger] r@[i] == v@[i].symbol_name,
{
    let mut r: Vec<String> = Vec::new();
    let mut i: usize = 0;
    while i < v.len()
        invariant
            0 <= i <= v@.len(),
            r@.len() == i,
            forall|j: int| 0 <= j < i ==> #[trigger] r@[j] == v@[j].symbol_name,
        decreases v@.len() - i,
    {
        r.push(v[i].symbol_name.clone());
        i += 1;
    }
    r
}

/// Registers one parsed file: it gets the id of the next position, its kind
/// from its extension, the names of its exported and imported symbols, and
/// its import and export records join the graph's.
pub fn add_file(
    graph: &mut ImportExportGraph,
    file_path: String,
    relative_path: String,
    imports: Vec<Import>,
    exports: Vec<Export>,
)
    requires
        ids_by_position(old(graph).files@),
    ensures
        ids_by_position(final(graph).files@),
        final(graph).files@.len() == old(graph).files@.len() + 1,
        final(graph).files@.drop_last() == old(graph).files@,
        final(graph).files@.last().file_path == file_path,
        final(graph).files@.last().relative_path == relative_path,
        final(graph).files@.last().file_type == file_type_for(file_path@),
        final(graph).files@.last().exports@ == exports@.map_values(|e: Export| e.symbol_name),
        final(graph).files@.last().imports@ == imports@.map_values(|i: Import| i.symbol_name),
        final(graph).imports@ == old(graph).imports@ + imports@,
        final(graph).exports@ == old(graph).exports@ + exports@,
        final(graph).dependencies@ == old(graph).dependencies@,
{
    let id = file_id(graph.files.len());
    let file_type = get_file_type(file_path.as_str());
    let export_names = symbol_names_of_exports(&exports);
    let import_names = symbol_names_of_imports(&imports);
    assert(export_names@ =~= exports@.map_values(|e: Export| e.symbol_name));
    assert(import_names@ =~= imports@.map_values(|i: Import| i.symbol_name));
    let ghost files0 = graph.files@;
    graph.files.push(FileInfo {
        id,
        file_path,
        relative_path,
        file_type,
        exports: export_names,
        imports: import_names,
    });
    assert(graph.files@.drop_last() =~= files0);
    let mut imports = imports;
    let mut exports = exports;
    graph.imports.append(&mut imports);
    graph.exports.append(&mut exports);
}

/// The module specifier is relative: it begins with a dot.
pub open spec fn is_relative(m: Seq<char>) -> bool {
    m.len() > 0 && m[0] == '.'
}

/// The file name a relative import is expected to name: the specifier
/// without its leading `./`, with the script extension.
pub open spec fn expected_file_name(m: Seq<char>) -> Seq<char> {
    strip_dot_slash(m) + seq!['.', 't', 's']
}

/// The file at position `t` is the first whose file name is `name`.
pub open spec fn first_named(files: Seq<FileInfo>, name: Seq<char>, t: int) -> bool {
    &&& 0 <= t < files.len()
    &&& file_name_of(files[t].file_path@) == Some(name)
    &&& forall|u: int| 0 <= u < t ==> file_name_of((#[trigger] files[u]).file_path@) != Some(name)
}

/// The file at position `s` is the last whose path, with forward slashes,
/// is `path`.
pub open spec fn last_at_path(files: Seq<FileInfo>, path: Seq<char>, s: int) -> bool {
    &&& 0 <= s < files.len()
    &&& forward_slashes(files[s].file_path@) == path
    &&& forall|u: int| s < u < files.len() ==> forward_slashes((#[trigger] files[u]).file_path@) != path
}

/// The import resolves to an edge from the file at `s` to the file at `t`:
/// it is relative, `t` is the first file with the expected name, and `s` the
/// file the import was read from.
pub open spec fn resolves_to(files: Seq<FileInfo>, imp: Import, s: int, t: int) -> bool {
    &&& is_relative(imp.source_module@)
    &&& first_named(files, expected_file_name(imp.source_module@), t)
    &&& last_at_path(files, forward_slashes(imp.file_path@), s)
}

/// Some of the first `k` imports resolves to the edge from `s` to `t`.
pub open spec fn resolved_upto(files: Seq<FileInfo>, imports: Seq<Import>, s: int, t: int, k: int) -> bool {
    exists|j: int| 0 <= j < k && resolves_to(files, #[trigger] imports[j], s, t)
}

/// Some of the first `k` imports resolves to the edge from `s` to `t` and
/// brings the symbol `sym`.
pub open spec fn brings_upto(
    files: Seq<FileInfo>,
    imports: Seq<Import>,
    s: int,
    t: int,
    sym: Seq<char>,
    k: int,
) -> bool {
    exists|j: int|
        0 <= j < k && resolves_to(files, #[trigger] imports[j], s, t) && imports[j].symbol_name@ == sym
}

/// `deps`, whose files are at the positions `ends`, hold exactly the merged
/// edges of the first `k` imports.
spec fn built_upto(
    files: Seq<FileInfo>,
    imports: Seq<Import>,
    deps: Seq<Dependency>,
    ends: Seq<(int, int)>,
    k: int,
) -> bool {
    &&& deps.len() == ends.len()
    &&& forall|d: int|
        0 <= d < deps.len() ==> 0 <= (#[trigger] ends[d]).0 < files.len() && 0 <= ends[d].1 < files.len()
            && deps[d].from_file@ == files[ends[d].0].id@ && deps[d].to_file@ == files[ends[d].1].id@
    &&& forall|d1: int, d2: int| 0 <= d1 < d2 < ends.len() ==> #[trigger] ends[d1] != #[trigger] ends[d2]
    &&& forall|s: int, t: int| #[trigger] ends.contains((s, t)) <==> resolved_upto(files, imports, s, t, k)
    &&& forall|d: int, sym: Seq<char>|
        0 <= d < deps.len() ==> (#[trigger] views(deps[d].imported_symbols@).contains(sym) <==> brings_upto(
            files,
            imports,
            ends[d].0,
            ends[d].1,
            sym,
            k,
        ))
    &&& forall|d: int| 0 <= d < deps.len() ==> views(#[trigger] deps[d].imported_symbols@).no_duplicates()
}

/// The graph's dependencies are exactly the merged edges of its imports:
/// one per pair of files that some import resolves to, holding the distinct
/// symbols of those imports.
pub open spec fn dependencies_built(g: ImportExportGraph) -> bool {
    let files = g.files@;
    let imports = g.imports@;
    &&& forall|s: int, t: int|
        0 <= s < files.len() && 0 <= t < files.len() ==> (has_edge(g, files[s].id@, files[t].id@)
            <==> resolved_upto(files, imports, s, t, imports.len() as int))
    &&& forall|d: int, s: int, t: int, sym: Seq<char>|
        #![trigger views(g.dependencies@[d].imported_symbols@).contains(sym), files[s], files[t]]
        0 <= d < g.dependencies@.len() && 0 <= s < files.len() && 0 <= t < files.len()
            && g.dependencies@[d].from_file@ == files[s].id@
            && g.dependencies@[d].to_file@ == files[t].id@ ==> (views(
            g.dependencies@[d].imported_symbols@,
        ).contains(sym) <==> brings_upto(files, imports, s, t, sym, imports.len() as int))
    &&& forall|d: int|
        0 <= d < g.dependencies@.len() ==> views(
            (#[trigger] g.dependencies@[d]).imported_symbols@,
        ).no_duplicates()
}

proof fn lemma_resolution_unique(files: Seq<FileInfo>, imp: Import, s1: int, t1: int, s2: int, t2: int)
    requires
        resolves_to(files, imp, s1, t1),
        resolves_to(files, imp, s2, t2),
    ensures
        s1 == s2 && t1 == t2,
{
    let name = expected_file_name(imp.source_module@);
    if t1 < t2 {
        assert(file_name_of(files[t1].file_path@) == Some(name));
    } else if t2 < t1 {
        assert(file_name_of(files[t2].file_path@) == Some(name));
    }
    let p = forward_slashes(imp.file_path@);
    if s1 < s2 {
        assert(forward_slashes(files[s2].file_path@) == p);
    } else if s2 < s1 {
        assert(forward_slashes(files[s1].file_path@) == p);
    }
}

fn first_file_named(files: &Vec<FileInfo>, name: &String) -> (r: Option<usize>)
    ensures
        r matches Some(t) ==> first_named(files@, name@, t as int),
        r is None ==> forall|u: int| 0 <= u < files@.len() ==> file_name_of((#[trigger] files@[u]).file_path@) != Some(name@),
{
    let mut u: usize = 0;
    while u < files.len()
        invariant
            0 <= u <= files@.len(),
            forall|v: int| 0 <= v < u ==> file_name_of((#[trigger] files@[v]).file_path@) != Some(name@),
        decreases files@.len() - u,
    {
        match file_name(files[u].file_path.as_str()) {
            Some(n) => {
                if n == *name {
                    return Some(u);
                }
            },
            None => {},
        }
        u += 1;
    }
    None
}

fn last_file_at(files: &Vec<FileInfo>, path: &String) -> (r: Option<usize>)
    ensures
        r matches Some(s) ==> last_at_path(files@, path@, s as int),
        r is None ==> forall|u: int| 0 <= u < files@.len() ==> forward_slashes((#[trigger] files@[u]).file_path@) != path@,
{
    let mut u: usize = files.len();
    while u > 0
        invariant
            0 <= u <= files@.len(),
            forall|v: int| u <= v < files@.len() ==> forward_slashes((#[trigger] files@[v]).file_path@) != path@,
        decreases u,
    {
        u -= 1;
        let p = normalize_path(files[u].file_path.as_str());
        if p == *path {
            return Some(u);
        }
    }
    None
}

pub(crate) fn find_dependency(deps: &Vec<Dependency>, from: &String, to: &String) -> (r: Option<usize>)
    ensures
        r matches Some(d) ==> d < deps@.len() && deps@[d as int].from_file@ == from@ && deps@[d as int].to_file@ == to@,
        r is None ==> forall|d: int| 0 <= d < deps@.len() ==> !((#[trigger] deps@[d]).from_file@ == from@ && deps@[d].to_file@ == to@),
{
    let mut d: usize = 0;
    while d < deps.len()
        invariant
            0 <= d <= deps@.len(),
            forall|e: int| 0 <= e < d ==> !((#[trigger] deps@[e]).from_file@ == from@ && deps@[e].to_file@ == to@),
        decreases deps@.len() - d,
    {
        if deps[d].from_file == *from && deps[d].to_file == *to {
            return Some(d);
        }
        d += 1;
    }
    None
}

pub(crate) fn clone_strings(v: &Vec<String>) -> (r: Vec<String>)
    ensures
        r@ == v@,
{
    let mut r: Vec<String> = Vec::new();
    let mut i: usize = 0;
    while i < v.len()
        invariant
            0 <= i <= v@.len(),
            r@ == v@.subrange(0, i as int),
        decreases v@.len() - i,
    {
        r.push(v[i].clone());
        i += 1;
        assert(r@ =~= v@.subrange(0, i as int));
    }
    assert(r@ =~= v@);
    r
}

proof fn lemma_step_unresolved(
    files: Seq<FileInfo>,
    imports: Seq<Import>,
    deps: Seq<Dependency>,
    ends: Seq<(int, int)>,
    k: int,
)
    requires
        0 <= k < imports.len(),
        built_upto(files, imports, deps, ends, k),
        forall|s: int, t: int| !resolves_to(files, imports[k], s, t),
    ensures
        built_upto(files, imports, deps, ends, k + 1),
{
    assert forall|s: int, t: int| resolved_upto(files, imports, s, t, k + 1) == resolved_upto(files, imports, s, t, k) by {
        if resolved_upto(files, imports, s, t, k + 1) {
            let j = choose|j: int| 0 <= j < k + 1 && resolves_to(files, #[trigger] imports[j], s, t);
            assert(j != k);
        }
    }
    assert forall|s: int, t: int, sym: Seq<char>| brings_upto(files, imports, s, t, sym, k + 1) == brings_upto(files, imports, s, t, sym, k) by {
        if brings_upto(files, imports, s, t, sym, k + 1) {
            let j = choose|j: int| 0 <= j < k + 1 && resolves_to(files, #[trigger] imports[j], s, t) && imports[j].symbol_name@ == sym;
            assert(j != k);
        }
    }
}

proof fn lemma_step_other_pairs(files: Seq<FileInfo>, imports: Seq<Import>, k: int, s: int, t: int)
    requires
        0 <= k < imports.len(),
        resolves_to(files, imports[k], s, t),
    ensures
        forall|s2: int, t2: int|
            #![trigger resolved_upto(files, imports, s2, t2, k + 1)]
            resolved_upto(files, imports, s2, t2, k + 1) == (resolved_upto(files, imports, s2, t2, k) || (s2 == s && t2 == t)),
        forall|s2: int, t2: int, sym: Seq<char>|
            #![trigger brings_upto(files, imports, s2, t2, sym, k + 1)]
            brings_upto(files, imports, s2, t2, sym, k + 1) == (brings_upto(files, imports, s2, t2, sym, k) || (s2 == s && t2 == t
                && sym == imports[k].symbol_name@)),
{
    assert forall|s2: int, t2: int| #![trigger resolved_upto(files, imports, s2, t2, k + 1)]
        resolved_upto(files, imports, s2, t2, k + 1) == (resolved_upto(files, imports, s2, t2, k) || (s2 == s && t2 == t)) by {
        if resolved_upto(files, imports, s2, t2, k + 1) && !resolved_upto(files, imports, s2, t2, k) {
            let j = choose|j: int| 0 <= j < k + 1 && resolves_to(files, #[trigger] imports[j], s2, t2);
            assert(j == k);
            lemma_resolution_unique(files, imports[k], s, t, s2, t2);
        }
        if s2 == s && t2 == t {
            assert(resolves_to(files, imports[k], s2, t2));
        }
        if resolved_upto(files, imports, s2, t2, k) {
            let j = choose|j: int| 0 <= j < k && resolves_to(files, #[trigger] imports[j], s2, t2);
            assert(0 <= j < k + 1);
        }
    }
    assert forall|s2: int, t2: int, sym: Seq<char>| #![trigger brings_upto(files, imports, s2, t2, sym, k + 1)]
        brings_upto(files, imports, s2, t2, sym, k + 1) == (brings_upto(files, imports, s2, t2, sym, k) || (s2 == s && t2 == t
            && sym == imports[k].symbol_name@)) by {
        if brings_upto(files, imports, s2, t2, sym, k + 1) && !brings_upto(files, imports, s2, t2, sym, k) {
            let j = choose|j: int| 0 <= j < k + 1 && resolves_to(files, #[trigger] imports[j], s2, t2) && imports[j].symbol_name@ == sym;
            assert(j == k);
            lemma_resolution_unique(files, imports[k], s, t, s2, t2);
        }
        if s2 == s && t2 == t && sym == imports[k].symbol_name@ {
            assert(resolves_to(files, imports[k], s2, t2));
        }
        if brings_upto(files, imports, s2, t2, sym, k) {
            let j = choose|j: int| 0 <= j < k && resolves_to(files, #[trigger] imports[j], s2, t2) && imports[j].symbol_name@ == sym;
            assert(0 <= j < k + 1);
        }
    }
}

proof fn lemma_step_merge(
    files: Seq<FileInfo>,
    imports: Seq<Import>,
    deps: Seq<Dependency>,
    deps2: Seq<Dependency>,
    ends: Seq<(int, int)>,
    k: int,
    s: int,
    t: int,
    d: int,
)
    requires
        0 <= k < imports.len(),
        built_upto(files, imports, deps, ends, k),
        resolves_to(files, imports[k], s, t),
        0 <= d < deps.len(),
        ends[d] == (s, t),
        deps2.len() == deps.len(),
        forall|e: int| 0 <= e < deps.len() && e != d ==> #[trigger] deps2[e] == deps[e],
        deps2[d].from_file@ == deps[d].from_file@,
        deps2[d].to_file@ == deps[d].to_file@,
        views(deps2[d].imported_symbols@) == if views(deps[d].imported_symbols@).contains(imports[k].symbol_name@) {
            views(deps[d].imported_symbols@)
        } else {
            views(deps[d].imported_symbols@).push(imports[k].symbol_name@)
        },
    ensures
        built_upto(files, imports, deps2, ends, k + 1),
{
    lemma_step_other_pairs(files, imports, k, s, t);
    assert(ends.contains((s, t))) by {
        assert(ends[d] == (s, t));
    }
    let sym = imports[k].symbol_name@;
    let old_syms = views(deps[d].imported_symbols@);
    let new_syms = views(deps2[d].imported_symbols@);
    assert forall|x: Seq<char>| #[trigger] new_syms.contains(x) <==> (old_syms.contains(x) || x == sym) by {
        if !old_syms.contains(sym) {
            if new_syms.contains(x) {
                let i = choose|i: int| 0 <= i < new_syms.len() && new_syms[i] == x;
                if i < old_syms.len() {
                    assert(old_syms[i] == x);
                }
            }
            if old_syms.contains(x) {
                let i = choose|i: int| 0 <= i < old_syms.len() && old_syms[i] == x;
                assert(new_syms[i] == x);
            }
            if x == sym {
                assert(new_syms[new_syms.len() - 1] == x);
            }
        }
    }
    assert(new_syms.no_duplicates()) by {
        if !old_syms.contains(sym) {
            assert forall|i: int, j: int| 0 <= i < new_syms.len() && 0 <= j < new_syms.len() && i != j implies new_syms[i] != new_syms[j] by {
                if i < old_syms.len() && j < old_syms.len() {
                    assert(new_syms[i] == old_syms[i] && new_syms[j] == old_syms[j]);
                } else if i < old_syms.len() {
                    assert(new_syms[i] == old_syms[i]);
                } else if j < old_syms.len() {
                    assert(new_syms[j] == old_syms[j]);
                }
            }
        }
    }
    assert forall|e: int, x: Seq<char>|
        0 <= e < deps2.len() implies (#[trigger] views(deps2[e].imported_symbols@).contains(x) <==> brings_upto(
        files,
        imports,
        ends[e].0,
        ends[e].1,
        x,
        k + 1,
    )) by {
        if e != d {
            assert(deps2[e] == deps[e]);
            assert(ends[e] != ends[d]);
            assert(views(deps[e].imported_symbols@).contains(x) == brings_upto(files, imports, ends[e].0, ends[e].1, x, k));
        } else {
            assert(old_syms.contains(x) == brings_upto(files, imports, s, t, x, k));
        }
    }
    assert forall|e: int| 0 <= e < deps2.len() implies views(#[trigger] deps2[e].imported_symbols@).no_duplicates() by {
        if e != d {
            assert(deps2[e] == deps[e]);
        }
    }
    assert forall|e: int|
        0 <= e < deps2.len() implies 0 <= (#[trigger] ends[e]).0 < files.len() && 0 <= ends[e].1 < files.len()
            && deps2[e].from_file@ == files[ends[e].0].id@ && deps2[e].to_file@ == files[ends[e].1].id@ by {
        if e != d {
            assert(deps2[e] == deps[e]);
        }
    }
}

proof fn lemma_step_new(
    files: Seq<FileInfo>,
    imports: Seq<Import>,
    deps: Seq<Dependency>,
    nd: Dependency,
    ends: Seq<(int, int)>,
    k: int,
    s: int,
    t: int,
)
    requires
        0 <= k < imports.len(),
        built_upto(files, imports, deps, ends, k),
        resolves_to(files, imports[k], s, t),
        !ends.contains((s, t)),
        nd.from_file@ == files[s].id@,
        nd.to_file@ == files[t].id@,
        views(nd.imported_symbols@) == seq![imports[k].symbol_name@],
    ensures
        built_upto(files, imports, deps.push(nd), ends.push((s, t)), k + 1),
{
    lemma_step_other_pairs(files, imports, k, s, t);
    let deps2 = deps.push(nd);
    let ends2 = ends.push((s, t));
    let sym = imports[k].symbol_name@;
    assert(!resolved_upto(files, imports, s, t, k));
    assert forall|x: Seq<char>| !brings_upto(files, imports, s, t, x, k) by {
        if brings_upto(files, imports, s, t, x, k) {
            let j = choose|j: int| 0 <= j < k && resolves_to(files, #[trigger] imports[j], s, t) && imports[j].symbol_name@ == x;
            assert(resolved_upto(files, imports, s, t, k));
        }
    }
    assert forall|s2: int, t2: int| #[trigger] ends2.contains((s2, t2)) <==> resolved_upto(files, imports, s2, t2, k + 1) by {
        if ends2.contains((s2, t2)) && !(s2 == s && t2 == t) {
            let i = choose|i: int| 0 <= i < ends2.len() && ends2[i] == (s2, t2);
            assert(ends[i] == (s2, t2));
            assert(ends.contains((s2, t2)));
        }
        if ends.contains((s2, t2)) {
            let i = choose|i: int| 0 <= i < ends.len() && ends[i] == (s2, t2);
            assert(ends2[i] == (s2, t2));
        }
        if s2 == s && t2 == t {
            assert(ends2[ends.len() as int] == (s2, t2));
        }
    }
    assert forall|d1: int, d2: int| 0 <= d1 < d2 < ends2.len() implies #[trigger] ends2[d1] != #[trigger] ends2[d2] by {
        if d2 == ends.len() {
            assert(ends2[d1] == ends[d1]);
            if ends[d1] == (s, t) {
                assert(ends.contains((s, t)));
            }
        } else {
            assert(ends2[d1] == ends[d1] && ends2[d2] == ends[d2]);
        }
    }
    assert forall|e: int, x: Seq<char>|
        0 <= e < deps2.len() implies (#[trigger] views(deps2[e].imported_symbols@).contains(x) <==> brings_upto(
        files,
        imports,
        ends2[e].0,
        ends2[e].1,
        x,
        k + 1,
    )) by {
        if e < deps.len() {
            assert(deps2[e] == deps[e]);
            assert(ends2[e] == ends[e]);
            if ends[e] == (s, t) {
                assert(ends.contains((s, t)));
            }
        } else {
            let v = views(nd.imported_symbols@);
            if v.contains(x) {
                let i = choose|i: int| 0 <= i < v.len() && v[i] == x;
                assert(i == 0);
            }
            if x == sym {
                assert(v[0] == x);
            }
        }
    }
    assert forall|e: int| 0 <= e < deps2.len() implies views(#[trigger] deps2[e].imported_symbols@).no_duplicates() by {
        if e < deps.len() {
            assert(deps2[e] == deps[e]);
        }
    }
    assert forall|e: int|
        0 <= e < deps2.len() implies 0 <= (#[trigger] ends2[e]).0 < files.len() && 0 <= ends2[e].1 < files.len()
            && deps2[e].from_file@ == files[ends2[e].0].id@ && deps2[e].to_file@ == files[ends2[e].1].id@ by {
        if e < deps.len() {
            assert(deps2[e] == deps[e]);
            assert(ends2[e] == ends[e]);
        }
    }
}

/// The distinct symbols of the first `k` imports that resolve to the edge
/// from `s` to `t`, in order of first occurrence.
pub open spec fn symbols_upto(files: Seq<FileInfo>, imports: Seq<Import>, s: int, t: int, k: int) -> Seq<Seq<char>>
    decreases k,
{
    if k <= 0 {
        Seq::empty()
    } else {
        let prev = symbols_upto(files, imports, s, t, k - 1);
        let imp = imports[k - 1];
        if resolves_to(files, imp, s, t) && !prev.contains(imp.symbol_name@) {
            prev.push(imp.symbol_name@)
        } else {
            prev
        }
    }
}

/// The position of the first of the first `k` imports that resolves to the
/// edge from `s` to `t`.
pub open spec fn first_resolving(files: Seq<FileInfo>, imports: Seq<Import>, s: int, t: int, k: int) -> Option<int>
    decreases k,
{
    if k <= 0 {
        None
    } else {
        match first_resolving(files, imports, s, t, k - 1) {
            Some(j) => Some(j),
            None => if resolves_to(files, imports[k - 1], s, t) {
                Some(k - 1)
            } else {
                None
            },
        }
    }
}

/// The dependency `d` joins the files at `s` and `t` as the first `k`
/// imports make it: their distinct symbols in order of first occurrence, and
/// the form and line of the first of them.
pub open spec fn merged_as(files: Seq<FileInfo>, imports: Seq<Import>, d: Dependency, s: int, t: int, k: int) -> bool {
    &&& views(d.imported_symbols@) == symbols_upto(files, imports, s, t, k)
    &&& first_resolving(files, imports, s, t, k) matches Some(j) && d.import_type == imports[j].import_type
        && d.line_number == imports[j].line_number
}

/// Every dependency of `deps`, at the positions `ends`, is merged as the
/// first `k` imports make it.
spec fn merged_upto(files: Seq<FileInfo>, imports: Seq<Import>, deps: Seq<Dependency>, ends: Seq<(int, int)>, k: int) -> bool {
    forall|d: int| 0 <= d < deps.len() ==> merged_as(files, imports, #[trigger] deps[d], ends[d].0, ends[d].1, k)
}

/// Each dependency of the graph holds the distinct symbols of the imports
/// that resolve to its two files, in order of first occurrence, with the
/// form and line of the first such import.
pub open spec fn dependencies_ordered(g: ImportExportGraph) -> bool {
    forall|d: int, s: int, t: int|
        #![trigger g.dependencies@[d], g.files@[s], g.files@[t]]
        0 <= d < g.dependencies@.len() && 0 <= s < g.files@.len() && 0 <= t < g.files@.len()
            && g.dependencies@[d].from_file@ == g.files@[s].id@ && g.dependencies@[d].to_file@ == g.files@[t].id@
            ==> merged_as(g.files@, g.imports@, g.dependencies@[d], s, t, g.imports@.len() as int)
}

proof fn lemma_unresolved_empty(files: Seq<FileInfo>, imports: Seq<Import>, s: int, t: int, k: int)
    requires
        0 <= k <= imports.len(),
        !resolved_upto(files, imports, s, t, k),
    ensures
        symbols_upto(files, imports, s, t, k).len() == 0,
        first_resolving(files, imports, s, t, k) is None,
    decreases k,
{
    if k > 0 {
        if resolves_to(files, imports[k - 1], s, t) {
            assert(resolved_upto(files, imports, s, t, k));
        }
        assert(!resolved_upto(files, imports, s, t, k - 1)) by {
            if resolved_upto(files, imports, s, t, k - 1) {
                let j = choose|j: int| 0 <= j < k - 1 && resolves_to(files, #[trigger] imports[j], s, t);
                assert(resolved_upto(files, imports, s, t, k));
            }
        }
        lemma_unresolved_empty(files, imports, s, t, k - 1);
    }
}

proof fn lemma_merged_unresolved(files: Seq<FileInfo>, imports: Seq<Import>, deps: Seq<Dependency>, ends: Seq<(int, int)>, k: int)
    requires
        0 <= k < imports.len(),
        merged_upto(files, imports, deps, ends, k),
        forall|s: int, t: int| !resolves_to(files, imports[k], s, t),
    ensures
        merged_upto(files, imports, deps, ends, k + 1),
{
    assert forall|d: int| 0 <= d < deps.len() implies merged_as(files, imports, #[trigger] deps[d], ends[d].0, ends[d].1, k + 1) by {
        assert(merged_as(files, imports, deps[d], ends[d].0, ends[d].1, k));
        assert(!resolves_to(files, imports[k], ends[d].0, ends[d].1));
    }
}

proof fn lemma_merged_merge(
    files: Seq<FileInfo>,
    imports: Seq<Import>,
    deps: Seq<Dependency>,
    deps2: Seq<Dependency>,
    ends: Seq<(int, int)>,
    k: int,
    s: int,
    t: int,
    d: int,
)
    requires
        0 <= k < imports.len(),
        merged_upto(files, imports, deps, ends, k),
        resolves_to(files, imports[k], s, t),
        0 <= d < deps.len(),
        ends.len() == deps.len(),
        ends[d] == (s, t),
        forall|e: int| 0 <= e < ends.len() && e != d ==> ends[e] != ends[d],
        deps2.len() == deps.len(),
        forall|e: int| 0 <= e < deps.len() && e != d ==> #[trigger] deps2[e] == deps[e],
        deps2[d].import_type == deps[d].import_type,
        deps2[d].line_number == deps[d].line_number,
        views(deps2[d].imported_symbols@) == if views(deps[d].imported_symbols@).contains(imports[k].symbol_name@) {
            views(deps[d].imported_symbols@)
        } else {
            views(deps[d].imported_symbols@).push(imports[k].symbol_name@)
        },
    ensures
        merged_upto(files, imports, deps2, ends, k + 1),
{
    assert forall|e: int| 0 <= e < deps2.len() implies merged_as(files, imports, #[trigger] deps2[e], ends[e].0, ends[e].1, k + 1) by {
        assert(merged_as(files, imports, deps[e], ends[e].0, ends[e].1, k));
        if e != d {
            assert(deps2[e] == deps[e]);
            assert(ends[e] != ends[d]);
            if resolves_to(files, imports[k], ends[e].0, ends[e].1) {
                lemma_resolution_unique(files, imports[k], s, t, ends[e].0, ends[e].1);
                assert(ends[e] == (ends[e].0, ends[e].1));
                assert(false);
            }
            assert(symbols_upto(files, imports, ends[e].0, ends[e].1, k + 1) == symbols_upto(files, imports, ends[e].0, ends[e].1, k));
            assert(first_resolving(files, imports, ends[e].0, ends[e].1, k + 1) == first_resolving(files, imports, ends[e].0, ends[e].1, k));
        } else {
            let prev = symbols_upto(files, imports, s, t, k);
            assert(views(deps[d].imported_symbols@) == prev);
            assert(symbols_upto(files, imports, s, t, k + 1) == if !prev.contains(imports[k].symbol_name@) {
                prev.push(imports[k].symbol_name@)
            } else {
                prev
            });
            assert(first_resolving(files, imports, s, t, k + 1) == first_resolving(files, imports, s, t, k));
        }
    }
}

proof fn lemma_merged_new(
    files: Seq<FileInfo>,
    imports: Seq<Import>,
    deps: Seq<Dependency>,
    nd: Dependency,
    ends: Seq<(int, int)>,
    k: int,
    s: int,
    t: int,
)
    requires
        0 <= k < imports.len(),
        merged_upto(files, imports, deps, ends, k),
        deps.len() == ends.len(),
        resolves_to(files, imports[k], s, t),
        !resolved_upto(files, imports, s, t, k),
        views(nd.imported_symbols@) == seq![imports[k].symbol_name@],
        nd.import_type == imports[k].import_type,
        nd.line_number == imports[k].line_number,
    ensures
        merged_upto(files, imports, deps.push(nd), ends.push((s, t)), k + 1),
{
    lemma_unresolved_empty(files, imports, s, t, k);
    assert(symbols_upto(files, imports, s, t, k + 1) =~= seq![imports[k].symbol_name@]);
    let deps2 = deps.push(nd);
    let ends2 = ends.push((s, t));
    assert forall|e: int| 0 <= e < deps2.len() implies merged_as(files, imports, #[trigger] deps2[e], ends2[e].0, ends2[e].1, k + 1) by {
        if e < deps.len() {
            assert(deps2[e] == deps[e] && ends2[e] == ends[e]);
            assert(merged_as(files, imports, deps[e], ends[e].0, ends[e].1, k));
            if resolves_to(files, imports[k], ends[e].0, ends[e].1) {
                lemma_resolution_unique(files, imports[k], s, t, ends[e].0, ends[e].1);
                let j = first_resolving(files, imports, s, t, k)->0;
                assert(0 <= j < k && resolves_to(files, imports[j], s, t)) by {
                    lemma_first_resolving_resolves(files, imports, s, t, k);
                }
                assert(resolved_upto(files, imports, s, t, k));
            }
        }
    }
}

proof fn lemma_first_resolving_resolves(files: Seq<FileInfo>, imports: Seq<Import>, s: int, t: int, k: int)
    requires
        first_resolving(files, imports, s, t, k) is Some,
    ensures
        0 <= first_resolving(files, imports, s, t, k)->0 < k,
        resolves_to(files, imports[first_resolving(files, imports, s, t, k)->0], s, t),
    decreases k,
{
    if k > 0 && first_resolving(files, imports, s, t, k - 1) is Some {
        lemma_first_resolving_resolves(files, imports, s, t, k - 1);
    }
}

/// The file name a relative import is expected to name.
fn expected_name(module: &str) -> (r: String)
    ensures
        r@ == expected_file_name(module@),
{
    let stem = trim_dot_slash(module);
    let mut name = stem.to_owned();
    push_char(&mut name, '.');
    push_char(&mut name, 't');
    push_char(&mut name, 's');
    assert(name@ =~= expected_file_name(module@));
    name
}

/// Resolves the import at position `k` to the positions of its two files,
/// if it resolves.
fn resolve_import(g: &ImportExportGraph, k: usize) -> (r: Option<(usize, usize)>)
    requires
        k < g.imports@.len(),
    ensures
        r matches Some(st) ==> resolves_to(g.files@, g.imports@[k as int], st.0 as int, st.1 as int),
        r is None ==> forall|s: int, t: int| !resolves_to(g.files@, g.imports@[k as int], s, t),
{
    let imp = &g.imports[k];
    if !starts_with_dot(imp.source_module.as_str()) {
        return None;
    }
    let name = expected_name(imp.source_module.as_str());
    match first_file_named(&g.files, &name) {
        Some(t) => {
            let src = normalize_path(imp.file_path.as_str());
            match last_file_at(&g.files, &src) {
                Some(s) => Some((s, t)),
                None => None,
            }
        },
        None => None,
    }
}

/// Resolves every relative import to an edge from the file it was read from
/// to the first file with the expected name; imports between the same two
/// files merge into one edge holding their distinct symbols. Imports that
/// are not relative, or name no known file, give no edge.
pub fn build_dependencies(graph: &mut ImportExportGraph)
    requires
        forall|i: int, j: int|
            0 <= i < old(graph).files@.len() && 0 <= j < old(graph).files@.len() && i != j
                ==> #[trigger] old(graph).files@[i].id@ != #[trigger] old(graph).files@[j].id@,
        old(graph).dependencies@.len() == 0,
    ensures
        final(graph).files@ == old(graph).files@,
        final(graph).imports@ == old(graph).imports@,
        final(graph).exports@ == old(graph).exports@,
        final(graph).wf(),
        dependencies_built(*final(graph)),
        dependencies_ordered(*final(graph)),
{
    let ghost files = graph.files@;
    let ghost imports = graph.imports@;
    let mut deps: Vec<Dependency> = Vec::new();
    let ghost mut ends: Seq<(int, int)> = Seq::empty();
    let mut k: usize = 0;
    while k < graph.imports.len()
        invariant
            files == graph.files@,
            imports == graph.imports@,
            forall|i: int, j: int|
                0 <= i < files.len() && 0 <= j < files.len() && i != j ==> #[trigger] files[i].id@
                    != #[trigger] files[j].id@,
            0 <= k <= imports.len(),
            built_upto(files, imports, deps@, ends, k as int),
            merged_upto(files, imports, deps@, ends, k as int),
        decreases imports.len() - k,
    {
        match resolve_import(graph, k) {
            Some((s, t)) => {
                let imp = &graph.imports[k];
                match find_dependency(&deps, &graph.files[s].id, &graph.files[t].id) {
                    Some(d) => {
                        proof {
                            let e = ends[d as int];
                            assert(files[e.0].id@ == files[s as int].id@);
                            assert(files[e.1].id@ == files[t as int].id@);
                            assert(e.0 == s as int && e.1 == t as int);
                        }
                        if !contains_string(&deps[d].imported_symbols, &imp.symbol_name) {
                            let mut syms = clone_strings(&deps[d].imported_symbols);
                            syms.push(imp.symbol_name.clone());
                            let nd = Dependency {
                                from_file: deps[d].from_file.clone(),
                                to_file: deps[d].to_file.clone(),
                                import_type: deps[d].import_type,
                                imported_symbols: syms,
                                line_number: deps[d].line_number,
                            };
                            let ghost deps0 = deps@;
                            deps.set(d, nd);
                            proof {
                                assert(views(deps@[d as int].imported_symbols@) =~= views(deps0[d as int].imported_symbols@).push(imports[k as int].symbol_name@));
                                lemma_step_merge(files, imports, deps0, deps@, ends, k as int, s as int, t as int, d as int);
                                lemma_merged_merge(files, imports, deps0, deps@, ends, k as int, s as int, t as int, d as int);
                            }
                        } else {
                            proof {
                                lemma_step_merge(files, imports, deps@, deps@, ends, k as int, s as int, t as int, d as int);
                                lemma_merged_merge(files, imports, deps@, deps@, ends, k as int, s as int, t as int, d as int);
                            }
                        }
                    },
                    None => {
                        proof {
                            if ends.contains((s as int, t as int)) {
                                let e = choose|e: int| 0 <= e < ends.len() && ends[e] == (s as int, t as int);
                                assert(deps@[e].from_file@ == files[s as int].id@);
                            }
                        }
                        let mut syms: Vec<String> = Vec::new();
                        syms.push(imp.symbol_name.clone());
                        let nd = Dependency {
                            from_file: graph.files[s].id.clone(),
                            to_file: graph.files[t].id.clone(),
                            import_type: imp.import_type,
                            imported_symbols: syms,
                            line_number: imp.line_number,
                        };
                        proof {
                            assert(views(nd.imported_symbols@) =~= seq![imports[k as int].symbol_name@]);
                            lemma_step_new(files, imports, deps@, nd, ends, k as int, s as int, t as int);
                            assert(!resolved_upto(files, imports, s as int, t as int, k as int));
                            lemma_merged_new(files, imports, deps@, nd, ends, k as int, s as int, t as int);
                        }
                        deps.push(nd);
                        proof {
                            ends = ends.push((s as int, t as int));
                        }
                    },
                }
            },
            None => {
                proof {
                    lemma_step_unresolved(files, imports, deps@, ends, k as int);
                    lemma_merged_unresolved(files, imports, deps@, ends, k as int);
                }
            },
        }
        k += 1;
    }
    graph.dependencies = deps;
    proof {
        lemma_built_graph(*graph, ends);
        lemma_ordered_graph(*graph, ends);
    }
}

proof fn lemma_ordered_graph(g: ImportExportGraph, ends: Seq<(int, int)>)
    requires
        forall|i: int, j: int|
            0 <= i < g.files@.len() && 0 <= j < g.files@.len() && i != j ==> #[trigger] g.files@[i].id@
                != #[trigger] g.files@[j].id@,
        built_upto(g.files@, g.imports@, g.dependencies@, ends, g.imports@.len() as int),
        merged_upto(g.files@, g.imports@, g.dependencies@, ends, g.imports@.len() as int),
    ensures
        dependencies_ordered(g),
{
    let files = g.files@;
    assert forall|d: int, s: int, t: int|
        #![trigger g.dependencies@[d], g.files@[s], g.files@[t]]
        0 <= d < g.dependencies@.len() && 0 <= s < files.len() && 0 <= t < files.len()
            && g.dependencies@[d].from_file@ == files[s].id@ && g.dependencies@[d].to_file@ == files[t].id@
            implies merged_as(files, g.imports@, g.dependencies@[d], s, t, g.imports@.len() as int) by {
        assert(files[ends[d].0].id@ == files[s].id@);
        assert(files[ends[d].1].id@ == files[t].id@);
        assert(ends[d] == (s, t));
    }
}

proof fn lemma_built_graph(g: ImportExportGraph, ends: Seq<(int, int)>)
    requires
        forall|i: int, j: int|
            0 <= i < g.files@.len() && 0 <= j < g.files@.len() && i != j ==> #[trigger] g.files@[i].id@
                != #[trigger] g.files@[j].id@,
        built_upto(g.files@, g.imports@, g.dependencies@, ends, g.imports@.len() as int),
    ensures
        g.wf(),
        dependencies_built(g),
{
    let files = g.files@;
    let deps = g.dependencies@;
    assert forall|k: int| 0 <= k < deps.len() implies crate::analysis::is_file_id(g, #[trigger] deps[k].from_file@)
        && crate::analysis::is_file_id(g, deps[k].to_file@) by {
        assert(files[ends[k].0].id@ == deps[k].from_file@);
        assert(files[ends[k].1].id@ == deps[k].to_file@);
    }
    assert forall|k: int, l: int| 0 <= k < deps.len() && 0 <= l < deps.len() && k != l implies !(
        #[trigger] deps[k].from_file@ == #[trigger] deps[l].from_file@ && deps[k].to_file@ == deps[l].to_file@) by {
        if deps[k].from_file@ == deps[l].from_file@ && deps[k].to_file@ == deps[l].to_file@ {
            assert(files[ends[k].0].id@ == files[ends[l].0].id@);
            assert(files[ends[k].1].id@ == files[ends[l].1].id@);
            assert(ends[k] == ends[l]);
            if k < l {
                assert(ends[k] != ends[l]);
            } else {
                assert(ends[l] != ends[k]);
            }
        }
    }
    assert forall|s: int, t: int| 0 <= s < files.len() && 0 <= t < files.len() implies (has_edge(
        g,
        files[s].id@,
        files[t].id@,
    ) <==> resolved_upto(files, g.imports@, s, t, g.imports@.len() as int)) by {
        if has_edge(g, files[s].id@, files[t].id@) {
            let d = choose|d: int| 0 <= d < deps.len() && #[trigger] deps[d].from_file@ == files[s].id@ && deps[d].to_file@ == files[t].id@;
            assert(files[ends[d].0].id@ == files[s].id@);
            assert(files[ends[d].1].id@ == files[t].id@);
            assert(ends[d] == (s, t));
            assert(ends.contains((s, t)));
        }
        if resolved_upto(files, g.imports@, s, t, g.imports@.len() as int) {
            assert(ends.contains((s, t)));
            let d = choose|d: int| 0 <= d < ends.len() && ends[d] == (s, t);
            assert(deps[d].from_file@ == files[s].id@);
        }
    }
    assert forall|d: int, s: int, t: int, sym: Seq<char>|
        #![trigger views(deps[d].imported_symbols@).contains(sym), files[s], files[t]]
        0 <= d < deps.len() && 0 <= s < files.len() && 0 <= t < files.len()
            && deps[d].from_file@ == files[s].id@ && deps[d].to_file@ == files[t].id@ implies (views(
        deps[d].imported_symbols@,
    ).contains(sym) <==> brings_upto(files, g.imports@, s, t, sym, g.imports@.len() as int)) by {
        assert(files[ends[d].0].id@ == files[s].id@);
        assert(files[ends[d].1].id@ == files[t].id@);
        assert(ends[d] == (s, t));
    }
}

/// Edge merge: imports that resolve to the same two files give exactly one
/// dependency between them; it holds the symbol of each, the distinct
/// symbols in order of first occurrence, and the form and line of the first
/// such import.
pub proof fn lemma_edge_merge(g: ImportExportGraph, j1: int, j2: int, s: int, t: int)
    requires
        g.wf(),
        dependencies_built(g),
        dependencies_ordered(g),
        0 <= j1 < g.imports@.len(),
        0 <= j2 < g.imports@.len(),
        resolves_to(g.files@, g.imports@[j1], s, t),
        resolves_to(g.files@, g.imports@[j2], s, t),
    ensures
        exists|d: int|
            0 <= d < g.dependencies@.len() && #[trigger] g.dependencies@[d].from_file@ == g.files@[s].id@
                && g.dependencies@[d].to_file@ == g.files@[t].id@
                && views(g.dependencies@[d].imported_symbols@).contains(g.imports@[j1].symbol_name@)
                && views(g.dependencies@[d].imported_symbols@).contains(g.imports@[j2].symbol_name@)
                && merged_as(g.files@, g.imports@, g.dependencies@[d], s, t, g.imports@.len() as int)
                && forall|e: int|
                0 <= e < g.dependencies@.len() && #[trigger] g.dependencies@[e].from_file@ == g.files@[s].id@
                    && g.dependencies@[e].to_file@ == g.files@[t].id@ ==> e == d,
{
    let files = g.files@;
    let n = g.imports@.len() as int;
    assert(resolved_upto(files, g.imports@, s, t, n));
    assert(has_edge(g, files[s].id@, files[t].id@));
    let d = choose|d: int|
        0 <= d < g.dependencies@.len() && #[trigger] g.dependencies@[d].from_file@ == files[s].id@
            && g.dependencies@[d].to_file@ == files[t].id@;
    assert(brings_upto(files, g.imports@, s, t, g.imports@[j1].symbol_name@, n));
    assert(brings_upto(files, g.imports@, s, t, g.imports@[j2].symbol_name@, n));
    assert(views(g.dependencies@[d].imported_symbols@).contains(g.imports@[j1].symbol_name@));
    assert(views(g.dependencies@[d].imported_symbols@).contains(g.imports@[j2].symbol_name@));
    assert(merged_as(files, g.imports@, g.dependencies@[d], s, t, n));
}

/// External imports give no edges: a file whose imports are all of
/// non-relative modules is the source of no dependency.
pub proof fn lemma_external_imports_no_edges(g: ImportExportGraph, s: int)
    requires
        g.wf(),
        dependencies_built(g),
        0 <= s < g.files@.len(),
        forall|j: int|
            0 <= j < g.imports@.len() && last_at_path(g.files@, forward_slashes((#[trigger] g.imports@[j]).file_path@), s)
                ==> !is_relative(g.imports@[j].source_module@),
    ensures
        forall|d: int| 0 <= d < g.dependencies@.len() ==> (#[trigger] g.dependencies@[d]).from_file@ != g.files@[s].id@,
{
    let files = g.files@;
    assert forall|d: int| 0 <= d < g.dependencies@.len() implies (#[trigger] g.dependencies@[d]).from_file@ != files[s].id@ by {
        if g.dependencies@[d].from_file@ == files[s].id@ {
            assert(crate::analysis::is_file_id(g, g.dependencies@[d].to_file@));
            let t = choose|t: int| 0 <= t < files.len() && #[trigger] files[t].id@ == g.dependencies@[d].to_file@;
            assert(has_edge(g, files[s].id@, files[t].id@));
            assert(resolved_upto(files, g.imports@, s, t, g.imports@.len() as int));
            let j = choose|j: int| 0 <= j < g.imports@.len() && resolves_to(files, #[trigger] g.imports@[j], s, t);
        }
    }
}

impl ImportExportGraph {
    /// A graph with no files yet.
    pub fn new() -> (r: ImportExportGraph)
        ensures
            r.files@.len() == 0,
            r.dependencies@.len() == 0,
            r.exports@.len() == 0,
            r.imports@.len() == 0,
            ids_by_position(r.files@),
    {
        ImportExportGraph {
            files: Vec::new(),
            dependencies: Vec::new(),
            exports: Vec::new(),
            imports: Vec::new(),
        }
    }
}

/// Runs the graph queries over a built graph.
pub struct DependencyGraphAnalyzer;

impl DependencyGraphAnalyzer {
    pub fn new() -> (r: DependencyGraphAnalyzer) {
        DependencyGraphAnalyzer
    }

    /// The graph of the discovered files: each script (`ts`, `js`, `tsx`,
    /// `jsx`) that parsed becomes a file of the graph, in discovery order,
    /// with its path relative to `root` and its import and export facts; then
    /// relative imports are resolved into edges.
    pub fn analyze_project(&self, root: &str, sources: &Vec<SourceFile>) -> (g: ImportExportGraph)
        ensures
            g.files@.len() == graph_sources(sources@, sources@.len() as int).len(),
            ids_by_position(g.files@),
            forall|a: int|
                0 <= a < g.files@.len() ==> file_from(
                    #[trigger] g.files@[a],
                    sources@[graph_sources(sources@, sources@.len() as int)[a]],
                    root@,
                ),
            g.imports@.map_values(|i: Import| import_fact(i)) == graph_imports(sources@, sources@.len() as int),
            g.exports@.map_values(|e: Export| export_fact(e)) == graph_exports(sources@, sources@.len() as int),
            g.wf(),
            dependencies_built(g),
            dependencies_ordered(g),
    {
        let mut g = ImportExportGraph::new();
        let mut i: usize = 0;
        while i < sources.len()
            invariant
                0 <= i <= sources@.len(),
                ids_by_position(g.files@),
                g.dependencies@.len() == 0,
                g.files@.len() == graph_sources(sources@, i as int).len(),
                forall|a: int|
                    0 <= a < g.files@.len() ==> file_from(
                        #[trigger] g.files@[a],
                        sources@[graph_sources(sources@, i as int)[a]],
                        root@,
                    ),
                g.imports@.map_values(|x: Import| import_fact(x)) == graph_imports(sources@, i as int),
                g.exports@.map_values(|x: Export| export_fact(x)) == graph_exports(sources@, i as int),
            decreases sources@.len() - i,
        {
            let f = &sources[i];
            match &f.module {
                Some(m) => {
                    if is_script_file(f.path.as_str()) {
                        let (imports, exports) = extract_imports_exports(m, f.path.as_str());
                        let relative = match relative_path(f.path.as_str(), root) {
                            Some(r) => r,
                            None => f.path.clone(),
                        };
                        let ghost i0 = g.imports@;
                        let ghost e0 = g.exports@;
                        let ghost im = imports@;
                        let ghost ex = exports@;
                        add_file(&mut g, f.path.clone(), relative, imports, exports);
                        proof {
                            assert(g.imports@.map_values(|x: Import| import_fact(x)) =~= i0.map_values(|x: Import| import_fact(x))
                                + im.map_values(|x: Import| import_fact(x)));
                            assert(g.exports@.map_values(|x: Export| export_fact(x)) =~= e0.map_values(|x: Export| export_fact(x))
                                + ex.map_values(|x: Export| export_fact(x)));
                            let n = g.files@.len() - 1;
                            assert(g.files@[n] == g.files@.last());
                            assert(in_graph(sources@[i as int]));
                            assert(graph_sources(sources@, i as int + 1) == graph_sources(sources@, i as int).push(i as int));
                            let items = m.items@;
                            let path = forward_slashes(f.path@);
                            assert(im.map_values(|x: Import| import_fact(x)) == module_imports(items, path));
                            assert(ex.map_values(|x: Export| export_fact(x)) == module_exports(items, path));
                            assert(views(g.files@[n].imports@) =~= module_imports(items, path).map_values(|x: crate::extract::ImportFact| x.1)) by {
                                assert forall|j: int| 0 <= j < im.len() implies views(g.files@[n].imports@)[j]
                                    == module_imports(items, path)[j].1 by {
                                    assert(module_imports(items, path)[j] == im.map_values(|x: Import| import_fact(x))[j]);
                                }
                            }
                            assert(views(g.files@[n].exports@) =~= module_exports(items, path).map_values(|x: crate::extract::ExportFact| x.1)) by {
                                assert forall|j: int| 0 <= j < ex.len() implies views(g.files@[n].exports@)[j]
                                    == module_exports(items, path)[j].1 by {
                                    assert(module_exports(items, path)[j] == ex.map_values(|x: Export| export_fact(x))[j]);
                                }
                            }
                            assert(file_from(g.files@[n], sources@[i as int], root@));
                            assert forall|a: int| 0 <= a < g.files@.len() implies file_from(
                                #[trigger] g.files@[a],
                                sources@[graph_sources(sources@, i as int + 1)[a]],
                                root@,
                            ) by {
                                if a < n {
                                    assert(g.files@[a] == g.files@.drop_last()[a]);
                                }
                            }
                        }
                    }
                },
                None => {},
            }
            i += 1;
        }
        proof {
            lemma_positional_ids_unique(g.files@);
        }
        build_dependencies(&mut g);
        g
    }

    /// All four queries: the cycles met by the search, the orphaned files,
    /// the depth of every file, and the two rankings.
    pub fn analyze_dependencies(&self, graph: &ImportExportGraph) -> (r: DependencyAnalysis)
        requires
            graph.wf(),
            graph.files@.len() <= u32::MAX,
            graph.dependencies@.len() <= u32::MAX,
        ensures
            forall|a: int|
                0 <= a < r.circular_dependencies@.len() ==> is_cycle(
                    *graph,
                    views((#[trigger] r.circular_dependencies@[a]).cycle@),
                ) && r.circular_dependencies@[a].severity == severity_for(
                    r.circular_dependencies@[a].cycle@.len() - 1,
                ),
            r.circular_dependencies@.len() == 0 <==> acyclic(*graph),
            r.circular_dependencies@.len() == cycles_found(*graph).len(),
            forall|a: int|
                0 <= a < r.circular_dependencies@.len() ==> views((#[trigger] r.circular_dependencies@[a]).cycle@)
                    == ids_at(*graph, cycles_found(*graph)[a]),
            r.orphaned_files@ == orphans(*graph),
            r.dependency_depth@.len() == graph.files@.len(),
            forall|i: int|
                0 <= i < r.dependency_depth@.len() ==> (#[trigger] r.dependency_depth@[i]).0
                    == graph.files@[i].file_path && r.dependency_depth@[i].1 == depth_of(
                    *graph,
                    graph.files@[i].id@,
                ),
            is_file_ranking(*graph, degrees(*graph, true), r.most_imported_files@),
            is_file_ranking(*graph, degrees(*graph, false), r.most_dependent_files@),
    {
        DependencyAnalysis {
            circular_dependencies: find_circular_dependencies(graph),
            orphaned_files: find_orphaned_files(graph),
            dependency_depth: calculate_dependency_depth(graph),
            most_imported_files: find_most_imported_files(graph),
            most_dependent_files: find_most_dependent_files(graph),
        }
    }
}

/// The file is a script the graph takes: its extension is `ts`, `js`, `tsx`
/// or `jsx`.
pub open spec fn is_script_path(p: Seq<char>) -> bool {
    match extension_of(p) {
        Some(e) => e == "ts"@ || e == "js"@ || e == "tsx"@ || e == "jsx"@,
        None => false,
    }
}

fn is_script_file(p: &str) -> (r: bool)
    ensures
        r == is_script_path(p@),
{
    match extension_of_path(p) {
        Some(e) => e == "ts".to_owned() || e == "js".to_owned() || e == "tsx".to_owned() || e == "jsx".to_owned(),
        None => false,
    }
}

/// The path `p` relative to `root`, as `Path::strip_prefix` gives it.
pub uninterp spec fn relative_to(p: Seq<char>, root: Seq<char>) -> Option<Seq<char>>;

/// Relies on `Path::strip_prefix`: the rest of the path after the
/// components of `root`, if `root` begins it.
#[verifier::external_body]
fn relative_path(p: &str, root: &str) -> (r: Option<String>)
    ensures
        r matches Some(x) ==> relative_to(p@, root@) == Some(x@),
        r is None ==> relative_to(p@, root@) is None,
{
    std::path::Path::new(p).strip_prefix(root).ok().map(|x| x.to_string_lossy().to_string())
}

/// The discovered file takes part in the graph: it parsed and is a script.
pub open spec fn in_graph(f: SourceFile) -> bool {
    f.module is Some && is_script_path(f.path@)
}

/// The positions of the first `n` discovered files that take part in the
/// graph.
pub open spec fn graph_sources(sources: Seq<SourceFile>, n: int) -> Seq<int>
    decreases n,
{
    if n <= 0 {
        Seq::empty()
    } else {
        let prev = graph_sources(sources, n - 1);
        if in_graph(sources[n - 1]) {
            prev.push(n - 1)
        } else {
            prev
        }
    }
}

/// The import facts of the first `n` discovered files that take part.
pub open spec fn graph_imports(sources: Seq<SourceFile>, n: int) -> Seq<crate::extract::ImportFact>
    decreases n,
{
    if n <= 0 {
        Seq::empty()
    } else {
        let prev = graph_imports(sources, n - 1);
        let f = sources[n - 1];
        if in_graph(f) {
            prev + module_imports(f.module->0.items@, forward_slashes(f.path@))
        } else {
            prev
        }
    }
}

/// The export facts of the first `n` discovered files that take part.
pub open spec fn graph_exports(sources: Seq<SourceFile>, n: int) -> Seq<crate::extract::ExportFact>
    decreases n,
{
    if n <= 0 {
        Seq::empty()
    } else {
        let prev = graph_exports(sources, n - 1);
        let f = sources[n - 1];
        if in_graph(f) {
            prev + module_exports(f.module->0.items@, forward_slashes(f.path@))
        } else {
            prev
        }
    }
}

/// The graph file `fi` is made from the discovered file `f` under `root`:
/// its path, its path relative to the root (or the path itself), its kind,
/// and the names of its imported and exported symbols.
pub open spec fn file_from(fi: FileInfo, f: SourceFile, root: Seq<char>) -> bool {
    let items = f.module->0.items@;
    let path = forward_slashes(f.path@);
    &&& fi.file_path == f.path
    &&& fi.relative_path@ == match relative_to(f.path@, root) {
        Some(r) => r,
        None => f.path@,
    }
    &&& fi.file_type == file_type_for(f.path@)
    &&& views(fi.imports@) == module_imports(items, path).map_values(|x: crate::extract::ImportFact| x.1)
    &&& views(fi.exports@) == module_exports(items, path).map_values(|x: crate::extract::ExportFact| x.1)
}

} // verus!
