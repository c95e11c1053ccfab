//! The project model builder: from the discovered files of a project, each
//! with its parsed outline when it parsed, the entities grouped by kind.

use vstd::prelude::*;
use crate::extract::{
    classes_bounded, component_matches, first_component_class, first_marked, first_service_class,
    service_matches, TypeScriptParser,
};
use crate::analysis::views;
use crate::graph::extension_of;
use crate::model::{NgModule, NgProject};
use crate::syntax::ModuleOutline;
use crate::text::{contains_str, contains_text};

verus! {

/// One discovered file: its path, and its outline if it parsed.
#[derive(Debug, Clone)]
pub struct SourceFile {
    pub path: String,
    pub module: Option<ModuleOutline>,
}

/// A kind of entity the model builder collects.
#[derive(Debug, Clone, Copy, PartialEq, Eq, Structural)]
pub enum FileRole {
    Component,
    Service,
    Module,
    Other,
}

/// The file is a source script: its extension is `ts`.
pub open spec fn is_source_script(path: Seq<char>) -> bool {
    extension_of(path) == Some("ts"@)
}

/// The file is a module file: a source script whose path names a module.
pub open spec fn is_module_path(path: Seq<char>) -> bool {
    is_source_script(path) && contains_text(path, ".module."@)
}

/// Relies on `Path::extension`, as the graph builder does.
fn is_script(path: &str) -> (r: bool)
    ensures
        r == is_source_script(path@),
{
    match crate::graph::extension_of_path(path) {
        Some(e) => e == "ts".to_owned(),
        None => false,
    }
}

/// Whether the file at `path` is a module file.
pub fn is_module_file(path: &str) -> (r: bool)
    ensures
        r == is_module_path(path@),
{
    is_script(path) && contains_str(path, ".module.")
}

/// The stem of the file name of the path `p`, as `Path::file_stem` gives it.
pub uninterp spec fn file_stem_of(p: Seq<char>) -> Option<Seq<char>>;

/// Relies on `Path::file_stem`: the file name without its last extension.
#[verifier::external_body]
fn file_stem(p: &str) -> (r: Option<String>)
    ensures
        r matches Some(s) ==> file_stem_of(p@) == Some(s@),
        r is None ==> file_stem_of(p@) is None,
{
    std::path::Path::new(p).file_stem().map(|s| s.to_string_lossy().to_string())
}

/// The name of a module file: its file stem, or `unknown`.
pub open spec fn module_name(path: Seq<char>) -> Seq<char> {
    match file_stem_of(path) {
        Some(s) => s,
        None => "unknown"@,
    }
}

/// `m` is the module record of the file at `path`.
pub open spec fn module_matches(m: NgModule, path: String) -> bool {
    &&& m.name@ == module_name(path@)
    &&& m.file_path == path
    &&& m.imports@.len() == 0
    &&& m.exports@.len() == 0
    &&& m.declarations@.len() == 0
    &&& m.providers@.len() == 0
    &&& m.bootstrap@.len() == 0
}

/// The file contributes an entity of the kind `role`: it is a source
/// script that parsed, and its outline has a class of that kind (for a
/// component or a service) or its path names a module file.
pub open spec fn contributes(f: SourceFile, role: FileRole) -> bool {
    &&& is_source_script(f.path@)
    &&& f.module is Some
    &&& match role {
        FileRole::Component => first_component_class(f.module->0.items@) is Some,
        FileRole::Service => first_service_class(f.module->0.items@) is Some,
        FileRole::Module => is_module_path(f.path@),
        FileRole::Other => false,
    }
}

/// The positions of the first `n` files that contribute an entity of the
/// kind `role`, in order.
pub open spec fn sources_upto(files: Seq<SourceFile>, role: FileRole, n: int) -> Seq<int>
    decreases n,
{
    if n <= 0 {
        Seq::empty()
    } else {
        let prev = sources_upto(files, role, n - 1);
        if contributes(files[n - 1], role) {
            prev.push(n - 1)
        } else {
            prev
        }
    }
}

/// The positions of the files that contribute an entity of the kind `role`.
pub open spec fn sources(files: Seq<SourceFile>, role: FileRole) -> Seq<int> {
    sources_upto(files, role, files.len() as int)
}

/// The component made from the file `f`.
pub open spec fn component_from(comp: crate::model::NgComponent, f: SourceFile) -> bool {
    let c = first_component_class(f.module->0.items@)->0;
    component_matches(comp, c, first_marked(c.decorators@, "Component"@)->0, f.path@)
}

/// `p` holds one entity for each contributing file, in file order, each made
/// from its file; it has no pipes or directives.
pub open spec fn project_built(files: Seq<SourceFile>, p: NgProject) -> bool {
    let cs = sources(files, FileRole::Component);
    let ss = sources(files, FileRole::Service);
    let ms = sources(files, FileRole::Module);
    &&& p.components@.len() == cs.len()
    &&& forall|k: int| 0 <= k < cs.len() ==> component_from(#[trigger] p.components@[k], files[cs[k]])
    &&& p.services@.len() == ss.len()
    &&& forall|k: int|
        0 <= k < ss.len() ==> service_matches(
            #[trigger] p.services@[k],
            first_service_class(files[ss[k]].module->0.items@)->0,
            files[ss[k]].path@,
        )
    &&& p.modules@.len() == ms.len()
    &&& forall|k: int| 0 <= k < ms.len() ==> module_matches(#[trigger] p.modules@[k], files[ms[k]].path)
    &&& p.pipes@.len() == 0
    &&& p.directives@.len() == 0
}

/// Builds the project model of the files found under one root.
pub struct ProjectParser {
    typescript_parser: TypeScriptParser,
}

impl ProjectParser {
    pub fn new() -> (r: ProjectParser) {
        ProjectParser { typescript_parser: TypeScriptParser::new() }
    }

    /// The entities of the discovered files, grouped by kind. A file that
    /// did not parse gives nothing, and the other files are still read.
    pub fn parse_project(&self, root_path: String, files: &Vec<SourceFile>) -> (r: NgProject)
        requires
            forall|i: int|
                0 <= i < files@.len() && (#[trigger] files@[i]).module is Some ==> classes_bounded(
                    files@[i].module->0.items@,
                ),
        ensures
            r.root_path == root_path,
            project_built(files@, r),
    {
        let mut project = NgProject::new(root_path);
        let mut i: usize = 0;
        while i < files.len()
            invariant
                0 <= i <= files@.len(),
                forall|j: int|
                    0 <= j < files@.len() && (#[trigger] files@[j]).module is Some ==> classes_bounded(
                        files@[j].module->0.items@,
                    ),
                project.root_path == root_path,
                project.components@.len() == sources_upto(files@, FileRole::Component, i as int).len(),
                forall|k: int|
                    0 <= k < project.components@.len() ==> component_from(
                        #[trigger] project.components@[k],
                        files@[sources_upto(files@, FileRole::Component, i as int)[k]],
                    ),
                project.services@.len() == sources_upto(files@, FileRole::Service, i as int).len(),
                forall|k: int|
                    0 <= k < project.services@.len() ==> service_matches(
                        #[trigger] project.services@[k],
                        first_service_class(files@[sources_upto(files@, FileRole::Service, i as int)[k]].module->0.items@)->0,
                        files@[sources_upto(files@, FileRole::Service, i as int)[k]].path@,
                    ),
                project.modules@.len() == sources_upto(files@, FileRole::Module, i as int).len(),
                forall|k: int|
                    0 <= k < project.modules@.len() ==> module_matches(
                        #[trigger] project.modules@[k],
                        files@[sources_upto(files@, FileRole::Module, i as int)[k]].path,
                    ),
                project.pipes@.len() == 0,
                project.directives@.len() == 0,
            decreases files@.len() - i,
        {
            let f = &files[i];
            match &f.module {
                Some(m) => {
                    if is_script(f.path.as_str()) {
                        match self.typescript_parser.extract_component(m, f.path.as_str()) {
                            Some(c) => {
                                project.components.push(c);
                            },
                            None => {},
                        }
                        match self.typescript_parser.extract_service(m, f.path.as_str()) {
                            Some(s) => {
                                project.services.push(s);
                            },
                            None => {},
                        }
                        if is_module_file(f.path.as_str()) {
                            let name = match file_stem(f.path.as_str()) {
                                Some(s) => s,
                                None => "unknown".to_owned(),
                            };
                            project.modules.push(NgModule {
                                name,
                                file_path: f.path.clone(),
                                imports: Vec::new(),
                                exports: Vec::new(),
                                declarations: Vec::new(),
                                providers: Vec::new(),
                                bootstrap: Vec::new(),
                            });
                        }
                    }
                },
                None => {},
            }
            i += 1;
        }
        project
    }
}

/// An optional string as text.
pub open spec fn opt_text(o: Option<String>) -> Option<Seq<char>> {
    match o {
        Some(x) => Some(x@),
        None => None,
    }
}

/// A component as text and plain values.
pub struct ComponentText {
    pub name: Seq<char>,
    pub file_path: Seq<char>,
    pub selector: Option<Seq<char>>,
    pub template_url: Option<Seq<char>>,
    pub template: Option<Seq<char>>,
    pub style_urls: Seq<Seq<char>>,
    pub inputs: Seq<(Seq<char>, Option<Seq<char>>, Seq<char>)>,
    pub outputs: Seq<(Seq<char>, Option<Seq<char>>, Seq<char>)>,
    pub lifecycle_hooks: Seq<Seq<char>>,
    pub dependencies: Seq<Seq<char>>,
    pub change_detection: crate::model::ChangeDetectionStrategy,
    pub complexity_score: u32,
}

pub open spec fn component_text(c: crate::model::NgComponent) -> ComponentText {
    ComponentText {
        name: c.name@,
        file_path: c.file_path@,
        selector: opt_text(c.selector),
        template_url: opt_text(c.template_url),
        template: opt_text(c.template),
        style_urls: views(c.style_urls@),
        inputs: c.inputs@.map_values(|i: crate::model::NgInput| (i.name@, opt_text(i.alias), i.input_type@)),
        outputs: c.outputs@.map_values(|o: crate::model::NgOutput| (o.name@, opt_text(o.alias), o.output_type@)),
        lifecycle_hooks: views(c.lifecycle_hooks@),
        dependencies: views(c.dependencies@),
        change_detection: c.change_detection,
        complexity_score: c.complexity_score,
    }
}

/// A service method as text and plain values.
pub open spec fn method_text(m: crate::model::NgMethod) -> (Seq<char>, Seq<(Seq<char>, Seq<char>, bool)>, Option<Seq<char>>, u32) {
    (
        m.name@,
        m.parameters@.map_values(|p: crate::model::Parameter| (p.name@, p.param_type@, p.optional)),
        opt_text(m.return_type),
        m.complexity_score,
    )
}

/// A service as text and plain values.
pub open spec fn service_text(s: crate::model::NgService) -> (Seq<char>, Seq<char>, Option<Seq<char>>, bool, Seq<Seq<char>>, Seq<(Seq<char>, Seq<(Seq<char>, Seq<char>, bool)>, Option<Seq<char>>, u32)>) {
    (
        s.name@,
        s.file_path@,
        opt_text(s.provided_in),
        s.injectable,
        views(s.dependencies@),
        s.methods@.map_values(|m: crate::model::NgMethod| method_text(m)),
    )
}

/// A module as text.
pub open spec fn module_text(m: NgModule) -> (Seq<char>, Seq<char>, nat, nat, nat, nat, nat) {
    (m.name@, m.file_path@, m.imports@.len(), m.exports@.len(), m.declarations@.len(), m.providers@.len(), m.bootstrap@.len())
}

proof fn lemma_components_agree(c1: crate::model::NgComponent, c2: crate::model::NgComponent, f: SourceFile)
    requires
        component_from(c1, f),
        component_from(c2, f),
    ensures
        component_text(c1) == component_text(c2),
{
    let t1 = component_text(c1);
    let t2 = component_text(c2);
    assert(t1.inputs =~= t2.inputs) by {
        assert forall|i: int| 0 <= i < t1.inputs.len() implies t1.inputs[i] == t2.inputs[i] by {
            assert(c1.inputs@[i].name@ == c2.inputs@[i].name@);
        }
    }
    assert(t1.outputs =~= t2.outputs) by {
        assert forall|i: int| 0 <= i < t1.outputs.len() implies t1.outputs[i] == t2.outputs[i] by {
            assert(c1.outputs@[i].name@ == c2.outputs@[i].name@);
        }
    }
}

proof fn lemma_services_agree(s1: crate::model::NgService, s2: crate::model::NgService, c: crate::syntax::ClassDecl, path: Seq<char>)
    requires
        service_matches(s1, c, path),
        service_matches(s2, c, path),
    ensures
        service_text(s1) == service_text(s2),
{
    let m1 = s1.methods@.map_values(|m: crate::model::NgMethod| method_text(m));
    let m2 = s2.methods@.map_values(|m: crate::model::NgMethod| method_text(m));
    assert(m1 =~= m2) by {
        assert forall|i: int| 0 <= i < m1.len() implies m1[i] == m2[i] by {
            let a = s1.methods@[i];
            let b = s2.methods@[i];
            assert(crate::extract::method_matches(a, crate::extract::service_methods(c.members@)[i].0, crate::extract::service_methods(c.members@)[i].1));
            assert(crate::extract::method_matches(b, crate::extract::service_methods(c.members@)[i].0, crate::extract::service_methods(c.members@)[i].1));
            let pa = a.parameters@.map_values(|p: crate::model::Parameter| (p.name@, p.param_type@, p.optional));
            let pb = b.parameters@.map_values(|p: crate::model::Parameter| (p.name@, p.param_type@, p.optional));
            assert(pa =~= pb);
        }
    }
}

/// Idempotence: building the model twice from the same discovered files
/// gives the same entities, kind by kind and in the same order, as text and
/// plain values.
pub proof fn lemma_rebuild_identical(files: Seq<SourceFile>, p1: NgProject, p2: NgProject)
    requires
        project_built(files, p1),
        project_built(files, p2),
    ensures
        p1.components@.map_values(|c: crate::model::NgComponent| component_text(c))
            == p2.components@.map_values(|c: crate::model::NgComponent| component_text(c)),
        p1.services@.map_values(|s: crate::model::NgService| service_text(s))
            == p2.services@.map_values(|s: crate::model::NgService| service_text(s)),
        p1.modules@.map_values(|m: NgModule| module_text(m)) == p2.modules@.map_values(|m: NgModule| module_text(m)),
        p1.pipes@.len() == 0 && p2.pipes@.len() == 0,
        p1.directives@.len() == 0 && p2.directives@.len() == 0,
{
    let cs = sources(files, FileRole::Component);
    let ss = sources(files, FileRole::Service);
    let ms = sources(files, FileRole::Module);
    assert forall|k: int| 0 <= k < p1.components@.len() implies component_text(p1.components@[k]) == component_text(p2.components@[k]) by {
        lemma_components_agree(p1.components@[k], p2.components@[k], files[cs[k]]);
    }
    assert forall|k: int| 0 <= k < p1.services@.len() implies service_text(p1.services@[k]) == service_text(p2.services@[k]) by {
        let f = files[ss[k]];
        lemma_services_agree(p1.services@[k], p2.services@[k], first_service_class(f.module->0.items@)->0, f.path@);
    }
    assert forall|k: int| 0 <= k < p1.modules@.len() implies module_text(p1.modules@[k]) == module_text(p2.modules@[k]) by {
        assert(module_matches(p1.modules@[k], files[ms[k]].path));
        assert(module_matches(p2.modules@[k], files[ms[k]].path));
    }
    assert(p1.components@.map_values(|c: crate::model::NgComponent| component_text(c))
        =~= p2.components@.map_values(|c: crate::model::NgComponent| component_text(c)));
    assert(p1.services@.map_values(|s: crate::model::NgService| service_text(s))
        =~= p2.services@.map_values(|s: crate::model::NgService| service_text(s)));
    assert(p1.modules@.map_values(|m: NgModule| module_text(m)) =~= p2.modules@.map_values(|m: NgModule| module_text(m)));
}

proof fn lemma_sources_upto(files: Seq<SourceFile>, role: FileRole, n: int)
    requires
        0 <= n <= files.len(),
    ensures
        forall|i: int| 0 <= i < n ==> (contributes(#[trigger] files[i], role) <==> sources_upto(files, role, n).contains(i)),
        forall|a: int, b: int|
            0 <= a < b < sources_upto(files, role, n).len() ==> #[trigger] sources_upto(files, role, n)[a]
                < #[trigger] sources_upto(files, role, n)[b],
        forall|a: int| 0 <= a < sources_upto(files, role, n).len() ==> 0 <= #[trigger] sources_upto(files, role, n)[a] < n,
    decreases n,
{
    if n > 0 {
        lemma_sources_upto(files, role, n - 1);
        let prev = sources_upto(files, role, n - 1);
        let cur = sources_upto(files, role, n);
        assert forall|i: int| 0 <= i < n implies (contributes(#[trigger] files[i], role) <==> cur.contains(i)) by {
            if i < n - 1 {
                if prev.contains(i) {
                    let t = choose|t: int| 0 <= t < prev.len() && prev[t] == i;
                    assert(cur[t] == i);
                }
                if cur.contains(i) {
                    let t = choose|t: int| 0 <= t < cur.len() && cur[t] == i;
                    if t < prev.len() {
                        assert(prev[t] == i);
                    }
                }
            } else {
                if contributes(files[i], role) {
                    assert(cur[cur.len() - 1] == i);
                }
                if cur.contains(i) {
                    let t = choose|t: int| 0 <= t < cur.len() && cur[t] == i;
                    if t < prev.len() {
                        assert(prev[t] == i);
                    }
                }
            }
        }
        assert forall|a: int, b: int| 0 <= a < b < cur.len() implies #[trigger] cur[a] < #[trigger] cur[b] by {
            if b < prev.len() {
                assert(cur[a] == prev[a] && cur[b] == prev[b]);
            } else {
                assert(cur[a] == prev[a]);
            }
        }
        assert forall|a: int| 0 <= a < cur.len() implies 0 <= #[trigger] cur[a] < n by {
            if a < prev.len() {
                assert(cur[a] == prev[a]);
            }
        }
    }
}

/// Each entity once: the entities of a kind come one from each file that
/// contributes one, in file order, and none from any file twice.
pub proof fn lemma_each_file_once(files: Seq<SourceFile>, role: FileRole)
    ensures
        forall|i: int| 0 <= i < files.len() ==> (contributes(#[trigger] files[i], role) <==> sources(files, role).contains(i)),
        forall|a: int, b: int|
            0 <= a < b < sources(files, role).len() ==> #[trigger] sources(files, role)[a] < #[trigger] sources(files, role)[b],
{
    lemma_sources_upto(files, role, files.len() as int);
}

} // verus!
