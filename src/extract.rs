//! The entity extractor: from the outline of one parsed module and its path,
//! at most one component or service, and all of the module's import and
//! export facts.

use vstd::prelude::*;
use crate::analysis::views;
use crate::model::{ChangeDetectionStrategy, Export, ExportType, FileType, Import, ImportType, NgComponent, NgInput, NgMethod, NgOutput, NgService, Parameter};
use crate::text::{forward_slashes, normalize_path};
use vstd::string::StrSliceExecFns;
use crate::syntax::{
    ClassDecl, ClassMember, CtorParam, Declaration, Decorator, ExportSpec, ImportSpec, ModuleItem,
    ModuleOutline, PropValue, Property, TypeRef,
};

verus! {

/// `s` as an owned string.
fn owned(s: &str) -> (r: String)
    ensures
        r@ == s@,
{
    s.to_owned()
}

/// The decorator is a call of the identifier `marker`.
pub open spec fn is_marked(d: Decorator, marker: Seq<char>) -> bool {
    d.name matches Some(n) && n@ == marker
}

fn marked_as(d: &Decorator, marker: &String) -> (r: bool)
    ensures
        r == is_marked(*d, marker@),
{
    match &d.name {
        Some(n) => *n == *marker,
        None => false,
    }
}

/// What a component's decorator argument says.
pub struct ComponentMetadata {
    pub selector: Option<String>,
    pub template_url: Option<String>,
    pub template: Option<String>,
    pub style_urls: Seq<String>,
    pub change_detection: ChangeDetectionStrategy,
}

/// The metadata of a decorator without an argument object.
pub open spec fn default_metadata() -> ComponentMetadata {
    ComponentMetadata {
        selector: None,
        template_url: None,
        template: None,
        style_urls: Seq::empty(),
        change_detection: ChangeDetectionStrategy::Default,
    }
}

/// The string literals among the elements of an array literal.
pub open spec fn string_elements(elems: Seq<Option<String>>) -> Seq<String>
    decreases elems.len(),
{
    if elems.len() == 0 {
        Seq::empty()
    } else {
        let prev = string_elements(elems.drop_last());
        match elems.last() {
            Some(s) => prev.push(s),
            None => prev,
        }
    }
}

/// The metadata after reading one more property; unknown keys and values of
/// an unexpected shape change nothing.
pub open spec fn apply_property(m: ComponentMetadata, p: Property) -> ComponentMetadata {
    match p.key {
        Some(k) => if k@ == "selector"@ {
            match p.value {
                PropValue::Str(s) => ComponentMetadata { selector: Some(s), ..m },
                _ => m,
            }
        } else if k@ == "templateUrl"@ {
            match p.value {
                PropValue::Str(s) => ComponentMetadata { template_url: Some(s), ..m },
                _ => m,
            }
        } else if k@ == "template"@ {
            match p.value {
                PropValue::Str(s) => ComponentMetadata { template: Some(s), ..m },
                _ => m,
            }
        } else if k@ == "styleUrls"@ {
            match p.value {
                PropValue::Array(elems) => ComponentMetadata {
                    style_urls: m.style_urls + string_elements(elems@),
                    ..m
                },
                _ => m,
            }
        } else if k@ == "changeDetection"@ {
            match p.value {
                PropValue::Member(Some(n)) => if n@ == "OnPush"@ {
                    ComponentMetadata { change_detection: ChangeDetectionStrategy::OnPush, ..m }
                } else {
                    m
                },
                _ => m,
            }
        } else {
            m
        },
        None => m,
    }
}

/// The metadata read from the first `n` properties, in order.
pub open spec fn metadata_upto(props: Seq<Property>, n: int) -> ComponentMetadata
    decreases n,
{
    if n <= 0 {
        default_metadata()
    } else {
        apply_property(metadata_upto(props, n - 1), props[n - 1])
    }
}

/// The metadata that a component decorator gives.
pub open spec fn metadata_of(d: Decorator) -> ComponentMetadata {
    match d.object_arg {
        Some(props) => metadata_upto(props@, props@.len() as int),
        None => default_metadata(),
    }
}

fn push_string_elements(out: &mut Vec<String>, elems: &Vec<Option<String>>)
    ensures
        final(out)@ == old(out)@ + string_elements(elems@),
{
    let ghost o0 = out@;
    let mut i: usize = 0;
    while i < elems.len()
        invariant
            0 <= i <= elems@.len(),
            out@ == o0 + string_elements(elems@.subrange(0, i as int)),
        decreases elems@.len() - i,
    {
        proof {
            assert(elems@.subrange(0, i as int + 1).drop_last() =~= elems@.subrange(0, i as int));
        }
        match &elems[i] {
            Some(s) => {
                out.push(s.clone());
            },
            None => {},
        }
        i += 1;
        assert(out@ =~= o0 + string_elements(elems@.subrange(0, i as int)));
    }
    assert(elems@.subrange(0, elems@.len() as int) =~= elems@);
}

/// Reads one property of a component decorator's argument object.
fn extract_component_metadata(
    prop: &Property,
    selector: &mut Option<String>,
    template_url: &mut Option<String>,
    template: &mut Option<String>,
    style_urls: &mut Vec<String>,
    change_detection: &mut ChangeDetectionStrategy,
)
    ensures
        ({
            let m = ComponentMetadata {
                selector: *old(selector),
                template_url: *old(template_url),
                template: *old(template),
                style_urls: old(style_urls)@,
                change_detection: *old(change_detection),
            };
            let m2 = apply_property(m, *prop);
            &&& *final(selector) == m2.selector
            &&& *final(template_url) == m2.template_url
            &&& *final(template) == m2.template
            &&& final(style_urls)@ == m2.style_urls
            &&& *final(change_detection) == m2.change_detection
        }),
{
    match &prop.key {
        Some(k) => {
            if *k == owned("selector") {
                match &prop.value {
                    PropValue::Str(s) => {
                        *selector = Some(s.clone());
                    },
                    _ => {},
                }
            } else if *k == owned("templateUrl") {
                match &prop.value {
                    PropValue::Str(s) => {
                        *template_url = Some(s.clone());
                    },
                    _ => {},
                }
            } else if *k == owned("template") {
                match &prop.value {
                    PropValue::Str(s) => {
                        *template = Some(s.clone());
                    },
                    _ => {},
                }
            } else if *k == owned("styleUrls") {
                match &prop.value {
                    PropValue::Array(elems) => {
                        push_string_elements(style_urls, elems);
                    },
                    _ => {},
                }
            } else if *k == owned("changeDetection") {
                match &prop.value {
                    PropValue::Member(Some(n)) => {
                        if *n == owned("OnPush") {
                            *change_detection = ChangeDetectionStrategy::OnPush;
                        }
                    },
                    _ => {},
                }
            }
        },
        None => {},
    }
}

/// How many of the decorators are calls of `marker`.
pub open spec fn marked_count(decs: Seq<Decorator>, marker: Seq<char>) -> nat
    decreases decs.len(),
{
    if decs.len() == 0 {
        0
    } else {
        marked_count(decs.drop_last(), marker) + if is_marked(decs.last(), marker) {
            1nat
        } else {
            0nat
        }
    }
}

/// The names of the properties decorated with `marker`, once per such
/// decorator, in member order.
pub open spec fn marked_properties(members: Seq<ClassMember>, marker: Seq<char>) -> Seq<Seq<char>>
    decreases members.len(),
{
    if members.len() == 0 {
        Seq::empty()
    } else {
        let prev = marked_properties(members.drop_last(), marker);
        match members.last() {
            ClassMember::Property { key: Some(k), decorators } => prev + Seq::new(
                marked_count(decorators@, marker),
                |i: int| k@,
            ),
            _ => prev,
        }
    }
}

/// The names of the properties decorated with `marker`, once per such
/// decorator.
fn marked_property_names(members: &Vec<ClassMember>, marker: &String) -> (r: Vec<String>)
    ensures
        views(r@) == marked_properties(members@, marker@),
{
    let mut r: Vec<String> = Vec::new();
    let mut i: usize = 0;
    while i < members.len()
        invariant
            0 <= i <= members@.len(),
            views(r@) == marked_properties(members@.subrange(0, i as int), marker@),
        decreases members@.len() - i,
    {
        proof {
            assert(members@.subrange(0, i as int + 1).drop_last() =~= members@.subrange(0, i as int));
        }
        let ghost r0 = views(r@);
        match &members[i] {
            ClassMember::Property { key: Some(k), decorators } => {
                let mut j: usize = 0;
                while j < decorators.len()
                    invariant
                        0 <= j <= decorators@.len(),
                        views(r@) =~= r0 + Seq::new(
                            marked_count(decorators@.subrange(0, j as int), marker@),
                            |x: int| k@,
                        ),
                    decreases decorators@.len() - j,
                {
                    proof {
                        assert(decorators@.subrange(0, j as int + 1).drop_last() =~= decorators@.subrange(0, j as int));
                    }
                    let ghost before = r@;
                    if marked_as(&decorators[j], marker) {
                        r.push(k.clone());
                        assert(views(r@) =~= views(before).push(k@));
                    }
                    j += 1;
                    assert(views(r@) =~= r0 + Seq::new(
                        marked_count(decorators@.subrange(0, j as int), marker@),
                        |x: int| k@,
                    ));
                }
                assert(decorators@.subrange(0, decorators@.len() as int) =~= decorators@);
            },
            _ => {},
        }
        i += 1;
    }
    assert(members@.subrange(0, members@.len() as int) =~= members@);
    r
}

/// The properties decorated as inputs.
fn extract_inputs(members: &Vec<ClassMember>) -> (r: Vec<NgInput>)
    ensures
        r@.len() == marked_properties(members@, "Input"@).len(),
        forall|i: int|
            0 <= i < r@.len() ==> (#[trigger] r@[i]).name@ == marked_properties(members@, "Input"@)[i]
                && r@[i].alias is None && r@[i].input_type@ == "any"@,
{
    let names = marked_property_names(members, &owned("Input"));
    let mut r: Vec<NgInput> = Vec::new();
    let mut i: usize = 0;
    while i < names.len()
        invariant
            0 <= i <= names@.len(),
            views(names@) == marked_properties(members@, "Input"@),
            r@.len() == i,
            forall|j: int|
                0 <= j < i ==> (#[trigger] r@[j]).name@ == names@[j]@ && r@[j].alias is None
                    && r@[j].input_type@ == "any"@,
        decreases names@.len() - i,
    {
        r.push(NgInput { name: names[i].clone(), alias: None, input_type: owned("any") });
        i += 1;
    }
    r
}

/// The properties decorated as outputs.
fn extract_outputs(members: &Vec<ClassMember>) -> (r: Vec<NgOutput>)
    ensures
        r@.len() == marked_properties(members@, "Output"@).len(),
        forall|i: int|
            0 <= i < r@.len() ==> (#[trigger] r@[i]).name@ == marked_properties(members@, "Output"@)[i]
                && r@[i].alias is None && r@[i].output_type@ == "EventEmitter<any>"@,
{
    let names = marked_property_names(members, &owned("Output"));
    let mut r: Vec<NgOutput> = Vec::new();
    let mut i: usize = 0;
    while i < names.len()
        invariant
            0 <= i <= names@.len(),
            views(names@) == marked_properties(members@, "Output"@),
            r@.len() == i,
            forall|j: int|
                0 <= j < i ==> (#[trigger] r@[j]).name@ == names@[j]@ && r@[j].alias is None
                    && r@[j].output_type@ == "EventEmitter<any>"@,
        decreases names@.len() - i,
    {
        r.push(NgOutput { name: names[i].clone(), alias: None, output_type: owned("EventEmitter<any>") });
        i += 1;
    }
    r
}

/// The lifecycle hook method names.
pub open spec fn is_lifecycle_hook(name: Seq<char>) -> bool {
    ||| name == "ngOnInit"@
    ||| name == "ngOnDestroy"@
    ||| name == "ngOnChanges"@
    ||| name == "ngAfterViewInit"@
    ||| name == "ngAfterViewChecked"@
    ||| name == "ngAfterContentInit"@
    ||| name == "ngAfterContentChecked"@
    ||| name == "ngDoCheck"@
}

fn lifecycle_hook(name: &String) -> (r: bool)
    ensures
        r == is_lifecycle_hook(name@),
{
    *name == owned("ngOnInit") || *name == owned("ngOnDestroy") || *name == owned("ngOnChanges")
        || *name == owned("ngAfterViewInit") || *name == owned("ngAfterViewChecked")
        || *name == owned("ngAfterContentInit") || *name == owned("ngAfterContentChecked")
        || *name == owned("ngDoCheck")
}

/// The names of the methods that are lifecycle hooks, in member order.
pub open spec fn hook_names(members: Seq<ClassMember>) -> Seq<Seq<char>>
    decreases members.len(),
{
    if members.len() == 0 {
        Seq::empty()
    } else {
        let prev = hook_names(members.drop_last());
        match members.last() {
            ClassMember::Method { key: Some(k), param_count } => if is_lifecycle_hook(k@) {
                prev.push(k@)
            } else {
                prev
            },
            _ => prev,
        }
    }
}

/// The lifecycle hooks a class implements.
fn extract_lifecycle_hooks(members: &Vec<ClassMember>) -> (r: Vec<String>)
    ensures
        views(r@) == hook_names(members@),
{
    let mut r: Vec<String> = Vec::new();
    let mut i: usize = 0;
    while i < members.len()
        invariant
            0 <= i <= members@.len(),
            views(r@) == hook_names(members@.subrange(0, i as int)),
        decreases members@.len() - i,
    {
        proof {
            assert(members@.subrange(0, i as int + 1).drop_last() =~= members@.subrange(0, i as int));
        }
        match &members[i] {
            ClassMember::Method { key: Some(k), param_count: _ } => {
                if lifecycle_hook(k) {
                    r.push(k.clone());
                }
            },
            _ => {},
        }
        i += 1;
        assert(views(r@) =~= hook_names(members@.subrange(0, i as int)));
    }
    assert(members@.subrange(0, members@.len() as int) =~= members@);
    r
}

/// The name a type annotation gives: the identifier of a type reference,
/// else `unknown`.
pub open spec fn annotated_type(t: TypeRef) -> Seq<char> {
    match t {
        TypeRef::Named(n) => n@,
        TypeRef::Other => "unknown"@,
    }
}

fn extract_type_from_annotation(t: &TypeRef) -> (r: String)
    ensures
        r@ == annotated_type(*t),
{
    match t {
        TypeRef::Named(n) => n.clone(),
        TypeRef::Other => owned("unknown"),
    }
}

/// The declared types of the constructor parameters.
pub open spec fn param_types(params: Seq<CtorParam>) -> Seq<Seq<char>>
    decreases params.len(),
{
    if params.len() == 0 {
        Seq::empty()
    } else {
        let prev = param_types(params.drop_last());
        match params.last() {
            CtorParam { declared: Some(t) } => prev.push(annotated_type(t)),
            _ => prev,
        }
    }
}

/// The declared types of the constructors' parameters, in order: the
/// injected dependencies.
pub open spec fn dependency_types(members: Seq<ClassMember>) -> Seq<Seq<char>>
    decreases members.len(),
{
    if members.len() == 0 {
        Seq::empty()
    } else {
        let prev = dependency_types(members.drop_last());
        match members.last() {
            ClassMember::Constructor(params) => prev + param_types(params@),
            _ => prev,
        }
    }
}

/// The types the class's constructor takes as parameter properties.
fn extract_dependencies(members: &Vec<ClassMember>) -> (r: Vec<String>)
    ensures
        views(r@) == dependency_types(members@),
{
    let mut r: Vec<String> = Vec::new();
    let mut i: usize = 0;
    while i < members.len()
        invariant
            0 <= i <= members@.len(),
            views(r@) == dependency_types(members@.subrange(0, i as int)),
        decreases members@.len() - i,
    {
        proof {
            assert(members@.subrange(0, i as int + 1).drop_last() =~= members@.subrange(0, i as int));
        }
        let ghost r0 = views(r@);
        match &members[i] {
            ClassMember::Constructor(params) => {
                let mut j: usize = 0;
                while j < params.len()
                    invariant
                        0 <= j <= params@.len(),
                        views(r@) =~= r0 + param_types(params@.subrange(0, j as int)),
                    decreases params@.len() - j,
                {
                    proof {
                        assert(params@.subrange(0, j as int + 1).drop_last() =~= params@.subrange(0, j as int));
                    }
                    let ghost before = r@;
                    match &params[j] {
                        CtorParam { declared: Some(t) } => {
                            let name = extract_type_from_annotation(t);
                            r.push(name);
                            assert(views(r@) =~= views(before).push(name@));
                        },
                        _ => {},
                    }
                    j += 1;
                    assert(views(r@) =~= r0 + param_types(params@.subrange(0, j as int)));
                }
                assert(params@.subrange(0, params@.len() as int) =~= params@);
            },
            _ => {},
        }
        i += 1;
        assert(views(r@) =~= dependency_types(members@.subrange(0, i as int)));
    }
    assert(members@.subrange(0, members@.len() as int) =~= members@);
    r
}

/// The number of methods of the class.
pub open spec fn method_count(members: Seq<ClassMember>) -> nat
    decreases members.len(),
{
    if members.len() == 0 {
        0
    } else {
        method_count(members.drop_last()) + match members.last() {
            ClassMember::Method { .. } => 1nat,
            _ => 0nat,
        }
    }
}

proof fn lemma_method_count_bounded(members: Seq<ClassMember>)
    ensures
        method_count(members) <= members.len(),
    decreases members.len(),
{
    if members.len() > 0 {
        lemma_method_count_bounded(members.drop_last());
    }
}

/// The coarse complexity score: one more than the number of methods.
fn calculate_complexity(members: &Vec<ClassMember>) -> (r: u32)
    requires
        members@.len() < u32::MAX,
    ensures
        r == 1 + method_count(members@),
{
    let mut c: u32 = 1;
    let mut i: usize = 0;
    while i < members.len()
        invariant
            0 <= i <= members@.len(),
            members@.len() < u32::MAX,
            c == 1 + method_count(members@.subrange(0, i as int)),
        decreases members@.len() - i,
    {
        proof {
            assert(members@.subrange(0, i as int + 1).drop_last() =~= members@.subrange(0, i as int));
            lemma_method_count_bounded(members@.subrange(0, i as int));
        }
        match &members[i] {
            ClassMember::Method { .. } => {
                c += 1;
            },
            _ => {},
        }
        i += 1;
    }
    assert(members@.subrange(0, members@.len() as int) =~= members@);
    c
}

/// The name begins with `ng`, the prefix of framework hooks.
pub open spec fn has_ng_prefix(name: Seq<char>) -> bool {
    name.len() >= 2 && name[0] == 'n' && name[1] == 'g'
}

fn starts_with_ng(name: &String) -> (r: bool)
    ensures
        r == has_ng_prefix(name@),
{
    let s = name.as_str();
    s.unicode_len() >= 2 && s.get_char(0) == 'n' && s.get_char(1) == 'g'
}

/// The methods of a service: the name and parameter count of each method
/// with an identifier name that does not begin with `ng`, in member order.
pub open spec fn service_methods(members: Seq<ClassMember>) -> Seq<(Seq<char>, nat)>
    decreases members.len(),
{
    if members.len() == 0 {
        Seq::empty()
    } else {
        let prev = service_methods(members.drop_last());
        match members.last() {
            ClassMember::Method { key: Some(k), param_count } => if !has_ng_prefix(k@) {
                prev.push((k@, param_count as nat))
            } else {
                prev
            },
            _ => prev,
        }
    }
}

/// The method `m` is the record of a service method with this name and
/// number of parameters: each parameter untyped, no return type, a
/// complexity of one.
pub open spec fn method_matches(m: NgMethod, name: Seq<char>, params: nat) -> bool {
    &&& m.name@ == name
    &&& m.parameters@.len() == params
    &&& forall|p: int|
        0 <= p < params ==> (#[trigger] m.parameters@[p]).name@ == "param"@ && m.parameters@[p].param_type@
            == "any"@ && !m.parameters@[p].optional
    &&& m.return_type is None
    &&& m.complexity_score == 1
}

/// The methods of a service class.
fn extract_methods(members: &Vec<ClassMember>) -> (r: Vec<NgMethod>)
    ensures
        r@.len() == service_methods(members@).len(),
        forall|i: int|
            0 <= i < r@.len() ==> method_matches(
                #[trigger] r@[i],
                service_methods(members@)[i].0,
                service_methods(members@)[i].1,
            ),
{
    let mut r: Vec<NgMethod> = Vec::new();
    let mut i: usize = 0;
    while i < members.len()
        invariant
            0 <= i <= members@.len(),
            r@.len() == service_methods(members@.subrange(0, i as int)).len(),
            forall|j: int|
                0 <= j < r@.len() ==> method_matches(
                    #[trigger] r@[j],
                    service_methods(members@.subrange(0, i as int))[j].0,
                    service_methods(members@.subrange(0, i as int))[j].1,
                ),
        decreases members@.len() - i,
    {
        proof {
            assert(members@.subrange(0, i as int + 1).drop_last() =~= members@.subrange(0, i as int));
        }
        match &members[i] {
            ClassMember::Method { key: Some(k), param_count } => {
                if !starts_with_ng(k) {
                    let mut parameters: Vec<Parameter> = Vec::new();
                    let mut p: usize = 0;
                    while p < *param_count
                        invariant
                            0 <= p <= *param_count,
                            parameters@.len() == p,
                            forall|q: int|
                                0 <= q < p ==> (#[trigger] parameters@[q]).name@ == "param"@
                                    && parameters@[q].param_type@ == "any"@ && !parameters@[q].optional,
                        decreases *param_count - p,
                    {
                        parameters.push(Parameter { name: owned("param"), param_type: owned("any"), optional: false });
                        p += 1;
                    }
                    r.push(NgMethod { name: k.clone(), parameters, return_type: None, complexity_score: 1 });
                }
            },
            _ => {},
        }
        i += 1;
    }
    assert(members@.subrange(0, members@.len() as int) =~= members@);
    r
}

/// The first decorator that is a call of `marker`.
pub open spec fn first_marked(decs: Seq<Decorator>, marker: Seq<char>) -> Option<Decorator>
    decreases decs.len(),
{
    if decs.len() == 0 {
        None
    } else if is_marked(decs[0], marker) {
        Some(decs[0])
    } else {
        first_marked(decs.subrange(1, decs.len() as int), marker)
    }
}

fn first_marked_decorator(decs: &Vec<Decorator>, marker: &String) -> (r: Option<usize>)
    ensures
        r matches Some(i) ==> i < decs@.len() && first_marked(decs@, marker@) == Some(decs@[i as int]),
        r is None ==> first_marked(decs@, marker@) is None,
{
    let mut i: usize = 0;
    assert(decs@.subrange(0, decs@.len() as int) =~= decs@);
    while i < decs.len()
        invariant
            0 <= i <= decs@.len(),
            first_marked(decs@, marker@) == first_marked(decs@.subrange(i as int, decs@.len() as int), marker@),
        decreases decs@.len() - i,
    {
        let ghost rest = decs@.subrange(i as int, decs@.len() as int);
        assert(rest.subrange(1, rest.len() as int) =~= decs@.subrange(i as int + 1, decs@.len() as int));
        assert(rest[0] == decs@[i as int]);
        if marked_as(&decs[i], marker) {
            return Some(i);
        }
        i += 1;
    }
    None
}

/// `comp` is the component that the class `c` in the file at `path` makes,
/// its attributes read from the decorator `d`.
pub open spec fn component_matches(comp: NgComponent, c: ClassDecl, d: Decorator, path: Seq<char>) -> bool {
    let m = metadata_of(d);
    let members = c.members@;
    &&& comp.name == c.name
    &&& comp.file_path@ == forward_slashes(path)
    &&& comp.selector == m.selector
    &&& comp.template_url == m.template_url
    &&& comp.template == m.template
    &&& comp.style_urls@ == m.style_urls
    &&& comp.change_detection == m.change_detection
    &&& comp.inputs@.len() == marked_properties(members, "Input"@).len()
    &&& forall|i: int|
        0 <= i < comp.inputs@.len() ==> (#[trigger] comp.inputs@[i]).name@ == marked_properties(members, "Input"@)[i]
            && comp.inputs@[i].alias is None && comp.inputs@[i].input_type@ == "any"@
    &&& comp.outputs@.len() == marked_properties(members, "Output"@).len()
    &&& forall|i: int|
        0 <= i < comp.outputs@.len() ==> (#[trigger] comp.outputs@[i]).name@ == marked_properties(members, "Output"@)[i]
            && comp.outputs@[i].alias is None && comp.outputs@[i].output_type@ == "EventEmitter<any>"@
    &&& views(comp.lifecycle_hooks@) == hook_names(members)
    &&& views(comp.dependencies@) == dependency_types(members)
    &&& comp.complexity_score == 1 + method_count(members)
}

/// The component the class makes, if it has a component decorator: its
/// attributes come from the first such decorator, its members are scanned
/// whatever the decorator says.
fn analyze_class_for_component(c: &ClassDecl, file_path: &str) -> (r: Option<NgComponent>)
    requires
        c.members@.len() < u32::MAX,
    ensures
        r is Some <==> first_marked(c.decorators@, "Component"@) is Some,
        r matches Some(comp) ==> component_matches(comp, *c, first_marked(c.decorators@, "Component"@)->0, file_path@),
{
    let marker = owned("Component");
    match first_marked_decorator(&c.decorators, &marker) {
        Some(i) => {
            let d = &c.decorators[i];
            let mut selector: Option<String> = None;
            let mut template_url: Option<String> = None;
            let mut template: Option<String> = None;
            let mut style_urls: Vec<String> = Vec::new();
            let mut change_detection = ChangeDetectionStrategy::Default;
            match &d.object_arg {
                Some(props) => {
                    let mut j: usize = 0;
                    while j < props.len()
                        invariant
                            0 <= j <= props@.len(),
                            ({
                                let m = metadata_upto(props@, j as int);
                                &&& selector == m.selector
                                &&& template_url == m.template_url
                                &&& template == m.template
                                &&& style_urls@ == m.style_urls
                                &&& change_detection == m.change_detection
                            }),
                        decreases props@.len() - j,
                    {
                        extract_component_metadata(
                            &props[j],
                            &mut selector,
                            &mut template_url,
                            &mut template,
                            &mut style_urls,
                            &mut change_detection,
                        );
                        j += 1;
                    }
                },
                None => {},
            }
            let inputs = extract_inputs(&c.members);
            let outputs = extract_outputs(&c.members);
            let lifecycle_hooks = extract_lifecycle_hooks(&c.members);
            let dependencies = extract_dependencies(&c.members);
            let complexity_score = calculate_complexity(&c.members);
            Some(NgComponent {
                name: c.name.clone(),
                file_path: normalize_path(file_path),
                selector,
                template_url,
                template,
                style_urls,
                inputs,
                outputs,
                lifecycle_hooks,
                dependencies,
                change_detection,
                complexity_score,
            })
        },
        None => None,
    }
}

/// The `providedIn` string among the properties, the last one winning over
/// `cur`.
pub open spec fn provided_in_after(props: Seq<Property>, cur: Option<String>) -> Option<String>
    decreases props.len(),
{
    if props.len() == 0 {
        cur
    } else {
        let prev = provided_in_after(props.drop_last(), cur);
        let p = props.last();
        match p.key {
            Some(k) => if k@ == "providedIn"@ {
                match p.value {
                    PropValue::Str(s) => Some(s),
                    _ => prev,
                }
            } else {
                prev
            },
            None => prev,
        }
    }
}

/// Where the injectable decorators say the service is provided: the last
/// `providedIn` string among their arguments.
pub open spec fn provided_in_of(decs: Seq<Decorator>) -> Option<String>
    decreases decs.len(),
{
    if decs.len() == 0 {
        None
    } else {
        let prev = provided_in_of(decs.drop_last());
        let d = decs.last();
        if is_marked(d, "Injectable"@) {
            match d.object_arg {
                Some(props) => provided_in_after(props@, prev),
                None => prev,
            }
        } else {
            prev
        }
    }
}

/// The class has an injectable decorator.
pub open spec fn is_injectable(decs: Seq<Decorator>) -> bool {
    exists|i: int| 0 <= i < decs.len() && is_marked(#[trigger] decs[i], "Injectable"@)
}

/// `svc` is the service that the class `c` in the file at `path` makes.
pub open spec fn service_matches(svc: NgService, c: ClassDecl, path: Seq<char>) -> bool {
    let members = c.members@;
    &&& svc.name == c.name
    &&& svc.file_path@ == forward_slashes(path)
    &&& svc.provided_in == provided_in_of(c.decorators@)
    &&& svc.injectable
    &&& views(svc.dependencies@) == dependency_types(members)
    &&& svc.methods@.len() == service_methods(members).len()
    &&& forall|i: int|
        0 <= i < svc.methods@.len() ==> method_matches(
            #[trigger] svc.methods@[i],
            service_methods(members)[i].0,
            service_methods(members)[i].1,
        )
}

/// The service the class makes, if it has an injectable decorator.
fn analyze_class_for_service(c: &ClassDecl, file_path: &str) -> (r: Option<NgService>)
    ensures
        r is Some <==> is_injectable(c.decorators@),
        r matches Some(svc) ==> service_matches(svc, *c, file_path@),
{
    let marker = owned("Injectable");
    let key = owned("providedIn");
    let mut provided_in: Option<String> = None;
    let mut injectable = false;
    let mut i: usize = 0;
    while i < c.decorators.len()
        invariant
            0 <= i <= c.decorators@.len(),
            marker@ == "Injectable"@,
            key@ == "providedIn"@,
            provided_in == provided_in_of(c.decorators@.subrange(0, i as int)),
            injectable == is_injectable(c.decorators@.subrange(0, i as int)),
        decreases c.decorators@.len() - i,
    {
        let ghost decs = c.decorators@.subrange(0, i as int + 1);
        proof {
            assert(decs.drop_last() =~= c.decorators@.subrange(0, i as int));
        }
        let d = &c.decorators[i];
        if marked_as(d, &marker) {
            injectable = true;
            match &d.object_arg {
                Some(props) => {
                    let ghost start = provided_in;
                    let mut j: usize = 0;
                    while j < props.len()
                        invariant
                            0 <= j <= props@.len(),
                            key@ == "providedIn"@,
                            provided_in == provided_in_after(props@.subrange(0, j as int), start),
                        decreases props@.len() - j,
                    {
                        proof {
                            assert(props@.subrange(0, j as int + 1).drop_last() =~= props@.subrange(0, j as int));
                        }
                        let p = &props[j];
                        match &p.key {
                            Some(k) => {
                                if *k == key {
                                    match &p.value {
                                        PropValue::Str(s) => {
                                            provided_in = Some(s.clone());
                                        },
                                        _ => {},
                                    }
                                }
                            },
                            None => {},
                        }
                        j += 1;
                    }
                    assert(props@.subrange(0, props@.len() as int) =~= props@);
                },
                None => {},
            }
        }
        proof {
            if is_injectable(decs) && !is_marked(decs.last(), "Injectable"@) {
                let x = choose|x: int| 0 <= x < decs.len() && is_marked(#[trigger] decs[x], "Injectable"@);
                assert(c.decorators@.subrange(0, i as int)[x] == decs[x]);
            }
            if is_injectable(c.decorators@.subrange(0, i as int)) {
                let x = choose|x: int| 0 <= x < i && is_marked(#[trigger] c.decorators@.subrange(0, i as int)[x], "Injectable"@);
                assert(decs[x] == c.decorators@.subrange(0, i as int)[x]);
            }
            if is_marked(decs.last(), "Injectable"@) {
                assert(decs[decs.len() - 1] == decs.last());
            }
        }
        i += 1;
    }
    assert(c.decorators@.subrange(0, c.decorators@.len() as int) =~= c.decorators@);
    if injectable {
        let dependencies = extract_dependencies(&c.members);
        let methods = extract_methods(&c.members);
        Some(NgService {
            name: c.name.clone(),
            file_path: normalize_path(file_path),
            provided_in,
            injectable,
            dependencies,
            methods,
        })
    } else {
        None
    }
}

/// An import record as plain values: file path, symbol, source module,
/// form, line.
pub type ImportFact = (Seq<char>, Seq<char>, Seq<char>, ImportType, Option<u32>);

/// An export record as plain values: file path, symbol, form, line.
pub type ExportFact = (Seq<char>, Seq<char>, ExportType, Option<u32>);

pub open spec fn import_fact(i: Import) -> ImportFact {
    (i.file_path@, i.symbol_name@, i.source_module@, i.import_type, i.line_number)
}

pub open spec fn export_fact(e: Export) -> ExportFact {
    (e.file_path@, e.symbol_name@, e.export_type, e.line_number)
}

/// The import facts of one import declaration's specifiers.
pub open spec fn specifier_imports(specs: Seq<ImportSpec>, path: Seq<char>, source: Seq<char>) -> Seq<ImportFact>
    decreases specs.len(),
{
    if specs.len() == 0 {
        Seq::empty()
    } else {
        let prev = specifier_imports(specs.drop_last(), path, source);
        let fact = match specs.last() {
            ImportSpec::Named { imported, local } => {
                let sym = match imported {
                    Some(n) => n@,
                    None => local@,
                };
                (path, sym, source, ImportType::Named, None)
            },
            ImportSpec::Default(l) => (path, l@, source, ImportType::Default, None),
            ImportSpec::Namespace(l) => (path, l@, source, ImportType::Namespace, None),
        };
        prev.push(fact)
    }
}

/// The import facts of a module, in order.
pub open spec fn module_imports(items: Seq<ModuleItem>, path: Seq<char>) -> Seq<ImportFact>
    decreases items.len(),
{
    if items.len() == 0 {
        Seq::empty()
    } else {
        let prev = module_imports(items.drop_last(), path);
        match items.last() {
            ModuleItem::Import { source, specifiers } => prev + specifier_imports(specifiers@, path, source@),
            _ => prev,
        }
    }
}

/// A named export of `name`.
pub open spec fn named_fact(path: Seq<char>, name: Seq<char>) -> ExportFact {
    (path, name, ExportType::Named, None)
}

/// The export facts of the identifier declarators of an exported variable
/// declaration.
pub open spec fn variable_exports(vs: Seq<Option<String>>, path: Seq<char>) -> Seq<ExportFact>
    decreases vs.len(),
{
    if vs.len() == 0 {
        Seq::empty()
    } else {
        let prev = variable_exports(vs.drop_last(), path);
        match vs.last() {
            Some(n) => prev.push(named_fact(path, n@)),
            None => prev,
        }
    }
}

/// The export facts of an exported declaration.
pub open spec fn declaration_exports(d: Declaration, path: Seq<char>) -> Seq<ExportFact> {
    match d {
        Declaration::Class(c) => seq![named_fact(path, c.name@)],
        Declaration::Function(n) => seq![named_fact(path, n@)],
        Declaration::Variables(vs) => variable_exports(vs@, path),
        Declaration::Interface(n) => seq![named_fact(path, n@)],
        Declaration::TypeAlias(n) => seq![named_fact(path, n@)],
        Declaration::Enum(n) => seq![named_fact(path, n@)],
        Declaration::Other => Seq::empty(),
    }
}

/// The export facts of an `export { ... }` declaration.
pub open spec fn specifier_exports(specs: Seq<ExportSpec>, from_module: bool, path: Seq<char>) -> Seq<ExportFact>
    decreases specs.len(),
{
    if specs.len() == 0 {
        Seq::empty()
    } else {
        let prev = specifier_exports(specs.drop_last(), from_module, path);
        match specs.last() {
            ExportSpec::Named { exported, orig } => {
                let sym = match exported {
                    Some(n) => n@,
                    None => orig@,
                };
                let kind = if from_module {
                    ExportType::ReExport
                } else {
                    ExportType::Named
                };
                prev.push((path, sym, kind, None))
            },
            ExportSpec::Other => prev,
        }
    }
}

/// The export facts of one module item.
pub open spec fn item_exports(item: ModuleItem, path: Seq<char>) -> Seq<ExportFact> {
    match item {
        ModuleItem::ExportDecl(d) => declaration_exports(d, path),
        ModuleItem::ExportNamed { specifiers, from_module } => specifier_exports(specifiers@, from_module, path),
        ModuleItem::ExportDefaultDecl(name) => {
            let sym = match name {
                Some(n) => n@,
                None => "default"@,
            };
            seq![(path, sym, ExportType::Default, None)]
        },
        ModuleItem::ExportDefaultExpr => seq![(path, "default"@, ExportType::Default, None)],
        ModuleItem::ExportAll => seq![(path, "*"@, ExportType::Namespace, None)],
        _ => Seq::empty(),
    }
}

/// The export facts of a module, in order.
pub open spec fn module_exports(items: Seq<ModuleItem>, path: Seq<char>) -> Seq<ExportFact>
    decreases items.len(),
{
    if items.len() == 0 {
        Seq::empty()
    } else {
        module_exports(items.drop_last(), path) + item_exports(items.last(), path)
    }
}

fn import_records(specs: &Vec<ImportSpec>, path: &String, source: &String) -> (r: Vec<Import>)
    ensures
        r@.map_values(|i: Import| import_fact(i)) == specifier_imports(specs@, path@, source@),
{
    let mut r: Vec<Import> = Vec::new();
    let mut j: usize = 0;
    while j < specs.len()
        invariant
            0 <= j <= specs@.len(),
            r@.map_values(|i: Import| import_fact(i)) == specifier_imports(specs@.subrange(0, j as int), path@, source@),
        decreases specs@.len() - j,
    {
        proof {
            assert(specs@.subrange(0, j as int + 1).drop_last() =~= specs@.subrange(0, j as int));
        }
        let (symbol_name, import_type) = match &specs[j] {
            ImportSpec::Named { imported, local } => {
                let sym = match imported {
                    Some(n) => n.clone(),
                    None => local.clone(),
                };
                (sym, ImportType::Named)
            },
            ImportSpec::Default(l) => (l.clone(), ImportType::Default),
            ImportSpec::Namespace(l) => (l.clone(), ImportType::Namespace),
        };
        let ghost before = r@;
        r.push(Import {
            file_path: path.clone(),
            symbol_name,
            source_module: source.clone(),
            import_type,
            line_number: None,
        });
        j += 1;
        assert(r@.map_values(|i: Import| import_fact(i)) =~= before.map_values(|i: Import| import_fact(i)).push(
            import_fact(r@.last()),
        ));
    }
    assert(specs@.subrange(0, specs@.len() as int) =~= specs@);
    r
}

fn export_record(path: &String, name: &String, export_type: ExportType) -> (r: Export)
    ensures
        export_fact(r) == (path@, name@, export_type, None::<u32>),
{
    Export { file_path: path.clone(), symbol_name: name.clone(), export_type, line_number: None }
}

fn declaration_records(d: &Declaration, path: &String) -> (r: Vec<Export>)
    ensures
        r@.map_values(|e: Export| export_fact(e)) == declaration_exports(*d, path@),
{
    let mut r: Vec<Export> = Vec::new();
    match d {
        Declaration::Class(c) => {
            r.push(export_record(path, &c.name, ExportType::Named));
        },
        Declaration::Function(n) => {
            r.push(export_record(path, n, ExportType::Named));
        },
        Declaration::Variables(vs) => {
            let mut j: usize = 0;
            while j < vs.len()
                invariant
                    0 <= j <= vs@.len(),
                    r@.map_values(|e: Export| export_fact(e)) == variable_exports(vs@.subrange(0, j as int), path@),
                decreases vs@.len() - j,
            {
                proof {
                    assert(vs@.subrange(0, j as int + 1).drop_last() =~= vs@.subrange(0, j as int));
                }
                let ghost before = r@;
                match &vs[j] {
                    Some(n) => {
                        r.push(export_record(path, n, ExportType::Named));
                        assert(r@.map_values(|e: Export| export_fact(e)) =~= before.map_values(|e: Export| export_fact(e)).push(
                            export_fact(r@.last()),
                        ));
                    },
                    None => {},
                }
                j += 1;
            }
            assert(vs@.subrange(0, vs@.len() as int) =~= vs@);
            return r;
        },
        Declaration::Interface(n) => {
            r.push(export_record(path, n, ExportType::Named));
        },
        Declaration::TypeAlias(n) => {
            r.push(export_record(path, n, ExportType::Named));
        },
        Declaration::Enum(n) => {
            r.push(export_record(path, n, ExportType::Named));
        },
        Declaration::Other => {},
    }
    assert(r@.map_values(|e: Export| export_fact(e)) =~= declaration_exports(*d, path@));
    r
}

fn specifier_records(specs: &Vec<ExportSpec>, from_module: bool, path: &String) -> (r: Vec<Export>)
    ensures
        r@.map_values(|e: Export| export_fact(e)) == specifier_exports(specs@, from_module, path@),
{
    let mut r: Vec<Export> = Vec::new();
    let mut j: usize = 0;
    while j < specs.len()
        invariant
            0 <= j <= specs@.len(),
            r@.map_values(|e: Export| export_fact(e)) == specifier_exports(specs@.subrange(0, j as int), from_module, path@),
        decreases specs@.len() - j,
    {
        proof {
            assert(specs@.subrange(0, j as int + 1).drop_last() =~= specs@.subrange(0, j as int));
        }
        let ghost before = r@;
        match &specs[j] {
            ExportSpec::Named { exported, orig } => {
                let sym = match exported {
                    Some(n) => n,
                    None => orig,
                };
                let kind = if from_module {
                    ExportType::ReExport
                } else {
                    ExportType::Named
                };
                r.push(export_record(path, sym, kind));
                assert(r@.map_values(|e: Export| export_fact(e)) =~= before.map_values(|e: Export| export_fact(e)).push(
                    export_fact(r@.last()),
                ));
            },
            ExportSpec::Other => {},
        }
        j += 1;
    }
    assert(specs@.subrange(0, specs@.len() as int) =~= specs@);
    r
}

fn item_records(item: &ModuleItem, path: &String) -> (r: Vec<Export>)
    ensures
        r@.map_values(|e: Export| export_fact(e)) == item_exports(*item, path@),
{
    match item {
        ModuleItem::ExportDecl(d) => declaration_records(d, path),
        ModuleItem::ExportNamed { specifiers, from_module } => specifier_records(specifiers, *from_module, path),
        ModuleItem::ExportDefaultDecl(name) => {
            let mut r: Vec<Export> = Vec::new();
            let sym = match name {
                Some(n) => n.clone(),
                None => owned("default"),
            };
            r.push(export_record(path, &sym, ExportType::Default));
            assert(r@.map_values(|e: Export| export_fact(e)) =~= item_exports(*item, path@));
            r
        },
        ModuleItem::ExportDefaultExpr => {
            let mut r: Vec<Export> = Vec::new();
            r.push(export_record(path, &owned("default"), ExportType::Default));
            assert(r@.map_values(|e: Export| export_fact(e)) =~= item_exports(*item, path@));
            r
        },
        ModuleItem::ExportAll => {
            let mut r: Vec<Export> = Vec::new();
            r.push(export_record(path, &owned("*"), ExportType::Namespace));
            assert(r@.map_values(|e: Export| export_fact(e)) =~= item_exports(*item, path@));
            r
        },
        _ => {
            let r: Vec<Export> = Vec::new();
            assert(r@.map_values(|e: Export| export_fact(e)) =~= item_exports(*item, path@));
            r
        },
    }
}

/// All import and export facts of a module, each carrying the path of the
/// file with forward slashes.
pub fn extract_imports_exports(module: &ModuleOutline, file_path: &str) -> (r: (Vec<Import>, Vec<Export>))
    ensures
        r.0@.map_values(|i: Import| import_fact(i)) == module_imports(module.items@, forward_slashes(file_path@)),
        r.1@.map_values(|e: Export| export_fact(e)) == module_exports(module.items@, forward_slashes(file_path@)),
{
    let path = normalize_path(file_path);
    let items = &module.items;
    let mut imports: Vec<Import> = Vec::new();
    let mut exports: Vec<Export> = Vec::new();
    let mut i: usize = 0;
    while i < items.len()
        invariant
            0 <= i <= items@.len(),
            path@ == forward_slashes(file_path@),
            imports@.map_values(|x: Import| import_fact(x)) == module_imports(items@.subrange(0, i as int), path@),
            exports@.map_values(|x: Export| export_fact(x)) == module_exports(items@.subrange(0, i as int), path@),
        decreases items@.len() - i,
    {
        proof {
            assert(items@.subrange(0, i as int + 1).drop_last() =~= items@.subrange(0, i as int));
        }
        let ghost imports0 = imports@;
        let ghost exports0 = exports@;
        match &items[i] {
            ModuleItem::Import { source, specifiers } => {
                let mut more = import_records(specifiers, &path, source);
                let ghost m = more@;
                imports.append(&mut more);
                assert(imports@.map_values(|x: Import| import_fact(x)) =~= imports0.map_values(|x: Import| import_fact(x))
                    + m.map_values(|x: Import| import_fact(x)));
            },
            _ => {},
        }
        let mut more = item_records(&items[i], &path);
        let ghost m = more@;
        exports.append(&mut more);
        assert(exports@.map_values(|x: Export| export_fact(x)) =~= exports0.map_values(|x: Export| export_fact(x))
            + m.map_values(|x: Export| export_fact(x)));
        i += 1;
    }
    assert(items@.subrange(0, items@.len() as int) =~= items@);
    (imports, exports)
}

/// The class an item declares at the top level, exported or not.
pub open spec fn top_level_class(item: ModuleItem) -> Option<ClassDecl> {
    match item {
        ModuleItem::ExportDecl(Declaration::Class(c)) => Some(c),
        ModuleItem::Class(c) => Some(c),
        _ => None,
    }
}

/// The class an item declares at the top level, exported or not.
fn class_of(item: &ModuleItem) -> (r: Option<&ClassDecl>)
    ensures
        r matches Some(c) ==> top_level_class(*item) == Some(*c),
        r is None ==> top_level_class(*item) is None,
{
    match item {
        ModuleItem::ExportDecl(Declaration::Class(c)) => Some(c),
        ModuleItem::Class(c) => Some(c),
        _ => None,
    }
}

/// The first top-level class with a component decorator.
pub open spec fn first_component_class(items: Seq<ModuleItem>) -> Option<ClassDecl>
    decreases items.len(),
{
    if items.len() == 0 {
        None
    } else {
        let rest = first_component_class(items.subrange(1, items.len() as int));
        match top_level_class(items[0]) {
            Some(c) => if first_marked(c.decorators@, "Component"@) is Some {
                Some(c)
            } else {
                rest
            },
            None => rest,
        }
    }
}

/// The first top-level class with an injectable decorator.
pub open spec fn first_service_class(items: Seq<ModuleItem>) -> Option<ClassDecl>
    decreases items.len(),
{
    if items.len() == 0 {
        None
    } else {
        let rest = first_service_class(items.subrange(1, items.len() as int));
        match top_level_class(items[0]) {
            Some(c) => if is_injectable(c.decorators@) {
                Some(c)
            } else {
                rest
            },
            None => rest,
        }
    }
}

/// No class of the module has as many members as the complexity score can
/// count.
pub open spec fn classes_bounded(items: Seq<ModuleItem>) -> bool {
    forall|i: int|
        0 <= i < items.len() ==> match #[trigger] top_level_class(items[i]) {
            Some(c) => c.members@.len() < u32::MAX,
            None => true,
        }
}

/// Recognizes the framework entities of one parsed file and reads its
/// import and export facts.
pub struct TypeScriptParser;

impl TypeScriptParser {
    pub fn new() -> (r: TypeScriptParser) {
        TypeScriptParser
    }

    /// The component of the module: made from its first top-level class with
    /// a component decorator, if any.
    pub fn extract_component(&self, module: &ModuleOutline, file_path: &str) -> (r: Option<NgComponent>)
        requires
            classes_bounded(module.items@),
        ensures
            r is Some <==> first_component_class(module.items@) is Some,
            r matches Some(comp) ==> ({
                let c = first_component_class(module.items@)->0;
                component_matches(comp, c, first_marked(c.decorators@, "Component"@)->0, file_path@)
            }),
    {
        let items = &module.items;
        let mut i: usize = 0;
        assert(items@.subrange(0, items@.len() as int) =~= items@);
        while i < items.len()
            invariant
                0 <= i <= items@.len(),
                classes_bounded(items@),
                items@ == module.items@,
                first_component_class(items@) == first_component_class(items@.subrange(i as int, items@.len() as int)),
            decreases items@.len() - i,
        {
            let ghost rest = items@.subrange(i as int, items@.len() as int);
            assert(rest.subrange(1, rest.len() as int) =~= items@.subrange(i as int + 1, items@.len() as int));
            assert(rest[0] == items@[i as int]);
            match class_of(&items[i]) {
                Some(c) => {
                    assert(top_level_class(items@[i as int]) == Some(*c));
                    let found = analyze_class_for_component(c, file_path);
                    if found.is_some() {
                        assert(top_level_class(rest[0]) == Some(*c));
                        assert(first_component_class(rest) == Some(*c));
                        return found;
                    }
                },
                _ => {},
            }
            i += 1;
        }
        None
    }

    /// The service of the module: made from its first top-level class with an
    /// injectable decorator, if any.
    pub fn extract_service(&self, module: &ModuleOutline, file_path: &str) -> (r: Option<NgService>)
        ensures
            r is Some <==> first_service_class(module.items@) is Some,
            r matches Some(svc) ==> service_matches(svc, first_service_class(module.items@)->0, file_path@),
    {
        let items = &module.items;
        let mut i: usize = 0;
        assert(items@.subrange(0, items@.len() as int) =~= items@);
        while i < items.len()
            invariant
                0 <= i <= items@.len(),
                items@ == module.items@,
                first_service_class(items@) == first_service_class(items@.subrange(i as int, items@.len() as int)),
            decreases items@.len() - i,
        {
            let ghost rest = items@.subrange(i as int, items@.len() as int);
            assert(rest.subrange(1, rest.len() as int) =~= items@.subrange(i as int + 1, items@.len() as int));
            assert(rest[0] == items@[i as int]);
            match class_of(&items[i]) {
                Some(c) => {
                    let found = analyze_class_for_service(c, file_path);
                    if found.is_some() {
                        assert(top_level_class(rest[0]) == Some(*c));
                        assert(first_service_class(rest) == Some(*c));
                        return found;
                    }
                },
                _ => {},
            }
            i += 1;
        }
        None
    }

    /// The import and export facts of the module.
    pub fn extract_imports_exports(&self, module: &ModuleOutline, file_path: &str) -> (r: (Vec<Import>, Vec<Export>))
        ensures
            r.0@.map_values(|i: Import| import_fact(i)) == module_imports(module.items@, forward_slashes(file_path@)),
            r.1@.map_values(|e: Export| export_fact(e)) == module_exports(module.items@, forward_slashes(file_path@)),
    {
        extract_imports_exports(module, file_path)
    }

    /// The kind of the file at `file_path`, from its extension.
    pub fn get_file_type(&self, file_path: &str) -> (r: FileType)
        ensures
            r == crate::graph::file_type_for(file_path@),
    {
        crate::graph::get_file_type(file_path)
    }
}

} // verus!
