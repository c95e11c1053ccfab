use ng_analyzer::extract::TypeScriptParser;
use ng_analyzer::model::{ChangeDetectionStrategy, ExportType, ImportType};
use ng_analyzer::project::{is_module_file, ProjectParser, SourceFile};
use ng_analyzer::syntax::{
    ClassDecl, ClassMember, CtorParam, Declaration, Decorator, ExportSpec, ImportSpec, ModuleItem,
    ModuleOutline, PropValue, Property, TypeRef,
};

fn s(x: &str) -> String {
    x.to_string()
}

fn prop(key: &str, value: PropValue) -> Property {
    Property { key: Some(s(key)), value }
}

fn call(name: &str, args: Option<Vec<Property>>) -> Decorator {
    Decorator { name: Some(s(name)), object_arg: args }
}

fn core_import(names: &[&str]) -> ModuleItem {
    ModuleItem::Import {
        source: s("@angular/core"),
        specifiers: names
            .iter()
            .map(|n| ImportSpec::Named { imported: None, local: s(n) })
            .collect(),
    }
}

/// The outline of the component module used by the component tests.
fn component_module() -> ModuleOutline {
    let class = ClassDecl {
        name: s("TestComponent"),
        decorators: vec![call(
            "Component",
            Some(vec![
                prop("selector", PropValue::Str(s("app-test"))),
                prop("template", PropValue::Str(s("<div>{{ message }}</div>"))),
                prop("styleUrls", PropValue::Array(vec![Some(s("./test.component.css"))])),
            ]),
        )],
        members: vec![
            ClassMember::Property { key: Some(s("message")), decorators: vec![call("Input", None)] },
            ClassMember::Property { key: Some(s("messageChange")), decorators: vec![call("Output", None)] },
            ClassMember::Method { key: Some(s("complexMethod")), param_count: 0 },
        ],
    };
    ModuleOutline {
        items: vec![
            core_import(&["Component", "Input", "Output", "EventEmitter"]),
            ModuleItem::ExportDecl(Declaration::Class(class)),
        ],
    }
}

fn service_module(name: &str, ctor: Vec<CtorParam>, methods: &[&str]) -> ModuleOutline {
    let mut members: Vec<ClassMember> = vec![ClassMember::Constructor(ctor)];
    for m in methods {
        members.push(ClassMember::Method { key: Some(s(m)), param_count: 1 });
    }
    let class = ClassDecl {
        name: s(name),
        decorators: vec![call("Injectable", Some(vec![prop("providedIn", PropValue::Str(s("root")))]))],
        members,
    };
    ModuleOutline { items: vec![core_import(&["Injectable"]), ModuleItem::ExportDecl(Declaration::Class(class))] }
}

#[test]
fn component_is_extracted_from_its_decorator() {
    let parser = TypeScriptParser::new();
    let c = parser.extract_component(&component_module(), "src\\app\\test.component.ts").unwrap();
    assert_eq!(c.name, "TestComponent");
    assert_eq!(c.file_path, "src/app/test.component.ts");
    assert_eq!(c.selector, Some(s("app-test")));
    assert_eq!(c.template, Some(s("<div>{{ message }}</div>")));
    assert_eq!(c.template_url, None);
    assert_eq!(c.style_urls, vec![s("./test.component.css")]);
    assert_eq!(c.inputs.len(), 1);
    assert_eq!(c.inputs[0].name, "message");
    assert_eq!(c.inputs[0].input_type, "any");
    assert_eq!(c.outputs.len(), 1);
    assert_eq!(c.outputs[0].output_type, "EventEmitter<any>");
    assert_eq!(c.change_detection, ChangeDetectionStrategy::Default);
    assert_eq!(c.complexity_score, 2);
}

#[test]
fn on_push_and_hooks_are_read() {
    let class = ClassDecl {
        name: s("HeavyComponent"),
        decorators: vec![call(
            "Component",
            Some(vec![
                prop("changeDetection", PropValue::Member(Some(s("OnPush")))),
                prop("templateUrl", PropValue::Str(s("./heavy.html"))),
                Property { key: None, value: PropValue::Other },
                prop("unknownKey", PropValue::Str(s("ignored"))),
            ]),
        )],
        members: vec![
            ClassMember::Method { key: Some(s("ngOnInit")), param_count: 0 },
            ClassMember::Method { key: Some(s("ngOnDestroy")), param_count: 0 },
            ClassMember::Method { key: Some(s("render")), param_count: 2 },
            ClassMember::Constructor(vec![
                CtorParam { declared: Some(TypeRef::Named(s("HttpClient"))) },
                CtorParam { declared: Some(TypeRef::Other) },
                CtorParam { declared: None },
            ]),
        ],
    };
    let module = ModuleOutline { items: vec![ModuleItem::ExportDecl(Declaration::Class(class))] };
    let c = TypeScriptParser::new().extract_component(&module, "heavy.component.ts").unwrap();
    assert_eq!(c.change_detection, ChangeDetectionStrategy::OnPush);
    assert_eq!(c.template_url, Some(s("./heavy.html")));
    assert_eq!(c.lifecycle_hooks, vec![s("ngOnInit"), s("ngOnDestroy")]);
    assert_eq!(c.dependencies, vec![s("HttpClient"), s("unknown")]);
    assert_eq!(c.complexity_score, 4);
}

#[test]
fn decorator_without_argument_gives_defaults() {
    let class = ClassDecl { name: s("Bare"), decorators: vec![call("Component", None)], members: vec![] };
    let module = ModuleOutline { items: vec![ModuleItem::ExportDecl(Declaration::Class(class))] };
    let c = TypeScriptParser::new().extract_component(&module, "bare.component.ts").unwrap();
    assert_eq!(c.selector, None);
    assert!(c.style_urls.is_empty());
    assert_eq!(c.complexity_score, 1);
}

#[test]
fn undecorated_class_gives_no_entity_but_facts() {
    let class = ClassDecl { name: s("Plain"), decorators: vec![], members: vec![] };
    let module = ModuleOutline {
        items: vec![core_import(&["Component"]), ModuleItem::ExportDecl(Declaration::Class(class))],
    };
    let parser = TypeScriptParser::new();
    assert!(parser.extract_component(&module, "plain.ts").is_none());
    assert!(parser.extract_service(&module, "plain.ts").is_none());
    let (imports, exports) = parser.extract_imports_exports(&module, "plain.ts");
    assert_eq!(imports.len(), 1);
    assert_eq!(exports.len(), 1);
    assert_eq!(exports[0].symbol_name, "Plain");
}

#[test]
fn only_the_first_component_class_counts() {
    let first = ClassDecl { name: s("First"), decorators: vec![call("Component", None)], members: vec![] };
    let second = ClassDecl { name: s("Second"), decorators: vec![call("Component", None)], members: vec![] };
    let module = ModuleOutline {
        items: vec![
            ModuleItem::ExportDecl(Declaration::Class(first)),
            ModuleItem::ExportDecl(Declaration::Class(second)),
        ],
    };
    let c = TypeScriptParser::new().extract_component(&module, "two.component.ts").unwrap();
    assert_eq!(c.name, "First");
}

#[test]
fn service_is_extracted_with_methods() {
    let module = service_module(
        "TestService",
        vec![CtorParam { declared: Some(TypeRef::Named(s("ServiceB"))) }],
        &["getData", "setData", "ngOnDestroy"],
    );
    let svc = TypeScriptParser::new().extract_service(&module, "test.service.ts").unwrap();
    assert_eq!(svc.name, "TestService");
    assert_eq!(svc.provided_in, Some(s("root")));
    assert!(svc.injectable);
    assert_eq!(svc.dependencies, vec![s("ServiceB")]);
    assert_eq!(svc.methods.len(), 2);
    assert_eq!(svc.methods[0].name, "getData");
    assert_eq!(svc.methods[0].parameters.len(), 1);
    assert_eq!(svc.methods[0].parameters[0].name, "param");
    assert_eq!(svc.methods[1].name, "setData");
}

#[test]
fn import_and_export_forms_are_recorded() {
    let module = ModuleOutline {
        items: vec![
            ModuleItem::Import {
                source: s("./b"),
                specifiers: vec![
                    ImportSpec::Named { imported: Some(s("Orig")), local: s("Alias") },
                    ImportSpec::Default(s("Def")),
                    ImportSpec::Namespace(s("All")),
                ],
            },
            ModuleItem::ExportDecl(Declaration::Function(s("helper"))),
            ModuleItem::ExportDecl(Declaration::Variables(vec![Some(s("x")), None, Some(s("y"))])),
            ModuleItem::ExportNamed {
                specifiers: vec![ExportSpec::Named { exported: Some(s("Out")), orig: s("In") }, ExportSpec::Other],
                from_module: true,
            },
            ModuleItem::ExportDefaultDecl(None),
            ModuleItem::ExportDefaultExpr,
            ModuleItem::ExportAll,
            ModuleItem::Other,
        ],
    };
    let (imports, exports) = TypeScriptParser::new().extract_imports_exports(&module, "dir\\a.ts");
    let syms: Vec<&str> = imports.iter().map(|i| i.symbol_name.as_str()).collect();
    assert_eq!(syms, vec!["Orig", "Def", "All"]);
    assert_eq!(imports[0].import_type, ImportType::Named);
    assert_eq!(imports[1].import_type, ImportType::Default);
    assert_eq!(imports[2].import_type, ImportType::Namespace);
    assert_eq!(imports[0].file_path, "dir/a.ts");
    assert_eq!(imports[0].source_module, "./b");
    let names: Vec<&str> = exports.iter().map(|e| e.symbol_name.as_str()).collect();
    assert_eq!(names, vec!["helper", "x", "y", "Out", "default", "default", "*"]);
    assert_eq!(exports[3].export_type, ExportType::ReExport);
    assert_eq!(exports[4].export_type, ExportType::Default);
    assert_eq!(exports[6].export_type, ExportType::Namespace);
}

#[test]
fn module_files_come_from_paths() {
    assert!(is_module_file("src/app/app.module.ts"));
    assert!(!is_module_file("src/app/app.module.js"));
    assert!(!is_module_file("src/app/main.ts"));
}

fn discovered() -> Vec<SourceFile> {
    vec![
        SourceFile { path: s("/p/test.component.ts"), module: Some(component_module()) },
        SourceFile { path: s("/p/broken.component.ts"), module: None },
        SourceFile { path: s("/p/test.service.ts"), module: Some(service_module("TestService", vec![], &["getData"])) },
        SourceFile { path: s("/p/app.module.ts"), module: Some(ModuleOutline { items: vec![] }) },
        SourceFile { path: s("/p/readme.ts"), module: Some(component_module()) },
        SourceFile { path: s("/p/notes.md"), module: Some(component_module()) },
    ]
}

#[test]
fn project_groups_entities_and_skips_failures() {
    let project = ProjectParser::new().parse_project(s("/p"), &discovered());
    assert_eq!(project.root_path, "/p");
    assert_eq!(project.components.len(), 2);
    assert_eq!(project.components[0].name, "TestComponent");
    assert_eq!(project.components[1].file_path, "/p/readme.ts");
    assert_eq!(project.services.len(), 1);
    assert_eq!(project.services[0].name, "TestService");
    assert_eq!(project.modules.len(), 1);
    assert_eq!(project.modules[0].name, "app.module");
    assert!(project.pipes.is_empty());
    assert!(project.directives.is_empty());
}

#[test]
fn rebuilding_gives_the_same_entities() {
    let parser = ProjectParser::new();
    let a = parser.parse_project(s("/p"), &discovered());
    let b = parser.parse_project(s("/p"), &discovered());
    let names = |p: &ng_analyzer::model::NgProject| {
        let mut v: Vec<String> = p.components.iter().map(|c| c.name.clone()).collect();
        v.extend(p.services.iter().map(|c| c.name.clone()));
        v.extend(p.modules.iter().map(|c| c.name.clone()));
        v
    };
    assert_eq!(names(&a), names(&b));
    let mut reversed = discovered();
    reversed.reverse();
    let c = parser.parse_project(s("/p"), &reversed);
    let mut x = names(&a);
    let mut y = names(&c);
    x.sort();
    y.sort();
    assert_eq!(x, y);
}

#[test]
fn decorated_class_need_not_be_exported() {
    let class = ClassDecl { name: s("Local"), decorators: vec![call("Component", None)], members: vec![] };
    let module = ModuleOutline { items: vec![ModuleItem::Class(class)] };
    let parser = TypeScriptParser::new();
    let c = parser.extract_component(&module, "local.component.ts").unwrap();
    assert_eq!(c.name, "Local");
    let (_, exports) = parser.extract_imports_exports(&module, "local.component.ts");
    assert!(exports.is_empty());
}
