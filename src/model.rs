//! The data model: framework entities of a project, and the import/export
//! graph of its source files.

use vstd::prelude::*;

verus! {

/// How a component's view is checked for changes.
#[derive(Debug, Clone, Copy, PartialEq, Eq, Structural)]
pub enum ChangeDetectionStrategy {
    Default,
    OnPush,
}

/// A property of a component or directive marked as an input binding.
#[derive(Debug, Clone)]
pub struct NgInput {
    pub name: String,
    pub alias: Option<String>,
    pub input_type: String,
}

/// A property of a component or directive marked as an output binding.
#[derive(Debug, Clone)]
pub struct NgOutput {
    pub name: String,
    pub alias: Option<String>,
    pub output_type: String,
}

/// One formal parameter of a method.
#[derive(Debug, Clone)]
pub struct Parameter {
    pub name: String,
    pub param_type: String,
    pub optional: bool,
}

/// A method of a service.
#[derive(Debug, Clone)]
pub struct NgMethod {
    pub name: String,
    pub parameters: Vec<Parameter>,
    pub return_type: Option<String>,
    pub complexity_score: u32,
}

/// A class decorated as a component.
#[derive(Debug, Clone)]
pub struct NgComponent {
    pub name: String,
    pub file_path: String,
    pub selector: Option<String>,
    pub template_url: Option<String>,
    pub template: Option<String>,
    pub style_urls: Vec<String>,
    pub inputs: Vec<NgInput>,
    pub outputs: Vec<NgOutput>,
    pub lifecycle_hooks: Vec<String>,
    pub dependencies: Vec<String>,
    pub change_detection: ChangeDetectionStrategy,
    pub complexity_score: u32,
}

/// A class decorated as injectable.
#[derive(Debug, Clone)]
pub struct NgService {
    pub name: String,
    pub file_path: String,
    pub provided_in: Option<String>,
    pub injectable: bool,
    pub dependencies: Vec<String>,
    pub methods: Vec<NgMethod>,
}

/// A module file of the project.
#[derive(Debug, Clone)]
pub struct NgModule {
    pub name: String,
    pub file_path: String,
    pub imports: Vec<String>,
    pub exports: Vec<String>,
    pub declarations: Vec<String>,
    pub providers: Vec<String>,
    pub bootstrap: Vec<String>,
}

/// A pipe of the project.
#[derive(Debug, Clone)]
pub struct NgPipe {
    pub name: String,
    pub file_path: String,
    pub pure: bool,
}

/// A directive of the project.
#[derive(Debug, Clone)]
pub struct NgDirective {
    pub name: String,
    pub file_path: String,
    pub selector: String,
    pub inputs: Vec<NgInput>,
    pub outputs: Vec<NgOutput>,
}

/// The entities found under one project root, grouped by kind.
#[derive(Debug, Clone)]
pub struct NgProject {
    pub root_path: String,
    pub components: Vec<NgComponent>,
    pub services: Vec<NgService>,
    pub modules: Vec<NgModule>,
    pub pipes: Vec<NgPipe>,
    pub directives: Vec<NgDirective>,
}

impl NgProject {
    /// An empty project rooted at `root_path`.
    pub fn new(root_path: String) -> (r: NgProject)
        ensures
            r.root_path == root_path,
            r.components@.len() == 0,
            r.services@.len() == 0,
            r.modules@.len() == 0,
            r.pipes@.len() == 0,
            r.directives@.len() == 0,
    {
        NgProject {
            root_path,
            components: Vec::new(),
            services: Vec::new(),
            modules: Vec::new(),
            pipes: Vec::new(),
            directives: Vec::new(),
        }
    }
}

/// How serious a finding of a rule check is.
#[derive(Debug, Clone, Copy, PartialEq, Eq, Structural)]
pub enum Severity {
    Error,
    Warning,
    Info,
}

/// A finding of a rule check.
#[derive(Debug, Clone)]
pub struct Issue {
    pub severity: Severity,
    pub rule: String,
    pub message: String,
    pub file_path: String,
    pub line: Option<u32>,
    pub column: Option<u32>,
}

/// How urgent a recommendation is.
#[derive(Debug, Clone, Copy, PartialEq, Eq, Structural)]
pub enum Priority {
    High,
    Medium,
    Low,
}

/// Advice derived from the model as a whole.
#[derive(Debug, Clone)]
pub struct Recommendation {
    pub category: String,
    pub title: String,
    pub description: String,
    pub priority: Priority,
    pub file_path: Option<String>,
}

/// The kind of a source file, from its extension.
#[derive(Debug, Clone, Copy, PartialEq, Eq, Structural)]
pub enum FileType {
    TypeScript,
    JavaScript,
    Declaration,
    Module,
}

/// The form of an import.
#[derive(Debug, Clone, Copy, PartialEq, Eq, Structural)]
pub enum ImportType {
    Default,
    Named,
    Namespace,
    Dynamic,
}

/// The form of an export.
#[derive(Debug, Clone, Copy, PartialEq, Eq, Structural)]
pub enum ExportType {
    Default,
    Named,
    Namespace,
    ReExport,
}

/// One discovered source file: the node of the graph.
#[derive(Debug, Clone)]
pub struct FileInfo {
    pub id: String,
    pub file_path: String,
    pub relative_path: String,
    pub file_type: FileType,
    pub exports: Vec<String>,
    pub imports: Vec<String>,
}

/// A resolved file-to-file relation, with the symbols that justify it.
#[derive(Debug, Clone)]
pub struct Dependency {
    pub from_file: String,
    pub to_file: String,
    pub import_type: ImportType,
    pub imported_symbols: Vec<String>,
    pub line_number: Option<u32>,
}

/// One exported symbol of a file.
#[derive(Debug, Clone)]
pub struct Export {
    pub file_path: String,
    pub symbol_name: String,
    pub export_type: ExportType,
    pub line_number: Option<u32>,
}

/// One imported symbol of a file.
#[derive(Debug, Clone)]
pub struct Import {
    pub file_path: String,
    pub symbol_name: String,
    pub source_module: String,
    pub import_type: ImportType,
    pub line_number: Option<u32>,
}

/// The files of a project, their import/export facts, and the resolved edges.
#[derive(Debug, Clone)]
pub struct ImportExportGraph {
    pub files: Vec<FileInfo>,
    pub dependencies: Vec<Dependency>,
    pub exports: Vec<Export>,
    pub imports: Vec<Import>,
}

/// How serious an import cycle is, from its length.
#[derive(Debug, Clone, Copy, PartialEq, Eq, Structural)]
pub enum CycleSeverity {
    Critical,
    Warning,
    Info,
}

/// A closed sequence of file ids, each importing the next.
#[derive(Debug, Clone)]
pub struct CircularDependency {
    pub cycle: Vec<String>,
    pub severity: CycleSeverity,
}

/// The answers of the graph queries.
#[derive(Debug, Clone)]
pub struct DependencyAnalysis {
    pub circular_dependencies: Vec<CircularDependency>,
    pub orphaned_files: Vec<String>,
    pub dependency_depth: Vec<(String, u32)>,
    pub most_imported_files: Vec<(String, u32)>,
    pub most_dependent_files: Vec<(String, u32)>,
}

} // verus!
