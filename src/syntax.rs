//! The outline of a parsed script module: the parts of its syntax tree that
//! extraction reads. A parser fills it in; extraction never sees the parser.

use vstd::prelude::*;

verus! {

/// The value of a property in a decorator's argument object.
#[derive(Debug, Clone)]
pub enum PropValue {
    /// A string literal.
    Str(String),
    /// An array literal: each element's text when it is a string literal.
    Array(Vec<Option<String>>),
    /// A member access `a.b`: the name `b` when it is an identifier.
    Member(Option<String>),
    /// Anything else.
    Other,
}

/// One entry of a decorator's argument object.
#[derive(Debug, Clone)]
pub struct Property {
    /// The key, for a key-value entry whose key is an identifier.
    pub key: Option<String>,
    pub value: PropValue,
}

/// A decorator.
#[derive(Debug, Clone)]
pub struct Decorator {
    /// The callee, when the decorator is a call of a plain identifier.
    pub name: Option<String>,
    /// The entries of the first argument, when it is an object literal.
    pub object_arg: Option<Vec<Property>>,
}

/// The declared type of a constructor parameter.
#[derive(Debug, Clone)]
pub enum TypeRef {
    /// A reference to a type by a plain identifier.
    Named(String),
    /// Any other type.
    Other,
}

/// One constructor parameter: its declared type, if it has one.
#[derive(Debug, Clone)]
pub struct CtorParam {
    pub declared: Option<TypeRef>,
}

/// A member of a class body.
#[derive(Debug, Clone)]
pub enum ClassMember {
    /// A property: its identifier key, if any, and its decorators.
    Property { key: Option<String>, decorators: Vec<Decorator> },
    /// A method: its identifier key, if any, and its number of parameters.
    Method { key: Option<String>, param_count: usize },
    /// The constructor and its parameters.
    Constructor(Vec<CtorParam>),
    /// Anything else.
    Other,
}

/// A class declaration.
#[derive(Debug, Clone)]
pub struct ClassDecl {
    pub name: String,
    pub decorators: Vec<Decorator>,
    pub members: Vec<ClassMember>,
}

/// A declaration after `export`.
#[derive(Debug, Clone)]
pub enum Declaration {
    Class(ClassDecl),
    Function(String),
    /// A variable declaration: each declarator's name when it is a plain
    /// identifier.
    Variables(Vec<Option<String>>),
    Interface(String),
    TypeAlias(String),
    Enum(String),
    Other,
}

/// One specifier of an import declaration.
#[derive(Debug, Clone)]
pub enum ImportSpec {
    /// `{ imported as local }`: `imported` when it is an identifier.
    Named { imported: Option<String>, local: String },
    /// `local`, the default export.
    Default(String),
    /// `* as local`.
    Namespace(String),
}

/// One specifier of an `export { ... }` declaration.
#[derive(Debug, Clone)]
pub enum ExportSpec {
    /// `orig as exported`: `exported` when it is an identifier; `orig` is the
    /// identifier or the string it names.
    Named { exported: Option<String>, orig: String },
    Other,
}

/// A top-level item of a module.
#[derive(Debug, Clone)]
pub enum ModuleItem {
    Import { source: String, specifiers: Vec<ImportSpec> },
    /// A class declared at the top level without `export`.
    Class(ClassDecl),
    ExportDecl(Declaration),
    /// `export { ... }`, re-exporting when it names a source module.
    ExportNamed { specifiers: Vec<ExportSpec>, from_module: bool },
    /// `export default` of a declaration: the exported name (the class's or
    /// function's identifier, or the interface's), if any.
    ExportDefaultDecl(Option<String>),
    ExportDefaultExpr,
    ExportAll,
    Other,
}

/// A parsed module: its top-level items in order.
#[derive(Debug, Clone)]
pub struct ModuleOutline {
    pub items: Vec<ModuleItem>,
}

} // verus!
