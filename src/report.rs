//! The settings of the report formatters and of template inspection; the
//! rendering itself happens where the reports are written.

use vstd::prelude::*;
use vstd::string::StrSliceExecFns;
use crate::text::{append_str, contains_str, contains_text, decimal, file_name, file_name_of, push_char, push_decimal};
use crate::analysis::views;
use crate::dependency_rules::{join_strings, joined};
use crate::ranking::{is_stable_top, stable_top};
use crate::model::{CycleSeverity, CircularDependency, Dependency, DependencyAnalysis, FileInfo, FileType, ImportExportGraph, ImportType};

verus! {

/// Renders the dependency graph and its analysis.
pub struct GraphFormatter;

/// Whether `c` is alphabetic or numeric, as `char::is_alphanumeric` says.
pub uninterp spec fn is_alphanumeric_char(c: char) -> bool;

/// Relies on `char::is_alphanumeric`: alphabetic or numeric in Unicode's
/// sense.
#[verifier::external_body]
fn alphanumeric(c: char) -> (r: bool)
    ensures
        r == is_alphanumeric_char(c),
{
    c.is_alphanumeric()
}

/// The character kept in a node id: alphanumerics and underscores stay,
/// anything else becomes an underscore.
pub open spec fn node_id_char(c: char) -> char {
    if is_alphanumeric_char(c) || c == '_' {
        c
    } else {
        '_'
    }
}

impl GraphFormatter {
    pub fn new() -> (r: Self) {
        GraphFormatter
    }

    /// The id with every character that a graph description would not take
    /// in a node name replaced by an underscore.
    pub fn sanitize_node_id(&self, id: &str) -> (r: String)
        ensures
            r@ == id@.map_values(|c: char| node_id_char(c)),
    {
        let n = id.unicode_len();
        let mut r = String::new();
        let mut i: usize = 0;
        while i < n
            invariant
                n == id@.len(),
                0 <= i <= n,
                r@ == id@.subrange(0, i as int).map_values(|c: char| node_id_char(c)),
            decreases n - i,
        {
            let c = id.get_char(i);
            let keep = alphanumeric(c) || c == '_';
            push_char(&mut r, if keep { c } else { '_' });
            i += 1;
            assert(r@ =~= id@.subrange(0, i as int).map_values(|c: char| node_id_char(c)));
        }
        assert(id@.subrange(0, n as int) =~= id@);
        r
    }
}

/// Renders analysis results as a web page.
pub struct HtmlFormatter {
    pub include_css: bool,
    pub include_js: bool,
}

impl HtmlFormatter {
    /// A page with its style sheet and script.
    pub fn new() -> (r: Self)
        ensures
            r.include_css && r.include_js,
    {
        HtmlFormatter { include_css: true, include_js: true }
    }

    /// A bare page.
    pub fn new_minimal() -> (r: Self)
        ensures
            !r.include_css && !r.include_js,
    {
        HtmlFormatter { include_css: false, include_js: false }
    }
}

/// Renders analysis results as JSON.
pub struct JsonFormatter {
    pub pretty: bool,
}

impl JsonFormatter {
    /// Indented output.
    pub fn new() -> (r: Self)
        ensures
            r.pretty,
    {
        JsonFormatter { pretty: true }
    }

    /// Output on one line.
    pub fn new_compact() -> (r: Self)
        ensures
            !r.pretty,
    {
        JsonFormatter { pretty: false }
    }
}

/// Renders analysis results as text tables.
pub struct TableFormatter {
    pub show_recommendations: bool,
    pub show_metrics: bool,
}

impl TableFormatter {
    /// Tables of findings, recommendations and metrics.
    pub fn new() -> (r: Self)
        ensures
            r.show_recommendations && r.show_metrics,
    {
        TableFormatter { show_recommendations: true, show_metrics: true }
    }

    /// The table of findings alone.
    pub fn new_minimal() -> (r: Self)
        ensures
            !r.show_recommendations && !r.show_metrics,
    {
        TableFormatter { show_recommendations: false, show_metrics: false }
    }
}

/// Where and how reports are written.
#[derive(Debug, Clone)]
pub struct OutputConfig {
    pub formats: Vec<String>,
    pub path: String,
    pub include_recommendations: bool,
    pub include_metrics: bool,
}

/// Inspects component templates.
pub struct HtmlParser;

/// One node of a parsed template, in document order.
#[derive(Debug, Clone)]
pub enum TemplateNode {
    /// An element: its local name and its attributes as (name, value).
    Element { name: String, attrs: Vec<(String, String)> },
    /// A text node.
    Text(String),
    /// Any other node.
    Other,
}

/// The attribute name is wrapped in `open` and `close`.
pub open spec fn wrapped(name: Seq<char>, open: char, close: char) -> bool {
    name.len() >= 1 && name[0] == open && name[name.len() - 1] == close
}

/// Where an attribute goes: 0 for an event binding, 1 for a property
/// binding, 2 for a structural directive, 3 for none.
pub open spec fn binding_kind(name: Seq<char>) -> int {
    if wrapped(name, '(', ')') {
        0
    } else if wrapped(name, '[', ']') {
        1
    } else if name.len() >= 1 && name[0] == '*' {
        2
    } else {
        3
    }
}

/// The facts a template holds, node by node: element names; bindings as
/// `name=value` by kind; texts with an interpolation.
pub open spec fn template_upto(nodes: Seq<TemplateNode>, n: int) -> (Seq<Seq<char>>, Seq<Seq<char>>, Seq<Seq<char>>, Seq<Seq<char>>, Seq<Seq<char>>)
    decreases n,
{
    if n <= 0 {
        (Seq::empty(), Seq::empty(), Seq::empty(), Seq::empty(), Seq::empty())
    } else {
        let prev = template_upto(nodes, n - 1);
        match nodes[n - 1] {
            TemplateNode::Element { name, attrs } => {
                let b = bindings_upto(attrs@, attrs@.len() as int);
                (prev.0.push(name@), prev.1 + b.0, prev.2 + b.1, prev.3 + b.2, prev.4)
            },
            TemplateNode::Text(t) => if contains_text(t@, "{{"@) && contains_text(t@, "}}"@) {
                (prev.0, prev.1, prev.2, prev.3, prev.4.push(t@))
            } else {
                prev
            },
            TemplateNode::Other => prev,
        }
    }
}

/// The bindings among the first `n` attributes of an element, as
/// `name=value`, by kind.
pub open spec fn bindings_upto(attrs: Seq<(String, String)>, n: int) -> (Seq<Seq<char>>, Seq<Seq<char>>, Seq<Seq<char>>)
    decreases n,
{
    if n <= 0 {
        (Seq::empty(), Seq::empty(), Seq::empty())
    } else {
        let prev = bindings_upto(attrs, n - 1);
        let (k, v) = attrs[n - 1];
        let text = k@ + "="@ + v@;
        let kind = binding_kind(k@);
        if kind == 0 {
            (prev.0.push(text), prev.1, prev.2)
        } else if kind == 1 {
            (prev.0, prev.1.push(text), prev.2)
        } else if kind == 2 {
            (prev.0, prev.1, prev.2.push(text))
        } else {
            prev
        }
    }
}

fn kind_of(name: &str) -> (r: u8)
    ensures
        r as int == binding_kind(name@),
{
    let n = name.unicode_len();
    if n >= 1 && name.get_char(0) == '(' && name.get_char(n - 1) == ')' {
        0
    } else if n >= 1 && name.get_char(0) == '[' && name.get_char(n - 1) == ']' {
        1
    } else if n >= 1 && name.get_char(0) == '*' {
        2
    } else {
        3
    }
}

impl HtmlParser {
    pub fn new() -> (r: Self) {
        HtmlParser
    }

    /// What the nodes of a parsed template hold, in document order.
    pub fn analyze_nodes(&self, nodes: &Vec<TemplateNode>) -> (r: TemplateAnalysis)
        ensures
            ({
                let t = template_upto(nodes@, nodes@.len() as int);
                &&& crate::analysis::views(r.elements@) == t.0
                &&& crate::analysis::views(r.event_bindings@) == t.1
                &&& crate::analysis::views(r.property_bindings@) == t.2
                &&& crate::analysis::views(r.structural_directives@) == t.3
                &&& crate::analysis::views(r.interpolations@) == t.4
            }),
    {
        let mut a = TemplateAnalysis {
            elements: Vec::new(),
            event_bindings: Vec::new(),
            property_bindings: Vec::new(),
            structural_directives: Vec::new(),
            interpolations: Vec::new(),
        };
        let mut i: usize = 0;
        while i < nodes.len()
            invariant
                0 <= i <= nodes@.len(),
                ({
                    let t = template_upto(nodes@, i as int);
                    &&& crate::analysis::views(a.elements@) == t.0
                    &&& crate::analysis::views(a.event_bindings@) == t.1
                    &&& crate::analysis::views(a.property_bindings@) == t.2
                    &&& crate::analysis::views(a.structural_directives@) == t.3
                    &&& crate::analysis::views(a.interpolations@) == t.4
                }),
            decreases nodes@.len() - i,
        {
            match &nodes[i] {
                TemplateNode::Element { name, attrs } => {
                    let ghost e0 = crate::analysis::views(a.elements@);
                    a.elements.push(name.clone());
                    assert(crate::analysis::views(a.elements@) =~= e0.push(name@));
                    let ghost ev0 = crate::analysis::views(a.event_bindings@);
                    let ghost pr0 = crate::analysis::views(a.property_bindings@);
                    let ghost st0 = crate::analysis::views(a.structural_directives@);
                    let mut j: usize = 0;
                    while j < attrs.len()
                        invariant
                            0 <= j <= attrs@.len(),
                            0 <= i < nodes@.len(),
                            nodes@[i as int] == (TemplateNode::Element { name: *name, attrs: *attrs }),
                            crate::analysis::views(a.elements@) == template_upto(nodes@, i as int).0.push(name@),
                            crate::analysis::views(a.interpolations@) == template_upto(nodes@, i as int).4,
                            ev0 == template_upto(nodes@, i as int).1,
                            pr0 == template_upto(nodes@, i as int).2,
                            st0 == template_upto(nodes@, i as int).3,
                            ({
                                let b = bindings_upto(attrs@, j as int);
                                &&& crate::analysis::views(a.event_bindings@) == ev0 + b.0
                                &&& crate::analysis::views(a.property_bindings@) == pr0 + b.1
                                &&& crate::analysis::views(a.structural_directives@) == st0 + b.2
                            }),
                        decreases attrs@.len() - j,
                    {
                        let (k, v) = &attrs[j];
                        let mut text = k.clone();
                        append_str(&mut text, "=");
                        append_str(&mut text, v.as_str());
                        let kind = kind_of(k.as_str());
                        let ghost b0 = bindings_upto(attrs@, j as int);
                        assert(text@ == k@ + "="@ + v@);
                        assert(attrs@[j as int] == (*k, *v));
                        if kind == 0 {
                            let ghost before = crate::analysis::views(a.event_bindings@);
                            let ghost tv = text@;
                            a.event_bindings.push(text);
                            assert(crate::analysis::views(a.event_bindings@) =~= before.push(tv));
                            assert((ev0 + b0.0).push(tv) =~= ev0 + b0.0.push(tv));
                        } else if kind == 1 {
                            let ghost before = crate::analysis::views(a.property_bindings@);
                            let ghost tv = text@;
                            a.property_bindings.push(text);
                            assert(crate::analysis::views(a.property_bindings@) =~= before.push(tv));
                            assert((pr0 + b0.1).push(tv) =~= pr0 + b0.1.push(tv));
                        } else if kind == 2 {
                            let ghost before = crate::analysis::views(a.structural_directives@);
                            let ghost tv = text@;
                            a.structural_directives.push(text);
                            assert(crate::analysis::views(a.structural_directives@) =~= before.push(tv));
                            assert((st0 + b0.2).push(tv) =~= st0 + b0.2.push(tv));
                        }
                        j += 1;
                    }
                    assert(template_upto(nodes@, i as int + 1) == {
                        let prev = template_upto(nodes@, i as int);
                        let b = bindings_upto(attrs@, attrs@.len() as int);
                        (prev.0.push(name@), prev.1 + b.0, prev.2 + b.1, prev.3 + b.2, prev.4)
                    });
                },
                TemplateNode::Text(t) => {
                    if contains_str(t.as_str(), "{{") && contains_str(t.as_str(), "}}") {
                        let ghost i0 = crate::analysis::views(a.interpolations@);
                        a.interpolations.push(t.clone());
                        assert(crate::analysis::views(a.interpolations@) =~= i0.push(t@));
                    }
                },
                TemplateNode::Other => {},
            }
            i += 1;
        }
        a
    }
}

/// What a template holds: its elements, and its event, property and
/// structural bindings and interpolations as written.
#[derive(Debug, Clone)]
pub struct TemplateAnalysis {
    pub elements: Vec<String>,
    pub event_bindings: Vec<String>,
    pub property_bindings: Vec<String>,
    pub structural_directives: Vec<String>,
    pub interpolations: Vec<String>,
}

/// The pieces joined end to end.
pub open spec fn concat_all(parts: Seq<Seq<char>>) -> Seq<char>
    decreases parts.len(),
{
    if parts.len() == 0 {
        Seq::empty()
    } else {
        concat_all(parts.drop_last()) + parts.last()
    }
}

/// `id` as a node name.
pub open spec fn node_name(id: Seq<char>) -> Seq<char> {
    id.map_values(|c: char| node_id_char(c))
}

/// The label of a file: its file name, or its relative path when it has
/// none.
pub open spec fn file_label(f: FileInfo) -> Seq<char> {
    match file_name_of(f.file_path@) {
        Some(n) => n,
        None => f.relative_path@,
    }
}

/// The label of an edge: its symbols joined with `sep`, or their count
/// followed by `unit` when there are more than three.
pub open spec fn edge_label(symbols: Seq<Seq<char>>, sep: Seq<char>, unit: Seq<char>) -> Seq<char> {
    if symbols.len() > 3 {
        decimal(symbols.len()) + unit
    } else {
        joined(symbols, sep)
    }
}

pub open spec fn file_color(t: FileType) -> Seq<char> {
    match t {
        FileType::TypeScript => "lightblue"@,
        FileType::JavaScript => "lightgreen"@,
        FileType::Declaration => "lightyellow"@,
        FileType::Module => "lightgray"@,
    }
}

pub open spec fn file_style(t: FileType) -> Seq<char> {
    match t {
        FileType::TypeScript => "fill:#e1f5fe,stroke:#01579b"@,
        FileType::JavaScript => "fill:#e8f5e8,stroke:#2e7d32"@,
        FileType::Declaration => "fill:#fff3e0,stroke:#e65100"@,
        FileType::Module => "fill:#f5f5f5,stroke:#424242"@,
    }
}

pub open spec fn import_color(t: ImportType) -> Seq<char> {
    match t {
        ImportType::Default => "blue"@,
        ImportType::Named => "green"@,
        ImportType::Namespace => "orange"@,
        ImportType::Dynamic => "red"@,
    }
}

pub open spec fn import_form_name(t: ImportType) -> Seq<char> {
    match t {
        ImportType::Default => "Default"@,
        ImportType::Named => "Named"@,
        ImportType::Namespace => "Namespace"@,
        ImportType::Dynamic => "Dynamic"@,
    }
}

/// The description line of a file node.
pub open spec fn dot_node(f: FileInfo) -> Seq<char> {
    "    "@ + node_name(f.id@) + " [label=\""@ + file_label(f) + "\", fillcolor="@ + file_color(f.file_type)
        + ", tooltip=\""@ + f.relative_path@ + "\"];\n"@
}

/// The description line of a dependency.
pub open spec fn dot_edge(d: Dependency) -> Seq<char> {
    "    "@ + node_name(d.from_file@) + " -> "@ + node_name(d.to_file@) + " [label=\""@ + edge_label(
        views(d.imported_symbols@),
        ", "@,
        "個のシンボル"@,
    ) + "\", color="@ + import_color(d.import_type) + ", tooltip=\"Type: "@ + import_form_name(d.import_type)
        + "\"];\n"@
}

/// The highlighted edges of a cycle, step by step from the start.
pub open spec fn dot_cycle(c: Seq<Seq<char>>) -> Seq<Seq<char>> {
    Seq::new(
        (if c.len() > 0 { c.len() - 1 } else { 0 }) as nat,
        |i: int| "    "@ + node_name(c[i]) + " -> "@ + node_name(c[i + 1]) + " [color=red, style=bold, penwidth=2];\n"@,
    )
}

/// The graph description in the dot language.
pub open spec fn dot_text(g: ImportExportGraph, a: DependencyAnalysis) -> Seq<char> {
    let cycles = a.circular_dependencies@;
    "digraph dependency_graph {\n    rankdir=TB;\n    node [shape=rectangle, style=filled];\n    edge [fontsize=10];\n\n"@
        + concat_all(g.files@.map_values(|f: FileInfo| dot_node(f))) + "\n"@ + concat_all(
        g.dependencies@.map_values(|d: Dependency| dot_edge(d)),
    ) + (if cycles.len() > 0 {
        "\n    // 循環依存\n"@ + concat_all(cycles.map_values(|c: CircularDependency| concat_all(dot_cycle(views(c.cycle@)))))
    } else {
        Seq::empty()
    }) + "}\n"@
}

/// The node lines of a file in a mermaid chart.
pub open spec fn mermaid_node(f: FileInfo) -> Seq<char> {
    "    "@ + node_name(f.id@) + "[\""@ + file_label(f) + "\"]\n"@ + "    style "@ + node_name(f.id@) + " "@
        + file_style(f.file_type) + "\n"@
}

/// The line of a dependency in a mermaid chart.
pub open spec fn mermaid_edge(d: Dependency) -> Seq<char> {
    "    "@ + node_name(d.from_file@) + " -->|"@ + edge_label(views(d.imported_symbols@), ","@, "個"@) + "| "@
        + node_name(d.to_file@) + "\n"@
}

/// The highlighted steps of a cycle in a mermaid chart.
pub open spec fn mermaid_cycle(c: Seq<Seq<char>>) -> Seq<Seq<char>> {
    Seq::new(
        (if c.len() > 0 { c.len() - 1 } else { 0 }) as nat,
        |i: int| "    "@ + node_name(c[i]) + " -.->|循環| "@ + node_name(c[i + 1]) + "\n"@ + "    linkStyle "@
            + decimal(i as nat) + " stroke:#ff0000,stroke-width:3px\n"@,
    )
}

/// The graph as a mermaid chart.
pub open spec fn mermaid_text(g: ImportExportGraph, a: DependencyAnalysis) -> Seq<char> {
    let cycles = a.circular_dependencies@;
    "graph TD\n"@ + concat_all(g.files@.map_values(|f: FileInfo| mermaid_node(f))) + "\n"@ + concat_all(
        g.dependencies@.map_values(|d: Dependency| mermaid_edge(d)),
    ) + (if cycles.len() > 0 {
        "\n    %% 循環依存\n"@ + concat_all(cycles.map_values(|c: CircularDependency| concat_all(mermaid_cycle(views(c.cycle@)))))
    } else {
        Seq::empty()
    })
}

/// Appends the parts end to end.
fn push_all(out: &mut String, parts: &Vec<String>)
    ensures
        final(out)@ == old(out)@ + concat_all(views(parts@)),
{
    let ghost o0 = out@;
    let mut i: usize = 0;
    while i < parts.len()
        invariant
            0 <= i <= parts@.len(),
            out@ == o0 + concat_all(views(parts@).subrange(0, i as int)),
        decreases parts@.len() - i,
    {
        let ghost before = out@;
        append_str(out, parts[i].as_str());
        proof {
            let pre = views(parts@).subrange(0, i as int);
            let nxt = views(parts@).subrange(0, i as int + 1);
            assert(nxt.drop_last() =~= pre);
            assert(out@ =~= o0 + concat_all(nxt));
        }
        i += 1;
    }
    assert(views(parts@).subrange(0, parts@.len() as int) =~= views(parts@));
}

/// The parts end to end.
fn concatenated(parts: &Vec<String>) -> (r: String)
    ensures
        r@ == concat_all(views(parts@)),
{
    let mut r = String::new();
    push_all(&mut r, parts);
    assert(r@ =~= concat_all(views(parts@)));
    r
}

fn file_color_text(t: FileType) -> (r: &'static str)
    ensures
        r@ == file_color(t),
{
    match t {
        FileType::TypeScript => "lightblue",
        FileType::JavaScript => "lightgreen",
        FileType::Declaration => "lightyellow",
        FileType::Module => "lightgray",
    }
}

fn file_style_text(t: FileType) -> (r: &'static str)
    ensures
        r@ == file_style(t),
{
    match t {
        FileType::TypeScript => "fill:#e1f5fe,stroke:#01579b",
        FileType::JavaScript => "fill:#e8f5e8,stroke:#2e7d32",
        FileType::Declaration => "fill:#fff3e0,stroke:#e65100",
        FileType::Module => "fill:#f5f5f5,stroke:#424242",
    }
}

fn import_color_text(t: ImportType) -> (r: &'static str)
    ensures
        r@ == import_color(t),
{
    match t {
        ImportType::Default => "blue",
        ImportType::Named => "green",
        ImportType::Namespace => "orange",
        ImportType::Dynamic => "red",
    }
}

fn import_form_text(t: ImportType) -> (r: &'static str)
    ensures
        r@ == import_form_name(t),
{
    match t {
        ImportType::Default => "Default",
        ImportType::Named => "Named",
        ImportType::Namespace => "Namespace",
        ImportType::Dynamic => "Dynamic",
    }
}

impl GraphFormatter {
    fn label(&self, f: &FileInfo) -> (r: String)
        ensures
            r@ == file_label(*f),
    {
        match file_name(f.file_path.as_str()) {
            Some(n) => n,
            None => f.relative_path.clone(),
        }
    }

    fn edge_text(&self, symbols: &Vec<String>, sep: &str, unit: &str) -> (r: String)
        ensures
            r@ == edge_label(views(symbols@), sep@, unit@),
    {
        if symbols.len() > 3 {
            let mut t = String::new();
            push_decimal(&mut t, symbols.len() as u64);
            append_str(&mut t, unit);
            assert(t@ =~= decimal(symbols@.len()) + unit@);
            t
        } else {
            join_strings(symbols, sep)
        }
    }

    fn dot_node_line(&self, f: &FileInfo) -> (r: String)
        ensures
            r@ == dot_node(*f),
    {
        let mut l = "    ".to_owned();
        append_str(&mut l, self.sanitize_node_id(f.id.as_str()).as_str());
        append_str(&mut l, " [label=\"");
        append_str(&mut l, self.label(f).as_str());
        append_str(&mut l, "\", fillcolor=");
        append_str(&mut l, file_color_text(f.file_type));
        append_str(&mut l, ", tooltip=\"");
        append_str(&mut l, f.relative_path.as_str());
        append_str(&mut l, "\"];\n");
        assert(l@ =~= dot_node(*f));
        l
    }

    fn dot_edge_line(&self, d: &Dependency) -> (r: String)
        ensures
            r@ == dot_edge(*d),
    {
        let mut l = "    ".to_owned();
        append_str(&mut l, self.sanitize_node_id(d.from_file.as_str()).as_str());
        append_str(&mut l, " -> ");
        append_str(&mut l, self.sanitize_node_id(d.to_file.as_str()).as_str());
        append_str(&mut l, " [label=\"");
        append_str(&mut l, self.edge_text(&d.imported_symbols, ", ", "個のシンボル").as_str());
        append_str(&mut l, "\", color=");
        append_str(&mut l, import_color_text(d.import_type));
        append_str(&mut l, ", tooltip=\"Type: ");
        append_str(&mut l, import_form_text(d.import_type));
        append_str(&mut l, "\"];\n");
        assert(l@ =~= dot_edge(*d));
        l
    }

    fn mermaid_node_lines(&self, f: &FileInfo) -> (r: String)
        ensures
            r@ == mermaid_node(*f),
    {
        let id = self.sanitize_node_id(f.id.as_str());
        let mut l = "    ".to_owned();
        append_str(&mut l, id.as_str());
        append_str(&mut l, "[\"");
        append_str(&mut l, self.label(f).as_str());
        append_str(&mut l, "\"]\n");
        append_str(&mut l, "    style ");
        append_str(&mut l, id.as_str());
        append_str(&mut l, " ");
        append_str(&mut l, file_style_text(f.file_type));
        append_str(&mut l, "\n");
        assert(l@ =~= mermaid_node(*f));
        l
    }

    fn mermaid_edge_line(&self, d: &Dependency) -> (r: String)
        ensures
            r@ == mermaid_edge(*d),
    {
        let mut l = "    ".to_owned();
        append_str(&mut l, self.sanitize_node_id(d.from_file.as_str()).as_str());
        append_str(&mut l, " -->|");
        append_str(&mut l, self.edge_text(&d.imported_symbols, ",", "個").as_str());
        append_str(&mut l, "| ");
        append_str(&mut l, self.sanitize_node_id(d.to_file.as_str()).as_str());
        append_str(&mut l, "\n");
        assert(l@ =~= mermaid_edge(*d));
        l
    }

    /// The highlighted steps of a cycle, in the dot language (`mermaid`
    /// false) or as a mermaid chart.
    fn cycle_steps(&self, c: &Vec<String>, mermaid: bool) -> (r: String)
        ensures
            r@ == concat_all(if mermaid { mermaid_cycle(views(c@)) } else { dot_cycle(views(c@)) }),
    {
        let ghost spec_lines = if mermaid { mermaid_cycle(views(c@)) } else { dot_cycle(views(c@)) };
        let mut lines: Vec<String> = Vec::new();
        let steps = if c.len() > 0 { c.len() - 1 } else { 0 };
        let mut i: usize = 0;
        while i < steps
            invariant
                steps == spec_lines.len(),
                steps < c@.len() || steps == 0,
                0 <= i <= steps,
                views(lines@) == spec_lines.subrange(0, i as int),
                spec_lines == if mermaid { mermaid_cycle(views(c@)) } else { dot_cycle(views(c@)) },
            decreases steps - i,
        {
            let a = self.sanitize_node_id(c[i].as_str());
            let b = self.sanitize_node_id(c[i + 1].as_str());
            let mut l = "    ".to_owned();
            append_str(&mut l, a.as_str());
            if mermaid {
                append_str(&mut l, " -.->|循環| ");
                append_str(&mut l, b.as_str());
                append_str(&mut l, "\n");
                append_str(&mut l, "    linkStyle ");
                push_decimal(&mut l, i as u64);
                append_str(&mut l, " stroke:#ff0000,stroke-width:3px\n");
            } else {
                append_str(&mut l, " -> ");
                append_str(&mut l, b.as_str());
                append_str(&mut l, " [color=red, style=bold, penwidth=2];\n");
            }
            assert(l@ =~= spec_lines[i as int]);
            let ghost before = lines@;
            let ghost lv = l@;
            lines.push(l);
            assert(views(lines@) =~= views(before).push(lv));
            assert(spec_lines.subrange(0, i as int + 1) =~= spec_lines.subrange(0, i as int).push(lv));
            i += 1;
        }
        assert(spec_lines.subrange(0, steps as int) =~= spec_lines);
        concatenated(&lines)
    }

    /// The graph and its cycles in the dot language: a node per file,
    /// colored by kind, an edge per dependency, labelled by its symbols,
    /// and the steps of each cycle in bold red.
    pub fn format_dot(&self, graph: &ImportExportGraph, analysis: &DependencyAnalysis) -> (r: String)
        ensures
            r@ == dot_text(*graph, *analysis),
    {
        let mut nodes: Vec<String> = Vec::new();
        let mut i: usize = 0;
        while i < graph.files.len()
            invariant
                0 <= i <= graph.files@.len(),
                views(nodes@) == graph.files@.subrange(0, i as int).map_values(|f: FileInfo| dot_node(f)),
            decreases graph.files@.len() - i,
        {
            let ghost before = nodes@;
            let line = self.dot_node_line(&graph.files[i]);
            let ghost lv = line@;
            nodes.push(line);
            assert(views(nodes@) =~= views(before).push(lv));
            assert(graph.files@.subrange(0, i as int + 1).map_values(|f: FileInfo| dot_node(f)) =~= graph.files@.subrange(0, i as int).map_values(|f: FileInfo| dot_node(f)).push(
                graph.files@.subrange(0, i as int + 1).map_values(|f: FileInfo| dot_node(f))[i as int],
            ));
            i += 1;
        }
        assert(graph.files@.subrange(0, graph.files@.len() as int) =~= graph.files@);
        let mut edges: Vec<String> = Vec::new();
        i = 0;
        while i < graph.dependencies.len()
            invariant
                0 <= i <= graph.dependencies@.len(),
                views(edges@) == graph.dependencies@.subrange(0, i as int).map_values(|d: Dependency| dot_edge(d)),
            decreases graph.dependencies@.len() - i,
        {
            let ghost before = edges@;
            let line = self.dot_edge_line(&graph.dependencies[i]);
            let ghost lv = line@;
            edges.push(line);
            assert(views(edges@) =~= views(before).push(lv));
            assert(graph.dependencies@.subrange(0, i as int + 1).map_values(|d: Dependency| dot_edge(d)) =~= graph.dependencies@.subrange(0, i as int).map_values(|d: Dependency| dot_edge(d)).push(
                graph.dependencies@.subrange(0, i as int + 1).map_values(|d: Dependency| dot_edge(d))[i as int],
            ));
            i += 1;
        }
        assert(graph.dependencies@.subrange(0, graph.dependencies@.len() as int) =~= graph.dependencies@);
        let cycles = &analysis.circular_dependencies;
        let mut steps: Vec<String> = Vec::new();
        i = 0;
        while i < cycles.len()
            invariant
                0 <= i <= cycles@.len(),
                views(steps@) == cycles@.subrange(0, i as int).map_values(
                    |c: CircularDependency| concat_all(dot_cycle(views(c.cycle@))),
                ),
            decreases cycles@.len() - i,
        {
            let ghost before = steps@;
            let line = self.cycle_steps(&cycles[i].cycle, false);
            let ghost lv = line@;
            steps.push(line);
            assert(views(steps@) =~= views(before).push(lv));
            assert(cycles@.subrange(0, i as int + 1).map_values(|c: CircularDependency| concat_all(dot_cycle(views(c.cycle@))))
                =~= cycles@.subrange(0, i as int).map_values(|c: CircularDependency| concat_all(dot_cycle(views(c.cycle@)))).push(lv));
            i += 1;
        }
        assert(cycles@.subrange(0, cycles@.len() as int) =~= cycles@);
        let mut out = "digraph dependency_graph {\n    rankdir=TB;\n    node [shape=rectangle, style=filled];\n    edge [fontsize=10];\n\n".to_owned();
        push_all(&mut out, &nodes);
        append_str(&mut out, "\n");
        push_all(&mut out, &edges);
        let ghost mid = out@;
        if cycles.len() > 0 {
            append_str(&mut out, "\n    // 循環依存\n");
            push_all(&mut out, &steps);
        }
        append_str(&mut out, "}\n");
        assert(out@ =~= dot_text(*graph, *analysis));
        out
    }

    /// The graph and its cycles as a mermaid chart: a node and a style per
    /// file, an edge per dependency, and the steps of each cycle
    /// highlighted.
    pub fn format_mermaid(&self, graph: &ImportExportGraph, analysis: &DependencyAnalysis) -> (r: String)
        ensures
            r@ == mermaid_text(*graph, *analysis),
    {
        let mut nodes: Vec<String> = Vec::new();
        let mut i: usize = 0;
        while i < graph.files.len()
            invariant
                0 <= i <= graph.files@.len(),
                views(nodes@) == graph.files@.subrange(0, i as int).map_values(|f: FileInfo| mermaid_node(f)),
            decreases graph.files@.len() - i,
        {
            let ghost before = nodes@;
            let line = self.mermaid_node_lines(&graph.files[i]);
            let ghost lv = line@;
            nodes.push(line);
            assert(views(nodes@) =~= views(before).push(lv));
            assert(graph.files@.subrange(0, i as int + 1).map_values(|f: FileInfo| mermaid_node(f)) =~= graph.files@.subrange(0, i as int).map_values(|f: FileInfo| mermaid_node(f)).push(
                graph.files@.subrange(0, i as int + 1).map_values(|f: FileInfo| mermaid_node(f))[i as int],
            ));
            i += 1;
        }
        assert(graph.files@.subrange(0, graph.files@.len() as int) =~= graph.files@);
        let mut edges: Vec<String> = Vec::new();
        i = 0;
        while i < graph.dependencies.len()
            invariant
                0 <= i <= graph.dependencies@.len(),
                views(edges@) == graph.dependencies@.subrange(0, i as int).map_values(|d: Dependency| mermaid_edge(d)),
            decreases graph.dependencies@.len() - i,
        {
            let ghost before = edges@;
            let line = self.mermaid_edge_line(&graph.dependencies[i]);
            let ghost lv = line@;
            edges.push(line);
            assert(views(edges@) =~= views(before).push(lv));
            assert(graph.dependencies@.subrange(0, i as int + 1).map_values(|d: Dependency| mermaid_edge(d)) =~= graph.dependencies@.subrange(0, i as int).map_values(|d: Dependency| mermaid_edge(d)).push(
                graph.dependencies@.subrange(0, i as int + 1).map_values(|d: Dependency| mermaid_edge(d))[i as int],
            ));
            i += 1;
        }
        assert(graph.dependencies@.subrange(0, graph.dependencies@.len() as int) =~= graph.dependencies@);
        let cycles = &analysis.circular_dependencies;
        let mut steps: Vec<String> = Vec::new();
        i = 0;
        while i < cycles.len()
            invariant
                0 <= i <= cycles@.len(),
                views(steps@) == cycles@.subrange(0, i as int).map_values(
                    |c: CircularDependency| concat_all(mermaid_cycle(views(c.cycle@))),
                ),
            decreases cycles@.len() - i,
        {
            let ghost before = steps@;
            let line = self.cycle_steps(&cycles[i].cycle, true);
            let ghost lv = line@;
            steps.push(line);
            assert(views(steps@) =~= views(before).push(lv));
            assert(cycles@.subrange(0, i as int + 1).map_values(|c: CircularDependency| concat_all(mermaid_cycle(views(c.cycle@))))
                =~= cycles@.subrange(0, i as int).map_values(|c: CircularDependency| concat_all(mermaid_cycle(views(c.cycle@)))).push(lv));
            i += 1;
        }
        assert(cycles@.subrange(0, cycles@.len() as int) =~= cycles@);
        let mut out = "graph TD\n".to_owned();
        push_all(&mut out, &nodes);
        append_str(&mut out, "\n");
        push_all(&mut out, &edges);
        if cycles.len() > 0 {
            append_str(&mut out, "\n    %% 循環依存\n");
            push_all(&mut out, &steps);
        }
        assert(out@ =~= mermaid_text(*graph, *analysis));
        out
    }
}

pub open spec fn severity_word(s: CycleSeverity) -> Seq<char> {
    match s {
        CycleSeverity::Critical => "Critical"@,
        CycleSeverity::Warning => "Warning"@,
        CycleSeverity::Info => "Info"@,
    }
}

/// A titled section of lines, followed by a blank line; nothing when there
/// are no lines.
pub open spec fn section(title: Seq<char>, lines: Seq<Seq<char>>) -> Seq<char> {
    if lines.len() > 0 {
        title + concat_all(lines) + "\n"@
    } else {
        Seq::empty()
    }
}

pub open spec fn cycle_row(i: int, c: CircularDependency) -> Seq<char> {
    decimal((i + 1) as nat) + ". "@ + joined(views(c.cycle@), " -> "@) + " (重要度: "@ + severity_word(c.severity)
        + ")\n"@
}

pub open spec fn count_row(e: (String, u32), unit: Seq<char>) -> Seq<char> {
    "- "@ + e.0@ + " ("@ + decimal(e.1 as nat) + unit
}

pub open spec fn depth_row(e: (String, u32)) -> Seq<char> {
    "- "@ + e.0@ + " (深さ: "@ + decimal(e.1 as nat) + ")\n"@
}

/// The summary table of the analysis, with the depth section listing the
/// entries at positions `ix` of the depth list.
pub open spec fn table_text(g: ImportExportGraph, a: DependencyAnalysis, ix: Seq<usize>) -> Seq<char> {
    let cycles = a.circular_dependencies@;
    "# 依存関係グラフ分析結果\n\n## サマリー\n- 総ファイル数: "@ + decimal(g.files@.len()) + "\n- 総依存関係数: "@
        + decimal(g.dependencies@.len()) + "\n- 循環依存数: "@ + decimal(cycles.len()) + "\n- 孤立ファイル数: "@
        + decimal(a.orphaned_files@.len()) + "\n\n"@ + section(
        "## 循環依存\n"@,
        Seq::new(cycles.len(), |i: int| cycle_row(i, cycles[i])),
    ) + section(
        "## 最もインポートされているファイル\n"@,
        a.most_imported_files@.map_values(|e: (String, u32)| count_row(e, "回)\n"@)),
    ) + section(
        "## 最も依存関係が多いファイル\n"@,
        a.most_dependent_files@.map_values(|e: (String, u32)| count_row(e, "個の依存関係)\n"@)),
    ) + section("## 孤立ファイル\n"@, a.orphaned_files@.map_values(|p: String| "- "@ + p@ + "\n"@))
        + "## 依存関係の深さ\n"@ + concat_all(ix.map_values(|j: usize| depth_row(a.dependency_depth@[j as int])))
}

fn push_section(out: &mut String, title: &str, lines: &Vec<String>)
    ensures
        final(out)@ == old(out)@ + section(title@, views(lines@)),
{
    let ghost o0 = out@;
    if lines.len() > 0 {
        append_str(out, title);
        push_all(out, lines);
        append_str(out, "\n");
        assert(out@ =~= o0 + section(title@, views(lines@)));
    } else {
        assert(out@ =~= o0 + section(title@, views(lines@)));
    }
}

fn severity_text(s: CycleSeverity) -> (r: &'static str)
    ensures
        r@ == severity_word(s),
{
    match s {
        CycleSeverity::Critical => "Critical",
        CycleSeverity::Warning => "Warning",
        CycleSeverity::Info => "Info",
    }
}

fn count_rows(entries: &Vec<(String, u32)>, unit: &str) -> (r: Vec<String>)
    ensures
        views(r@) == entries@.map_values(|e: (String, u32)| count_row(e, unit@)),
{
    let mut r: Vec<String> = Vec::new();
    let mut i: usize = 0;
    while i < entries.len()
        invariant
            0 <= i <= entries@.len(),
            views(r@) == entries@.subrange(0, i as int).map_values(|e: (String, u32)| count_row(e, unit@)),
        decreases entries@.len() - i,
    {
        let mut l = "- ".to_owned();
        append_str(&mut l, entries[i].0.as_str());
        append_str(&mut l, " (");
        push_decimal(&mut l, entries[i].1 as u64);
        append_str(&mut l, unit);
        assert(l@ =~= count_row(entries@[i as int], unit@));
        let ghost before = r@;
        let ghost lv = l@;
        r.push(l);
        assert(views(r@) =~= views(before).push(lv));
        assert(entries@.subrange(0, i as int + 1).map_values(|e: (String, u32)| count_row(e, unit@))
            =~= entries@.subrange(0, i as int).map_values(|e: (String, u32)| count_row(e, unit@)).push(lv));
        i += 1;
    }
    assert(entries@.subrange(0, entries@.len() as int) =~= entries@);
    r
}

impl GraphFormatter {
    /// The analysis as a summary table: the counts, then the cycles, the
    /// rankings and the orphaned files when there are any, then the ten
    /// deepest files, deepest first, in list order among equals.
    pub fn format_table(&self, graph: &ImportExportGraph, analysis: &DependencyAnalysis) -> (r: String)
        ensures
            exists|ix: Seq<usize>|
                is_stable_top(analysis.dependency_depth@.map_values(|e: (String, u32)| e.1), 10, ix)
                    && r@ == table_text(*graph, *analysis, ix),
    {
        let mut out = "# 依存関係グラフ分析結果\n\n## サマリー\n- 総ファイル数: ".to_owned();
        push_decimal(&mut out, graph.files.len() as u64);
        append_str(&mut out, "\n- 総依存関係数: ");
        push_decimal(&mut out, graph.dependencies.len() as u64);
        append_str(&mut out, "\n- 循環依存数: ");
        push_decimal(&mut out, analysis.circular_dependencies.len() as u64);
        append_str(&mut out, "\n- 孤立ファイル数: ");
        push_decimal(&mut out, analysis.orphaned_files.len() as u64);
        append_str(&mut out, "\n\n");
        let cycles = &analysis.circular_dependencies;
        let mut rows: Vec<String> = Vec::new();
        let mut i: usize = 0;
        while i < cycles.len()
            invariant
                0 <= i <= cycles@.len(),
                views(rows@) == Seq::new(i as nat, |k: int| cycle_row(k, cycles@[k])),
            decreases cycles@.len() - i,
        {
            let mut l = String::new();
            push_decimal(&mut l, i as u64 + 1);
            append_str(&mut l, ". ");
            append_str(&mut l, join_strings(&cycles[i].cycle, " -> ").as_str());
            append_str(&mut l, " (重要度: ");
            append_str(&mut l, severity_text(cycles[i].severity));
            append_str(&mut l, ")\n");
            assert(l@ =~= cycle_row(i as int, cycles@[i as int]));
            let ghost before = rows@;
            let ghost lv = l@;
            rows.push(l);
            assert(views(rows@) =~= views(before).push(lv));
            i += 1;
            assert(views(rows@) =~= Seq::new(i as nat, |k: int| cycle_row(k, cycles@[k])));
        }
        push_section(&mut out, "## 循環依存\n", &rows);
        push_section(&mut out, "## 最もインポートされているファイル\n", &count_rows(&analysis.most_imported_files, "回)\n"));
        push_section(&mut out, "## 最も依存関係が多いファイル\n", &count_rows(&analysis.most_dependent_files, "個の依存関係)\n"));
        let orphans = &analysis.orphaned_files;
        let mut orows: Vec<String> = Vec::new();
        i = 0;
        while i < orphans.len()
            invariant
                0 <= i <= orphans@.len(),
                views(orows@) == orphans@.subrange(0, i as int).map_values(|p: String| "- "@ + p@ + "\n"@),
            decreases orphans@.len() - i,
        {
            let mut l = "- ".to_owned();
            append_str(&mut l, orphans[i].as_str());
            append_str(&mut l, "\n");
            let ghost before = orows@;
            let ghost lv = l@;
            orows.push(l);
            assert(views(orows@) =~= views(before).push(lv));
            assert(orphans@.subrange(0, i as int + 1).map_values(|p: String| "- "@ + p@ + "\n"@)
                =~= orphans@.subrange(0, i as int).map_values(|p: String| "- "@ + p@ + "\n"@).push(lv));
            i += 1;
        }
        assert(orphans@.subrange(0, orphans@.len() as int) =~= orphans@);
        push_section(&mut out, "## 孤立ファイル\n", &orows);
        append_str(&mut out, "## 依存関係の深さ\n");
        let depths = &analysis.dependency_depth;
        let mut counts: Vec<u32> = Vec::new();
        i = 0;
        while i < depths.len()
            invariant
                0 <= i <= depths@.len(),
                counts@ == depths@.subrange(0, i as int).map_values(|e: (String, u32)| e.1),
            decreases depths@.len() - i,
        {
            counts.push(depths[i].1);
            i += 1;
            assert(counts@ =~= depths@.subrange(0, i as int).map_values(|e: (String, u32)| e.1));
        }
        assert(depths@.subrange(0, depths@.len() as int) =~= depths@);
        let ix = stable_top(&counts, 10);
        let mut drows: Vec<String> = Vec::new();
        i = 0;
        while i < ix.len()
            invariant
                0 <= i <= ix@.len(),
                forall|a: int| 0 <= a < ix@.len() ==> (#[trigger] ix@[a]) < depths@.len(),
                views(drows@) == ix@.subrange(0, i as int).map_values(|j: usize| depth_row(depths@[j as int])),
            decreases ix@.len() - i,
        {
            let e = &depths[ix[i]];
            let mut l = "- ".to_owned();
            append_str(&mut l, e.0.as_str());
            append_str(&mut l, " (深さ: ");
            push_decimal(&mut l, e.1 as u64);
            append_str(&mut l, ")\n");
            assert(l@ =~= depth_row(depths@[ix@[i as int] as int]));
            let ghost before = drows@;
            let ghost lv = l@;
            drows.push(l);
            assert(views(drows@) =~= views(before).push(lv));
            assert(ix@.subrange(0, i as int + 1).map_values(|j: usize| depth_row(depths@[j as int]))
                =~= ix@.subrange(0, i as int).map_values(|j: usize| depth_row(depths@[j as int])).push(lv));
            i += 1;
        }
        assert(ix@.subrange(0, ix@.len() as int) =~= ix@);
        push_all(&mut out, &drows);
        assert(out@ =~= table_text(*graph, *analysis, ix@));
        out
    }
}

} // verus!
