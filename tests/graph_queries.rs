use ng_analyzer::graph::{build_dependencies, add_file, DependencyGraphAnalyzer};
use ng_analyzer::model::{CycleSeverity, Export, ExportType, FileType, Import, ImportExportGraph, ImportType};
use ng_analyzer::project::SourceFile;
use ng_analyzer::report::GraphFormatter;
use ng_analyzer::syntax::{ImportSpec, ModuleItem, ModuleOutline};

fn import(file: &str, symbol: &str, module: &str) -> Import {
    Import {
        file_path: file.to_string(),
        symbol_name: symbol.to_string(),
        source_module: module.to_string(),
        import_type: ImportType::Named,
        line_number: None,
    }
}

fn export(file: &str, symbol: &str) -> Export {
    Export {
        file_path: file.to_string(),
        symbol_name: symbol.to_string(),
        export_type: ExportType::Named,
        line_number: None,
    }
}

/// Builds a graph from files given as (path, imports, exports).
fn graph_of(files: Vec<(&str, Vec<Import>, Vec<Export>)>) -> ImportExportGraph {
    let mut g = ImportExportGraph::new();
    for (path, imports, exports) in files {
        add_file(&mut g, path.to_string(), path.to_string(), imports, exports);
    }
    build_dependencies(&mut g);
    g
}

#[test]
fn ids_follow_positions() {
    let g = graph_of(vec![("/p/a.ts", vec![], vec![]), ("/p/b.ts", vec![], vec![])]);
    assert_eq!(g.files[0].id, "file_0");
    assert_eq!(g.files[1].id, "file_1");
}

#[test]
fn three_file_cycle_is_one_warning() {
    let g = graph_of(vec![
        ("/p/a.ts", vec![import("/p/a.ts", "B", "./b")], vec![export("/p/a.ts", "A")]),
        ("/p/b.ts", vec![import("/p/b.ts", "C", "./c")], vec![export("/p/b.ts", "B")]),
        ("/p/c.ts", vec![import("/p/c.ts", "A", "./a")], vec![export("/p/c.ts", "C")]),
    ]);
    let analysis = DependencyGraphAnalyzer::new().analyze_dependencies(&g);
    assert_eq!(analysis.circular_dependencies.len(), 1);
    let c = &analysis.circular_dependencies[0];
    assert_eq!(c.cycle, vec!["file_0", "file_1", "file_2", "file_0"]);
    assert_eq!(c.severity, CycleSeverity::Warning);
}

#[test]
fn layered_graph_has_no_cycle() {
    let g = graph_of(vec![
        ("/p/a.ts", vec![import("/p/a.ts", "B", "./b")], vec![]),
        ("/p/b.ts", vec![import("/p/b.ts", "C", "./c")], vec![]),
        ("/p/c.ts", vec![], vec![]),
    ]);
    let analysis = DependencyGraphAnalyzer::new().analyze_dependencies(&g);
    assert!(analysis.circular_dependencies.is_empty());
}

#[test]
fn orphan_is_neither_imported_nor_exporting() {
    let g = graph_of(vec![
        ("/p/lonely.ts", vec![], vec![]),
        ("/p/entry.ts", vec![], vec![export("/p/entry.ts", "Main")]),
    ]);
    let analysis = DependencyGraphAnalyzer::new().analyze_dependencies(&g);
    assert_eq!(analysis.orphaned_files, vec!["/p/lonely.ts".to_string()]);
}

#[test]
fn imported_file_is_not_orphaned() {
    let g = graph_of(vec![
        ("/p/a.ts", vec![import("/p/a.ts", "B", "./b")], vec![export("/p/a.ts", "A")]),
        ("/p/b.ts", vec![], vec![]),
    ]);
    let analysis = DependencyGraphAnalyzer::new().analyze_dependencies(&g);
    assert!(analysis.orphaned_files.is_empty());
}

#[test]
fn two_imports_from_one_module_merge_into_one_edge() {
    let g = graph_of(vec![
        (
            "/p/a.ts",
            vec![import("/p/a.ts", "X", "./b"), import("/p/a.ts", "Y", "./b")],
            vec![],
        ),
        ("/p/b.ts", vec![], vec![]),
    ]);
    assert_eq!(g.dependencies.len(), 1);
    let d = &g.dependencies[0];
    assert_eq!(d.from_file, "file_0");
    assert_eq!(d.to_file, "file_1");
    assert_eq!(d.imported_symbols, vec!["X".to_string(), "Y".to_string()]);
}

#[test]
fn repeated_symbol_is_kept_once() {
    let g = graph_of(vec![
        (
            "/p/a.ts",
            vec![import("/p/a.ts", "X", "./b"), import("/p/a.ts", "X", "./b")],
            vec![],
        ),
        ("/p/b.ts", vec![], vec![]),
    ]);
    assert_eq!(g.dependencies.len(), 1);
    assert_eq!(g.dependencies[0].imported_symbols, vec!["X".to_string()]);
}

#[test]
fn external_imports_give_no_edges() {
    let g = graph_of(vec![
        ("/p/a.ts", vec![import("/p/a.ts", "Component", "@angular/core")], vec![]),
        ("/p/core.ts", vec![], vec![]),
    ]);
    assert_eq!(g.imports.len(), 1);
    assert!(g.dependencies.is_empty());
}

#[test]
fn unmatched_relative_import_gives_no_edge() {
    let g = graph_of(vec![("/p/a.ts", vec![import("/p/a.ts", "S", "./styles")], vec![])]);
    assert!(g.dependencies.is_empty());
}

#[test]
fn backslash_paths_resolve() {
    let g = graph_of(vec![
        ("C:\\p\\a.ts", vec![import("C:/p/a.ts", "B", "./b")], vec![]),
        ("/p/b.ts", vec![], vec![]),
    ]);
    assert_eq!(g.dependencies.len(), 1);
}

#[test]
fn chain_depths_count_files() {
    let g = graph_of(vec![
        ("/p/a.ts", vec![import("/p/a.ts", "B", "./b")], vec![]),
        ("/p/b.ts", vec![import("/p/b.ts", "C", "./c")], vec![]),
        ("/p/c.ts", vec![], vec![]),
    ]);
    let analysis = DependencyGraphAnalyzer::new().analyze_dependencies(&g);
    assert_eq!(
        analysis.dependency_depth,
        vec![
            ("/p/a.ts".to_string(), 3),
            ("/p/b.ts".to_string(), 2),
            ("/p/c.ts".to_string(), 1),
        ]
    );
}

#[test]
fn depth_stops_at_files_on_the_path() {
    let g = graph_of(vec![
        ("/p/a.ts", vec![import("/p/a.ts", "B", "./b")], vec![]),
        ("/p/b.ts", vec![import("/p/b.ts", "A", "./a")], vec![]),
    ]);
    let analysis = DependencyGraphAnalyzer::new().analyze_dependencies(&g);
    assert_eq!(analysis.dependency_depth[0].1, 2);
    assert_eq!(analysis.circular_dependencies.len(), 1);
    assert_eq!(analysis.circular_dependencies[0].severity, CycleSeverity::Critical);
}

#[test]
fn self_import_is_a_critical_cycle() {
    let g = graph_of(vec![("/p/a.ts", vec![import("/p/a.ts", "A", "./a")], vec![])]);
    let analysis = DependencyGraphAnalyzer::new().analyze_dependencies(&g);
    assert_eq!(analysis.circular_dependencies.len(), 1);
    assert_eq!(analysis.circular_dependencies[0].cycle, vec!["file_0", "file_0"]);
    assert_eq!(analysis.circular_dependencies[0].severity, CycleSeverity::Critical);
}

#[test]
fn five_file_cycle_is_informational() {
    let names = ["a", "b", "c", "d", "e"];
    let mut files = Vec::new();
    for i in 0..5 {
        let path = format!("/p/{}.ts", names[i]);
        let next = format!("./{}", names[(i + 1) % 5]);
        files.push((path.clone(), vec![import(&path, "X", &next)]));
    }
    let mut g = ImportExportGraph::new();
    for (path, imports) in files {
        add_file(&mut g, path.clone(), path, imports, vec![]);
    }
    build_dependencies(&mut g);
    let analysis = DependencyGraphAnalyzer::new().analyze_dependencies(&g);
    assert_eq!(analysis.circular_dependencies.len(), 1);
    assert_eq!(analysis.circular_dependencies[0].severity, CycleSeverity::Info);
}

#[test]
fn more_imported_file_ranks_higher() {
    let mut files = vec![
        ("/p/five.ts", vec![], vec![]),
        ("/p/three.ts", vec![], vec![]),
    ];
    let importers = ["/p/u1.ts", "/p/u2.ts", "/p/u3.ts", "/p/u4.ts", "/p/u5.ts"];
    for (k, u) in importers.iter().enumerate() {
        let mut imports = vec![import(u, "Five", "./five")];
        if k < 3 {
            imports.push(import(u, "Three", "./three"));
        }
        files.push((u, imports, vec![]));
    }
    let g = graph_of(files);
    let analysis = DependencyGraphAnalyzer::new().analyze_dependencies(&g);
    assert_eq!(
        analysis.most_imported_files,
        vec![("/p/five.ts".to_string(), 5), ("/p/three.ts".to_string(), 3)]
    );
    assert_eq!(analysis.most_dependent_files[0], ("/p/u1.ts".to_string(), 2));
    assert_eq!(analysis.most_dependent_files.len(), 5);
}

#[test]
fn rankings_keep_ten_entries() {
    let mut files = vec![("/p/hub.ts", vec![], vec![])];
    let names: Vec<String> = (0..12).map(|i| format!("/p/m{}.ts", i)).collect();
    for n in &names {
        files.push((n.as_str(), vec![import(n, "Hub", "./hub")], vec![]));
    }
    let g = graph_of(files);
    let analysis = DependencyGraphAnalyzer::new().analyze_dependencies(&g);
    assert_eq!(analysis.most_imported_files, vec![("/p/hub.ts".to_string(), 12)]);
    assert_eq!(analysis.most_dependent_files.len(), 10);
}

#[test]
fn file_kinds_follow_extensions() {
    let g = graph_of(vec![
        ("/p/a.ts", vec![], vec![]),
        ("/p/b.js", vec![], vec![]),
        ("/p/c.tsx", vec![], vec![]),
        ("/p/d.d.ts", vec![], vec![]),
    ]);
    assert_eq!(g.files[0].file_type, FileType::TypeScript);
    assert_eq!(g.files[1].file_type, FileType::JavaScript);
    assert_eq!(g.files[2].file_type, FileType::Module);
    assert_eq!(g.files[3].file_type, FileType::Declaration);
}

#[test]
fn project_graph_takes_parsed_scripts_only() {
    let importing = ModuleOutline {
        items: vec![ModuleItem::Import {
            source: "./b".to_string(),
            specifiers: vec![ImportSpec::Named { imported: None, local: "B".to_string() }],
        }],
    };
    let sources = vec![
        SourceFile { path: "/p/src/a.ts".to_string(), module: Some(importing) },
        SourceFile { path: "/p/src/broken.ts".to_string(), module: None },
        SourceFile { path: "/p/src/style.css".to_string(), module: Some(ModuleOutline { items: vec![] }) },
        SourceFile { path: "/p/src/b.ts".to_string(), module: Some(ModuleOutline { items: vec![] }) },
    ];
    let g = DependencyGraphAnalyzer::new().analyze_project("/p", &sources);
    assert_eq!(g.files.len(), 2);
    assert_eq!(g.files[0].relative_path, "src/a.ts");
    assert_eq!(g.files[1].id, "file_1");
    assert_eq!(g.files[0].imports, vec!["B".to_string()]);
    assert_eq!(g.dependencies.len(), 1);
    assert_eq!(g.dependencies[0].to_file, "file_1");
}

#[test]
fn merged_edge_takes_the_first_import_form() {
    let mut second = import("/p/a.ts", "Y", "./b");
    second.import_type = ImportType::Default;
    second.line_number = Some(9);
    let g = graph_of(vec![
        ("/p/a.ts", vec![import("/p/a.ts", "X", "./b"), second], vec![]),
        ("/p/b.ts", vec![], vec![]),
    ]);
    assert_eq!(g.dependencies[0].import_type, ImportType::Named);
    assert_eq!(g.dependencies[0].line_number, None);
}

#[test]
fn later_root_meets_its_own_cycle_only() {
    let g = graph_of(vec![
        ("/p/a.ts", vec![import("/p/a.ts", "B", "./b")], vec![]),
        ("/p/b.ts", vec![import("/p/b.ts", "A", "./a")], vec![]),
        ("/p/c.ts", vec![], vec![]),
        ("/p/d.ts", vec![import("/p/d.ts", "B", "./b")], vec![]),
    ]);
    let analysis = DependencyGraphAnalyzer::new().analyze_dependencies(&g);
    assert_eq!(analysis.circular_dependencies.len(), 1);
    assert_eq!(analysis.circular_dependencies[0].cycle, vec!["file_0", "file_1", "file_0"]);
}

#[test]
fn dot_and_mermaid_describe_the_graph() {

    let g = graph_of(vec![
        ("/p/a.ts", vec![import("/p/a.ts", "B", "./b")], vec![]),
        ("/p/b.ts", vec![import("/p/b.ts", "A", "./a")], vec![]),
    ]);
    let analysis = DependencyGraphAnalyzer::new().analyze_dependencies(&g);
    let f = GraphFormatter::new();
    let dot = f.format_dot(&g, &analysis);
    assert!(dot.starts_with("digraph dependency_graph {\n"));
    assert!(dot.contains("    file_0 [label=\"a.ts\", fillcolor=lightblue, tooltip=\"/p/a.ts\"];\n"));
    assert!(dot.contains("    file_0 -> file_1 [label=\"B\", color=green, tooltip=\"Type: Named\"];\n"));
    assert!(dot.contains("    file_1 -> file_0 [color=red, style=bold, penwidth=2];\n"));
    assert!(dot.ends_with("}\n"));
    let mermaid = f.format_mermaid(&g, &analysis);
    assert!(mermaid.starts_with("graph TD\n    file_0[\"a.ts\"]\n    style file_0 fill:#e1f5fe,stroke:#01579b\n"));
    assert!(mermaid.contains("    file_0 -->|B| file_1\n"));
    assert!(mermaid.contains("    file_1 -.->|循環| file_0\n    linkStyle 1 stroke:#ff0000,stroke-width:3px\n"));
    assert!(mermaid.contains("\n    %% 循環依存\n"));
    assert!(dot.contains("\n    // 循環依存\n"));
}

#[test]
fn summary_table_lists_deepest_first() {
    let g = graph_of(vec![
        ("/p/a.ts", vec![import("/p/a.ts", "B", "./b")], vec![export("/p/a.ts", "A")]),
        ("/p/b.ts", vec![], vec![]),
    ]);
    let analysis = DependencyGraphAnalyzer::new().analyze_dependencies(&g);
    let t = GraphFormatter::new().format_table(&g, &analysis);
    assert!(t.starts_with("# 依存関係グラフ分析結果\n\n## サマリー\n- 総ファイル数: 2\n- 総依存関係数: 1\n- 循環依存数: 0\n- 孤立ファイル数: 0\n\n"));
    assert!(t.contains("## 最もインポートされているファイル\n- /p/b.ts (1回)\n\n"));
    assert!(t.contains("## 最も依存関係が多いファイル\n- /p/a.ts (1個の依存関係)\n\n"));
    assert!(t.ends_with("## 依存関係の深さ\n- /p/a.ts (深さ: 2)\n- /p/b.ts (深さ: 1)\n"));
    assert!(!t.contains("## 循環依存"));
}

#[test]
fn many_symbols_are_counted_in_labels() {
    let imports: Vec<Import> = ["P", "Q", "R", "S"].iter().map(|x| import("/p/a.ts", x, "./b")).collect();
    let g = graph_of(vec![("/p/a.ts", imports, vec![]), ("/p/b.ts", vec![], vec![])]);
    let analysis = DependencyGraphAnalyzer::new().analyze_dependencies(&g);
    let f = GraphFormatter::new();
    assert!(f.format_mermaid(&g, &analysis).contains("    file_0 -->|4個| file_1\n"));
    assert!(f.format_dot(&g, &analysis).contains("[label=\"4個のシンボル\", color=green"));
}

#[test]
fn cycle_rows_show_severity() {
    let g = graph_of(vec![("/p/a.ts", vec![import("/p/a.ts", "A", "./a")], vec![])]);
    let analysis = DependencyGraphAnalyzer::new().analyze_dependencies(&g);
    let t = GraphFormatter::new().format_table(&g, &analysis);
    assert!(t.contains("## 循環依存\n1. file_0 -> file_0 (重要度: Critical)\n\n"));
}

#[test]
fn equal_counts_rank_in_file_order() {
    let g = graph_of(vec![
        ("/p/x.ts", vec![], vec![]),
        ("/p/y.ts", vec![], vec![]),
        ("/p/u.ts", vec![import("/p/u.ts", "Y", "./y"), import("/p/u.ts", "X", "./x")], vec![]),
    ]);
    let analysis = DependencyGraphAnalyzer::new().analyze_dependencies(&g);
    assert_eq!(
        analysis.most_imported_files,
        vec![("/p/x.ts".to_string(), 1), ("/p/y.ts".to_string(), 1)]
    );
}
