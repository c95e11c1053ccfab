use ng_analyzer::args::{parse_severity, AnalysisConfig, OutputFormat};
use ng_analyzer::component_rules::ComponentAnalyzer;
use ng_analyzer::dependency_rules::DependencyAnalyzer;
use ng_analyzer::model::{
    ChangeDetectionStrategy, NgComponent, NgInput, NgProject, NgService, Priority, Severity,
};
use ng_analyzer::performance_rules::PerformanceAnalyzer;
use ng_analyzer::report::{GraphFormatter, HtmlParser, TemplateNode};
use ng_analyzer::rules::{get_all_rule_definitions, get_available_categories, get_rule_definition, get_rules_by_category};
use ng_analyzer::search::{SearchConfig, SearchEngine};
use ng_analyzer::simple_search::{SearchResult, SimpleSearchEngine};
use ng_analyzer::state_rules::StateAnalyzer;

fn component(name: &str, score: u32) -> NgComponent {
    NgComponent {
        name: name.to_string(),
        file_path: format!("{}.component.ts", name.to_lowercase()),
        selector: Some("app-x".to_string()),
        template_url: Some("x.html".to_string()),
        template: None,
        style_urls: vec![],
        inputs: vec![],
        outputs: vec![],
        lifecycle_hooks: vec![],
        dependencies: vec![],
        change_detection: ChangeDetectionStrategy::Default,
        complexity_score: score,
    }
}

fn service(name: &str, deps: &[&str]) -> NgService {
    NgService {
        name: name.to_string(),
        file_path: format!("{}.service.ts", name.to_lowercase()),
        provided_in: Some("root".to_string()),
        injectable: true,
        dependencies: deps.iter().map(|d| d.to_string()).collect(),
        methods: vec![],
    }
}

fn project(components: Vec<NgComponent>, services: Vec<NgService>) -> NgProject {
    let mut p = NgProject::new(".".to_string());
    p.components = components;
    p.services = services;
    p
}

#[test]
fn test_component_analysis() {
    let analyzer = ComponentAnalyzer::new();
    let mut c = component("TestComponent", 5);
    c.file_path = "test.component.ts".to_string();
    c.selector = Some("app-test".to_string());
    c.template_url = Some("test.component.html".to_string());
    c.style_urls = vec!["test.component.css".to_string()];
    c.lifecycle_hooks = vec!["ngOnInit".to_string()];
    let p = project(vec![c], vec![]);
    let issues = analyzer.analyze_components(&p);
    assert_eq!(issues.len(), 1);
    assert_eq!(issues[0].rule, "change-detection-strategy");
    assert_eq!(analyzer.calculate_metrics(&p).total_components, 1);
    assert_eq!(analyzer.calculate_metrics(&p).complexity_total, 5);
    assert_eq!(analyzer.calculate_metrics(&p).onpush_components, 0);
}

#[test]
fn test_complexity_check() {
    let analyzer = ComponentAnalyzer::new();
    let mut c = component("ComplexComponent", 15);
    c.file_path = "complex.component.ts".to_string();
    c.selector = Some("app-complex".to_string());
    c.template_url = Some("complex.component.html".to_string());
    let issues = analyzer.analyze_component(&c);
    let complexity_issues: Vec<_> = issues.iter().filter(|issue| issue.rule.contains("complexity")).collect();
    assert!(!complexity_issues.is_empty());
}

#[test]
fn complexity_messages_name_the_numbers() {
    let analyzer = ComponentAnalyzer::new();
    let issues = analyzer.analyze_component(&component("Big", 21));
    assert_eq!(issues[0].rule, "component-complexity");
    assert_eq!(
        issues[0].message,
        "Component complexity (21) exceeds threshold (10). Consider breaking down into smaller components."
    );
    assert_eq!(issues[1].rule, "component-complexity-critical");
    assert_eq!(issues[1].severity, Severity::Error);
}

#[test]
fn template_conflicts_are_errors() {
    let analyzer = ComponentAnalyzer::new();
    let mut both = component("Both", 1);
    both.template = Some("x".repeat(501));
    let rules: Vec<String> = analyzer.analyze_component(&both).into_iter().map(|i| i.rule).collect();
    assert!(rules.contains(&"template-conflict".to_string()));
    assert!(rules.contains(&"inline-template-too-large".to_string()));
    let mut neither = component("Neither", 1);
    neither.template_url = None;
    let rules: Vec<String> = analyzer.analyze_component(&neither).into_iter().map(|i| i.rule).collect();
    assert!(rules.contains(&"missing-template".to_string()));
}

#[test]
fn too_many_inputs_is_reported() {
    let analyzer = ComponentAnalyzer::with_config(10, 5, 1, 1);
    let mut c = component("Wide", 1);
    c.change_detection = ChangeDetectionStrategy::OnPush;
    c.inputs = (0..2)
        .map(|i| NgInput { name: format!("i{}", i), alias: None, input_type: "any".to_string() })
        .collect();
    let issues = analyzer.analyze_component(&c);
    assert_eq!(issues.len(), 1);
    assert_eq!(issues[0].message, "Component has 2 inputs, which exceeds the recommended maximum of 1");
}

#[test]
fn component_advice_counts_components() {
    let analyzer = ComponentAnalyzer::new();
    let p = project(vec![component("A", 11), component("B", 1)], vec![]);
    let recs = analyzer.generate_recommendations(&p);
    assert_eq!(recs.len(), 2);
    assert_eq!(
        recs[0].description,
        "Consider implementing OnPush change detection strategy for 2 components to improve performance"
    );
    assert_eq!(recs[1].priority, Priority::High);
}

#[test]
fn service_cycle_is_reported() {
    let p = project(vec![], vec![service("ServiceA", &["ServiceB"]), service("ServiceB", &["ServiceA"])]);
    let issues = DependencyAnalyzer::new().analyze_circular_dependencies(&p);
    assert_eq!(issues.len(), 1);
    assert_eq!(issues[0].message, "Circular dependency detected: ServiceA -> ServiceB -> ServiceA");
    assert_eq!(issues[0].file_path, ".");
}

#[test]
fn acyclic_services_give_no_cycle_finding() {
    let p = project(vec![], vec![service("ServiceA", &["ServiceB"]), service("ServiceB", &[])]);
    assert!(DependencyAnalyzer::new().analyze_circular_dependencies(&p).is_empty());
}

#[test]
fn unprovided_component_dependency_is_unused() {
    let mut c = component("Shell", 1);
    c.dependencies = vec!["Router".to_string(), "DataService".to_string(), "Router".to_string()];
    let p = project(vec![c], vec![service("DataService", &[])]);
    let issues = DependencyAnalyzer::new().analyze_unused_dependencies(&p);
    assert_eq!(issues.len(), 1);
    assert_eq!(issues[0].message, "Dependency 'Router' appears to be unused");
}

#[test]
fn deep_chain_is_reported() {
    let mut c = component("Top", 1);
    c.dependencies = vec!["S1".to_string()];
    let services = vec![
        service("S1", &["S2"]),
        service("S2", &["S3"]),
        service("S3", &["S4"]),
        service("S4", &["S5"]),
        service("S5", &[]),
    ];
    let p = project(vec![c], services);
    let issues = DependencyAnalyzer::new().analyze_dependency_depth(&p);
    assert_eq!(issues.len(), 1);
    assert_eq!(
        issues[0].message,
        "Component 'Top' has dependency depth of 6, which exceeds recommended maximum of 5"
    );
}

#[test]
fn two_services_get_dependency_advice() {
    let p = project(vec![], vec![service("A", &[]), service("B", &[])]);
    let recs = DependencyAnalyzer::new().generate_dependency_recommendations(&p);
    assert!(recs.is_empty());
    let p = project(
        vec![component("A", 1), component("B", 1), component("C", 1), component("D", 1)],
        vec![],
    );
    let recs = DependencyAnalyzer::new().generate_dependency_recommendations(&p);
    assert_eq!(recs.len(), 1);
    assert_eq!(recs[0].title, "Consider Adding Services");
    let p = project(vec![], vec![service("A", &["a", "b", "c", "d", "e", "f"])]);
    let recs = DependencyAnalyzer::new().generate_dependency_recommendations(&p);
    assert_eq!(
        recs[0].description,
        "Average dependency count is 6.0. Consider reducing coupling between components and services."
    );
}

#[test]
fn default_detection_gets_onpush_advice() {
    let mut c = component("Heavy", 1);
    c.template_url = None;
    c.template = Some("<div *ngFor=\"let item of items\">{{ item }}</div>".to_string());
    let p = project(vec![c], vec![]);
    let recs = PerformanceAnalyzer::new().generate_performance_recommendations(&p);
    assert!(recs.is_empty());
    let mut c = component("Heavy", 6);
    c.dependencies = vec!["HttpClient".to_string()];
    let p = project(vec![c], vec![]);
    let recs = PerformanceAnalyzer::new().generate_performance_recommendations(&p);
    assert!(recs.iter().any(|r| r.title.contains("OnPush")));
    assert!(recs.iter().any(|r| r.title == "Prevent Memory Leaks"));
}

#[test]
fn performance_checks_report_leaks_and_defaults() {
    let mut cs: Vec<NgComponent> = (0..6).map(|i| component(&format!("C{}", i), 1)).collect();
    cs[0].dependencies = vec!["UserService".to_string()];
    cs[0].style_urls = vec!["a".into(), "b".into(), "c".into(), "d".into()];
    let p = project(cs, vec![]);
    let issues = PerformanceAnalyzer::new().analyze_issues(&p);
    assert_eq!(issues[0].rule, "high-default-change-detection");
    assert_eq!(
        issues[0].message,
        "100.0% of components use default change detection. Consider OnPush for better performance."
    );
    assert_eq!(issues[1].rule, "too-many-stylesheets");
    assert_eq!(issues[1].message, "Component 'C0' has 4 stylesheets. Consider consolidating styles.");
    assert_eq!(issues[2].rule, "potential-memory-leak");
    assert_eq!(issues.len(), 3);
}

#[test]
fn state_service_gets_advice() {
    let mut svc = service("StateService", &[]);
    svc.methods = vec![];
    let p = project(vec![component("Shell", 1)], vec![svc]);
    let analyzer = StateAnalyzer::new();
    assert_eq!(analyzer.identify_state_services(&p), vec![0]);
    assert!(!analyzer.has_ngrx_pattern(&p));
    let recs = analyzer.generate_state_recommendations(&p);
    assert!(!recs.is_empty());
    assert_eq!(recs[0].title, "Optimize Change Detection");
}

#[test]
fn unclear_state_names_are_reported() {
    let mut a = service("DataKeeper", &[]);
    a.methods = vec![ng_analyzer::model::NgMethod {
        name: "getItems".to_string(),
        parameters: vec![],
        return_type: None,
        complexity_score: 1,
    }];
    let p = project(vec![], vec![a, service("UserStore", &[])]);
    let issues = StateAnalyzer::new().analyze_state_management(&p);
    assert_eq!(issues.len(), 1);
    assert_eq!(issues[0].rule, "unclear-state-service-naming");
    assert!(StateAnalyzer::new().has_ngrx_pattern(&p));
}

#[test]
fn components_without_cleanup_are_reported() {
    let mut c = component("Feed", 1);
    c.dependencies = vec!["FeedService".to_string()];
    let p = project(vec![c], vec![]);
    let issues = StateAnalyzer::new().analyze_reactive_patterns(&p);
    assert_eq!(issues.len(), 1);
    assert_eq!(issues[0].rule, "missing-unsubscribe-pattern");
}

#[test]
fn severity_names_parse_in_any_case() {
    assert_eq!(parse_severity("ERROR"), Ok(Severity::Error));
    assert_eq!(parse_severity("Warning"), Ok(Severity::Warning));
    assert_eq!(parse_severity("info"), Ok(Severity::Info));
    assert_eq!(
        parse_severity("loud"),
        Err("Invalid severity: loud. Use 'error', 'warning', or 'info'".to_string())
    );
}

#[test]
fn audit_arguments_build_a_configuration() {
    let c = AnalysisConfig::from_audit_args(
        "src".to_string(),
        true,
        None,
        None,
        "out".to_string(),
        vec!["table".to_string(), "json".to_string()],
        "Warning".to_string(),
        true,
        false,
    );
    assert_eq!(c.analyzers, vec!["component", "dependency", "state", "performance"]);
    assert_eq!(c.output_format, OutputFormat::Table);
    assert_eq!(c.severity, Severity::Warning);
    assert_eq!(c.output_dir, Some("out".to_string()));
    assert!(c.should_include_issue(&Severity::Error));
    assert!(!c.should_include_issue(&Severity::Info));
    let d = AnalysisConfig::from_deps_args("src".to_string(), "html".to_string(), false, false);
    assert_eq!(d.analyzers, vec!["dependency"]);
    assert_eq!(d.output_format, OutputFormat::Html);
    assert_eq!(d.max_complexity, 10);
    let e = AnalysisConfig::from_component_args("src".to_string(), 7, 3, "xml".to_string(), true, false, false);
    assert_eq!(e.output_format, OutputFormat::Json);
    assert_eq!(e.severity, Severity::Warning);
    assert_eq!(e.max_complexity, 7);
}

#[test]
fn keyword_search_reports_first_match_per_line() {
    let engine = SimpleSearchEngine::new("Foo".to_string(), false, true, 0);
    let matches = engine.search("let a = foo;\nnothing here\r\néé FOO foo");
    assert_eq!(matches.len(), 2);
    assert_eq!(matches[0].line_number, 1);
    assert_eq!(matches[0].match_start, 8);
    assert_eq!(matches[0].match_end, 11);
    assert_eq!(matches[1].line_number, 3);
    assert_eq!(matches[1].match_start, 5);
    assert_eq!(matches[1].line_content, "éé FOO foo");
    let result = SearchResult { file_path: "a.ts".to_string(), matches };
    assert_eq!(result.total_matches(), 2);
    let strict = SimpleSearchEngine::new("Foo".to_string(), true, true, 0);
    assert!(strict.search("foo").is_empty());
}

#[test]
fn search_engine_adds_context() {
    let config = SearchConfig::new(
        ".".to_string(),
        "b".to_string(),
        None,
        None,
        true,
        true,
        1,
        "simple".to_string(),
        false,
    );
    let engine = SearchEngine::new(config);
    let m = engine.search_simple("a\nb\nc");
    assert_eq!(m.len(), 1);
    assert_eq!(m[0].context_before, vec!["a".to_string()]);
    assert_eq!(m[0].context_after, vec!["c".to_string()]);
    assert!(engine.should_include_file("x/app.html"));
    assert!(!engine.should_include_file("x/style.css"));
}

#[test]
fn categories_are_sorted_and_distinct() {
    assert_eq!(
        get_available_categories(),
        vec!["Architecture", "Code Quality", "Memory Management", "Performance"]
    );
    assert_eq!(get_all_rule_definitions().len(), 15);
    let r = get_rule_definition("too-many-inputs").unwrap();
    assert_eq!(r.configurable_options[0].default_value, serde_json::Value::from(8u64));
    assert!(get_rule_definition("nope").is_none());
    assert_eq!(get_rules_by_category("Architecture").len(), 3);
}

#[test]
fn node_ids_keep_only_word_characters() {
    assert_eq!(GraphFormatter::new().sanitize_node_id("file-1.ts"), "file_1_ts");
    assert_eq!(GraphFormatter::new().sanitize_node_id("ä_b"), "ä_b");
}

#[test]
fn template_bindings_are_classified() {
    let nodes = vec![
        TemplateNode::Element {
            name: "div".to_string(),
            attrs: vec![
                ("(click)".to_string(), "go()".to_string()),
                ("[title]".to_string(), "t".to_string()),
                ("*ngIf".to_string(), "ok".to_string()),
                ("class".to_string(), "x".to_string()),
            ],
        },
        TemplateNode::Text("{{ message }}".to_string()),
        TemplateNode::Text("plain".to_string()),
        TemplateNode::Other,
    ];
    let a = HtmlParser::new().analyze_nodes(&nodes);
    assert_eq!(a.elements, vec!["div"]);
    assert_eq!(a.event_bindings, vec!["(click)=go()"]);
    assert_eq!(a.property_bindings, vec!["[title]=t"]);
    assert_eq!(a.structural_directives, vec!["*ngIf=ok"]);
    assert_eq!(a.interpolations, vec!["{{ message }}"]);
}
