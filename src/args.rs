//! The analysis configuration that each command line builds.

use vstd::prelude::*;
use crate::model::Severity;
use crate::text::{append_str, lower_of, lowercase};

verus! {

/// The report format.
#[derive(Debug, Clone, Copy, PartialEq, Eq, Structural)]
pub enum OutputFormat {
    Json,
    Html,
    Table,
}

impl Default for OutputFormat {
    fn default() -> (r: OutputFormat)
        ensures
            r == OutputFormat::Json,
    {
        OutputFormat::Json
    }
}

/// The format a format name selects: `html`, `table`, else JSON.
pub open spec fn format_named(name: Seq<char>) -> OutputFormat {
    if name == "html"@ {
        OutputFormat::Html
    } else if name == "table"@ {
        OutputFormat::Table
    } else {
        OutputFormat::Json
    }
}

fn format_of(name: &String) -> (r: OutputFormat)
    ensures
        r == format_named(name@),
{
    if *name == "html".to_owned() {
        OutputFormat::Html
    } else if *name == "table".to_owned() {
        OutputFormat::Table
    } else {
        OutputFormat::Json
    }
}

/// What to analyze, how, and how to report it.
#[derive(Debug, Clone)]
pub struct AnalysisConfig {
    pub path: String,
    pub output_format: OutputFormat,
    pub output_dir: Option<String>,
    pub analyzers: Vec<String>,
    pub severity: Severity,
    pub max_complexity: u32,
    pub max_depth: u32,
    pub config_file: Option<String>,
    pub verbose: bool,
}

/// The configuration where a command line says nothing: the path `./src`,
/// the component analyzer, JSON into `./reports`, every severity, a
/// complexity limit of 10 and a depth limit of 5.
pub open spec fn is_default_config(c: AnalysisConfig) -> bool {
    &&& c.path@ == "./src"@
    &&& views_of(c.analyzers@) == seq!["component"@]
    &&& c.output_format == OutputFormat::Json
    &&& c.output_dir matches Some(d) && d@ == "./reports"@
    &&& c.severity == Severity::Info
    &&& c.max_complexity == 10
    &&& c.max_depth == 5
    &&& c.config_file is None
    &&& !c.verbose
}

pub open spec fn views_of(s: Seq<String>) -> Seq<Seq<char>> {
    s.map_values(|x: String| x@)
}

fn one_analyzer(name: &str) -> (r: Vec<String>)
    ensures
        views_of(r@) == seq![name@],
{
    let mut r: Vec<String> = Vec::new();
    r.push(name.to_owned());
    assert(views_of(r@) =~= seq![name@]);
    r
}

impl Default for AnalysisConfig {
    fn default() -> (r: AnalysisConfig)
        ensures
            is_default_config(r),
    {
        AnalysisConfig {
            path: "./src".to_owned(),
            analyzers: one_analyzer("component"),
            output_format: OutputFormat::Json,
            output_dir: Some("./reports".to_owned()),
            severity: Severity::Info,
            max_complexity: 10,
            max_depth: 5,
            config_file: None,
            verbose: false,
        }
    }
}

/// The severity threshold a severity name selects, in any case: `error`,
/// `warning`, else everything.
pub open spec fn threshold_named(lower: Seq<char>) -> Severity {
    if lower == "error"@ {
        Severity::Error
    } else if lower == "warning"@ {
        Severity::Warning
    } else {
        Severity::Info
    }
}

/// Whether a finding of `severity` passes the threshold `threshold`.
pub open spec fn passes(threshold: Severity, severity: Severity) -> bool {
    match threshold {
        Severity::Error => severity == Severity::Error,
        Severity::Warning => severity != Severity::Info,
        Severity::Info => true,
    }
}

impl AnalysisConfig {
    /// The component command: its limits, its format, and with
    /// `errors_only` warnings and errors alone.
    pub fn from_component_args(
        path: String,
        max_complexity: u32,
        depth: u32,
        output: String,
        errors_only: bool,
        verbose: bool,
        quiet: bool,
    ) -> (r: Self)
        ensures
            r.path == path,
            views_of(r.analyzers@) == seq!["component"@],
            r.output_format == format_named(output@),
            r.severity == if errors_only {
                Severity::Warning
            } else {
                Severity::Info
            },
            r.max_complexity == max_complexity,
            r.max_depth == depth,
            r.verbose == verbose,
            r.output_dir matches Some(d) && d@ == "./reports"@,
            r.config_file is None,
    {
        let d = Self::default();
        AnalysisConfig {
            path,
            analyzers: one_analyzer("component"),
            output_format: format_of(&output),
            severity: if errors_only {
                Severity::Warning
            } else {
                Severity::Info
            },
            max_complexity,
            max_depth: depth,
            verbose,
            ..d
        }
    }

    /// The dependency command.
    pub fn from_deps_args(path: String, format: String, verbose: bool, quiet: bool) -> (r: Self)
        ensures
            r.path == path,
            views_of(r.analyzers@) == seq!["dependency"@],
            r.output_format == format_named(format@),
            r.verbose == verbose,
            r.severity == Severity::Info,
            r.max_complexity == 10,
            r.max_depth == 5,
            r.output_dir matches Some(d) && d@ == "./reports"@,
            r.config_file is None,
    {
        let d = Self::default();
        AnalysisConfig { path, analyzers: one_analyzer("dependency"), output_format: format_of(&format), verbose, ..d }
    }

    /// The state command.
    pub fn from_state_args(path: String, format: String, verbose: bool, quiet: bool) -> (r: Self)
        ensures
            r.path == path,
            views_of(r.analyzers@) == seq!["state"@],
            r.output_format == format_named(format@),
            r.verbose == verbose,
            r.severity == Severity::Info,
            r.max_complexity == 10,
            r.max_depth == 5,
            r.output_dir matches Some(d) && d@ == "./reports"@,
            r.config_file is None,
    {
        let d = Self::default();
        AnalysisConfig { path, analyzers: one_analyzer("state"), output_format: format_of(&format), verbose, ..d }
    }

    /// The performance command.
    pub fn from_performance_args(path: String, format: String, verbose: bool, quiet: bool) -> (r: Self)
        ensures
            r.path == path,
            views_of(r.analyzers@) == seq!["performance"@],
            r.output_format == format_named(format@),
            r.verbose == verbose,
            r.severity == Severity::Info,
            r.max_complexity == 10,
            r.max_depth == 5,
            r.output_dir matches Some(d) && d@ == "./reports"@,
            r.config_file is None,
    {
        let d = Self::default();
        AnalysisConfig {
            path,
            analyzers: one_analyzer("performance"),
            output_format: format_of(&format),
            verbose,
            ..d
        }
    }

    /// The audit command: all four analyzers with `full`, else those named
    /// (the component analyzer when none are); the first format named; the
    /// severity threshold named.
    pub fn from_audit_args(
        path: String,
        full: bool,
        analyzers: Option<Vec<String>>,
        config: Option<String>,
        output_dir: String,
        formats: Vec<String>,
        severity: String,
        verbose: bool,
        quiet: bool,
    ) -> (r: Self)
        ensures
            r.path == path,
            full ==> views_of(r.analyzers@) == seq!["component"@, "dependency"@, "state"@, "performance"@],
            !full ==> match analyzers {
                Some(a) => r.analyzers@ == a@,
                None => views_of(r.analyzers@) == seq!["component"@],
            },
            r.severity == threshold_named(lower_of(severity@)),
            r.output_format == if formats@.len() > 0 {
                format_named(formats@[0]@)
            } else {
                OutputFormat::Json
            },
            r.output_dir == Some(output_dir),
            r.config_file == config,
            r.verbose == verbose,
            r.max_complexity == 10,
            r.max_depth == 5,
    {
        let analyzers = if full {
            let mut all: Vec<String> = Vec::new();
            all.push("component".to_owned());
            all.push("dependency".to_owned());
            all.push("state".to_owned());
            all.push("performance".to_owned());
            assert(views_of(all@) =~= seq!["component"@, "dependency"@, "state"@, "performance"@]);
            all
        } else {
            match analyzers {
                Some(a) => a,
                None => one_analyzer("component"),
            }
        };
        let lower = lowercase(severity.as_str());
        let severity_threshold = if lower == "error".to_owned() {
            Severity::Error
        } else if lower == "warning".to_owned() {
            Severity::Warning
        } else {
            Severity::Info
        };
        let output_format = if formats.len() > 0 {
            format_of(&formats[0])
        } else {
            OutputFormat::Json
        };
        let d = Self::default();
        AnalysisConfig {
            path,
            analyzers,
            output_format,
            output_dir: Some(output_dir),
            severity: severity_threshold,
            config_file: config,
            verbose,
            ..d
        }
    }

    /// Whether a finding of `severity` is shown under this configuration's
    /// threshold.
    pub fn should_include_issue(&self, severity: &Severity) -> (r: bool)
        ensures
            r == passes(self.severity, *severity),
    {
        match (&self.severity, severity) {
            (Severity::Error, Severity::Error) => true,
            (Severity::Warning, Severity::Error) => true,
            (Severity::Warning, Severity::Warning) => true,
            (Severity::Info, _) => true,
            _ => false,
        }
    }

    /// The search command.
    pub fn from_search_args(
        path: String,
        keyword: String,
        file_type: String,
        file_pattern: Option<String>,
        case_sensitive: bool,
        line_numbers: bool,
        context: u32,
        output: String,
        verbose: bool,
        quiet: bool,
    ) -> (r: Self)
        ensures
            r.path == path,
            views_of(r.analyzers@) == seq!["search"@],
            r.output_format == format_named(output@),
            r.verbose == verbose,
            r.severity == Severity::Info,
            r.max_complexity == 10,
            r.max_depth == 5,
            r.output_dir matches Some(d) && d@ == "./reports"@,
            r.config_file is None,
    {
        let d = Self::default();
        AnalysisConfig { path, analyzers: one_analyzer("search"), output_format: format_of(&output), verbose, ..d }
    }
}

/// A severity name, in any case.
pub open spec fn severity_named(lower: Seq<char>) -> Option<Severity> {
    if lower == "error"@ {
        Some(Severity::Error)
    } else if lower == "warning"@ {
        Some(Severity::Warning)
    } else if lower == "info"@ {
        Some(Severity::Info)
    } else {
        None
    }
}

/// The severity that `s` names, in any case; anything else is refused with
/// a message naming `s`.
pub fn parse_severity(s: &str) -> (r: Result<Severity, String>)
    ensures
        severity_named(lower_of(s@)) matches Some(v) ==> r == Ok::<Severity, String>(v),
        severity_named(lower_of(s@)) is None ==> (r matches Err(m) && m@ == "Invalid severity: "@ + s@
            + ". Use 'error', 'warning', or 'info'"@),
{
    let lower = lowercase(s);
    if lower == "error".to_owned() {
        Ok(Severity::Error)
    } else if lower == "warning".to_owned() {
        Ok(Severity::Warning)
    } else if lower == "info".to_owned() {
        Ok(Severity::Info)
    } else {
        let mut m = "Invalid severity: ".to_owned();
        append_str(&mut m, s);
        append_str(&mut m, ". Use 'error', 'warning', or 'info'");
        Err(m)
    }
}

} // verus!
