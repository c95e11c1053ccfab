//! Static analysis of component-based front-end projects: a semantic model of
//! decorated classes and a file-level import/export graph, with graph queries
//! (cycles, orphans, depth, ranking) and rule checks over the model.

pub mod model;
pub mod text;
pub mod analysis;
pub mod ranking;
pub mod cycles;
pub mod graph;
pub mod syntax;
pub mod extract;
pub mod project;
pub mod args;
pub mod search;
pub mod simple_search;
pub mod report;
pub mod findings;
pub mod component_rules;
pub mod dependency_rules;
pub mod performance_rules;
pub mod state_rules;
pub mod rules;
