//! The analyzers proper: symbol extraction, usage statistics and the file
//! dependency graph.

pub mod models;
pub mod symbol_extractor;
pub mod usage_detector;
pub mod dependency_graph;
pub mod reachability;
pub mod impact_calculator;
