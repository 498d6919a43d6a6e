//! Static estimation of how much of a multi-platform application is reached
//! by the code of a shared Kotlin Multiplatform module.
//!
//! The analysis works on the text of source files, without compiler or
//! syntax tree. It extracts the public symbols that the shared module
//! declares, finds where application files use them, follows the imports
//! between files to the files that depend on those, and sums up, per
//! platform and overall, how many lines of code are affected.
//!
//! Files are handed to the library as texts that have been read; finding and
//! reading them is left to the repositories that a caller provides.

pub mod adapters;
pub mod analyzer;
pub mod domain;
pub mod file_set;
pub mod infrastructure;
pub mod parser;
pub mod pattern;
pub mod string_map;
pub mod text;
pub mod use_cases;
pub mod utils;

pub use domain::{
    AnalysisError, DependencyRepository, ImpactAnalysis, ImpactRatio, Platform, PlatformFiles,
    PlatformImpact, SourceFile, SourceFileRepository, Symbol, SymbolRepository, SymbolType,
    SymbolUsage, SymbolUsageRepository,
};
