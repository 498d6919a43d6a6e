//! The entities of an impact analysis and the repository interfaces through
//! which the analysis reaches files.

pub mod entities;
pub mod repositories;

pub use entities::{
    AnalysisError, ImpactAnalysis, ImpactRatio, Language, Platform, PlatformFiles,
    PlatformImpact, SourceFile, Symbol, SymbolType, SymbolUsage,
};
pub use repositories::{
    DependencyRepository, SourceFileRepository, SymbolRepository, SymbolUsageRepository,
};
