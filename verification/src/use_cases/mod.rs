//! The steps of an analysis, each over the repositories it needs.

pub mod analyze_impact;
pub mod calculate_dependencies;
pub mod detect_usage;
pub mod extract_symbols;


pub use analyze_impact::AnalyzeImpactUseCase;
pub use calculate_dependencies::CalculateDependenciesUseCase;
pub use detect_usage::DetectUsageUseCase;
pub use extract_symbols::ExtractSymbolsUseCase;
