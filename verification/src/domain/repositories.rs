use vstd::prelude::*;
use super::entities::{AnalysisError, Platform, PlatformFiles, SourceFile, Symbol, SymbolUsage};

verus! {

/// Where the symbols of the shared module come from.
pub trait SymbolRepository: Send + Sync {
    /// The public symbols that the given files of the shared module declare.
    fn extract_kmp_symbols(&self, kmp_file_paths: &[String]) -> Result<Vec<Symbol>, AnalysisError>;
}

/// Where the files of a project come from.
pub trait SourceFileRepository: Send + Sync {
    /// The files of the shared module.
    fn find_kmp_files(&self, project_path: &str) -> Result<Vec<String>, AnalysisError>;

    /// The application files, platform by platform.
    fn find_app_files(&self, project_path: &str) -> Result<PlatformFiles, AnalysisError>;

    /// The file at `file_path` with its text.
    fn read_source_file(&self, file_path: &str) -> Result<SourceFile, AnalysisError>;

    /// The number of lines of code in `content`: blank lines and comments,
    /// as the platform writes them, are not counted.
    fn count_code_lines(&self, content: &str, platform: Platform) -> usize;
}

/// Where the uses of symbols come from.
pub trait SymbolUsageRepository: Send + Sync {
    /// The occurrences of `symbols` in `source_file`.
    fn detect_symbol_usage(&self, source_file: &SourceFile, symbols: &[Symbol]) -> Result<
        Vec<SymbolUsage>,
        AnalysisError,
    >;
}

/// Where the dependencies between files come from.
pub trait DependencyRepository: Send + Sync {
    /// Builds the dependency graph of the given files.
    fn build_dependency_graph(&self, file_paths: &[String]) -> Result<(), AnalysisError>;

    /// The files that depend on one of `direct_files` without being one of them.
    fn calculate_transitive_dependencies(&self, direct_files: &[String]) -> Result<
        Vec<String>,
        AnalysisError,
    >;

    /// What `source_file` imports.
    fn extract_imports(&self, source_file: &SourceFile) -> Result<Vec<String>, AnalysisError>;
}

} // verus!
