//! The repositories over the analyzers, as far as they work on texts that
//! have been read.

pub mod dependency_repository_impl;
pub mod source_file_repository_impl;
pub mod symbol_repository_impl;
pub mod symbol_usage_repository_impl;

pub use dependency_repository_impl::DependencyRepositoryImpl;
pub use source_file_repository_impl::SourceFileRepositoryImpl;
pub use symbol_repository_impl::SymbolRepositoryImpl;
pub use symbol_usage_repository_impl::SymbolUsageRepositoryImpl;
