use vstd::prelude::*;
use crate::domain::entities::{AnalysisError, Symbol};
use crate::domain::repositories::SymbolRepository;

verus! {

/// Extracts the public symbols of the shared module.
pub struct ExtractSymbolsUseCase<'a, R: SymbolRepository + ?Sized> {
    symbol_repository: &'a R,
}

impl<'a, R: SymbolRepository + ?Sized> ExtractSymbolsUseCase<'a, R> {
    /// The repository that the step asks.
    pub closed spec fn repository(&self) -> &'a R {
        self.symbol_repository
    }

    /// The step over the given repository.
    pub fn new(symbol_repository: &'a R) -> (use_case: Self)
        ensures
            use_case.repository() == symbol_repository,
    {
        ExtractSymbolsUseCase { symbol_repository }
    }

    /// The symbols that the repository finds in the given files, or the
    /// error with which it fails: the answer of the repository, as it is.
    pub fn execute(&self, kmp_file_paths: &[String]) -> (result: Result<Vec<Symbol>, AnalysisError>)
        ensures
            call_ensures(R::extract_kmp_symbols, (self.repository(), kmp_file_paths), result),
    {
        self.symbol_repository.extract_kmp_symbols(kmp_file_paths)
    }
}

} // verus!
