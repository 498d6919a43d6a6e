use vstd::prelude::*;
use crate::domain::entities::AnalysisError;
use crate::domain::repositories::DependencyRepository;

verus! {

/// Builds the dependency graph and asks it what depends on given files.
pub struct CalculateDependenciesUseCase<'a, R: DependencyRepository + ?Sized> {
    dependency_repository: &'a R,
}

impl<'a, R: DependencyRepository + ?Sized> CalculateDependenciesUseCase<'a, R> {
    /// The repository that the step asks.
    pub closed spec fn repository(&self) -> &'a R {
        self.dependency_repository
    }

    /// The step over the given repository.
    pub fn new(dependency_repository: &'a R) -> (use_case: Self)
        ensures
            use_case.repository() == dependency_repository,
    {
        CalculateDependenciesUseCase { dependency_repository }
    }

    /// Has the repository build the graph of all files; the answer is that
    /// of the repository, as it is.
    pub fn build_graph(&self, all_files: &[String]) -> (result: Result<(), AnalysisError>)
        ensures
            call_ensures(R::build_dependency_graph, (self.repository(), all_files), result),
    {
        self.dependency_repository.build_dependency_graph(all_files)
    }

    /// The files that, by the repository, depend on one of `direct_files`;
    /// the answer is that of the repository, as it is.
    pub fn calculate_transitive(&self, direct_files: &[String]) -> (result: Result<
        Vec<String>,
        AnalysisError,
    >)
        ensures
            call_ensures(
                R::calculate_transitive_dependencies,
                (self.repository(), direct_files),
                result,
            ),
    {
        self.dependency_repository.calculate_transitive_dependencies(direct_files)
    }
}

} // verus!
