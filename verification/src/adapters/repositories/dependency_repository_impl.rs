use vstd::prelude::*;
use crate::adapters::platforms::{JVM_IMPORT_PATTERN, OBJC_IMPORT_PATTERN, SWIFT_IMPORT_PATTERN};
use crate::analyzer::dependency_graph::{
    file_views,
    linked_forward,
    linked_reverse,
    DependencyGraph,
};
use crate::analyzer::symbol_extractor::{capture_names, captured_names};
use crate::domain::entities::SourceFile;
use crate::file_set::FileSet;
use crate::text::texts;

verus! {

/// Keeps the dependency graph of the files it was built from.
pub struct DependencyRepositoryImpl {
    graph: DependencyGraph,
}

impl DependencyRepositoryImpl {
    /// The graph that the repository keeps.
    pub closed spec fn graph(&self) -> DependencyGraph {
        self.graph
    }

    /// A repository with an empty graph.
    pub fn new() -> (repository: Self)
        ensures
            repository.graph().is_empty(),
    {
        DependencyRepositoryImpl { graph: DependencyGraph::new() }
    }

    /// Indexes and links the files: see `DependencyGraph::build`.
    pub fn build_dependency_graph(&mut self, files: &[SourceFile])
        ensures
            final(self).graph().index() == old(self).graph().index().indexed(file_views(files@)),
            final(self).graph().forward() == linked_forward(
                old(self).graph().forward(),
                final(self).graph().index(),
                file_views(files@),
            ),
            final(self).graph().reverse() == linked_reverse(
                old(self).graph().reverse(),
                final(self).graph().index(),
                file_views(files@),
            ),
    {
        self.graph.build(files);
    }

    /// The files that depend on one of `direct_files` without being one of
    /// them, each once.
    pub fn calculate_transitive_dependencies(&self, direct_files: &[String]) -> (transitive: Vec<
        String,
    >)
        ensures
            texts(transitive@).no_duplicates(),
            texts(transitive@).to_set() == self.graph().transitive_impact(
                texts(direct_files@).to_set(),
            ),
    {
        let direct = FileSet::from_paths(direct_files);
        let impact = self.graph.compute_transitive_impact(&direct);
        proof {
            use_type_invariant(&impact);
        }
        impact.to_vec()
    }

    /// What a file imports, read as Kotlin or Java, then as Swift, then as
    /// Objective-C.
    pub open spec fn imports_of(content: Seq<char>) -> Seq<Seq<char>> {
        captured_names(JVM_IMPORT_PATTERN@, content) + captured_names(SWIFT_IMPORT_PATTERN@, content)
            + captured_names(OBJC_IMPORT_PATTERN@, content)
    }

    /// What `source_file` imports.
    pub fn extract_imports(&self, source_file: &SourceFile) -> (imports: Vec<String>)
        ensures
            texts(imports@) == Self::imports_of(source_file.content@),
    {
        let content = source_file.content.as_str();
        let mut imports = capture_names(JVM_IMPORT_PATTERN, content);
        let mut swift = capture_names(SWIFT_IMPORT_PATTERN, content);
        let mut objc = capture_names(OBJC_IMPORT_PATTERN, content);
        let ghost first = texts(imports@);
        let ghost second = texts(swift@);
        let ghost third = texts(objc@);
        imports.append(&mut swift);
        imports.append(&mut objc);
        assert(texts(imports@) =~= first + second + third);
        imports
    }
}

} // verus!
