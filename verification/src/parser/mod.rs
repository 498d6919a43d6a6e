//! Readers of build files and Kotlin sources.

use vstd::prelude::*;
use crate::adapters::platforms::{code_line_count, count_lines_of_code};
use crate::text::split_lines;

verus! {

/// What is known of a build file.
#[derive(Debug)]
pub struct BuildFileInfo {
    /// The project's name.
    pub name: Option<String>,
    /// The plugins that the build applies.
    pub plugins: Vec<String>,
    /// What the build depends on.
    pub dependencies: Vec<String>,
    /// Whether the multiplatform plugin is applied.
    pub is_multiplatform: bool,
}

impl BuildFileInfo {
    /// Nothing is known: no name, no plugin, no dependency.
    pub open spec fn is_blank(&self) -> bool {
        &&& self.name is None
        &&& self.plugins@.len() == 0
        &&& self.dependencies@.len() == 0
        &&& !self.is_multiplatform
    }
}

impl Default for BuildFileInfo {
    fn default() -> (info: Self)
        ensures
            info.is_blank(),
    {
        BuildFileInfo {
            name: None,
            plugins: Vec::new(),
            dependencies: Vec::new(),
            is_multiplatform: false,
        }
    }
}

/// Reads Gradle build files. Nothing is taken from them: every build
/// file yields the blank information.
pub struct GradleParser {}

impl GradleParser {
    /// What the Kotlin build file at `path` says.
    pub fn parse_kotlin_build_file(path: &str) -> (info: BuildFileInfo)
        ensures
            info.is_blank(),
    {
        BuildFileInfo::default()
    }

    /// What the Groovy build file at `path` says.
    pub fn parse_groovy_build_file(path: &str) -> (info: BuildFileInfo)
        ensures
            info.is_blank(),
    {
        BuildFileInfo::default()
    }
}

/// Reads Kotlin sources.
pub struct KotlinParser {}

impl KotlinParser {
    /// The imports of a Kotlin text. None are reported.
    pub fn parse_imports(content: &str) -> (imports: Vec<String>)
        ensures
            imports@.len() == 0,
    {
        Vec::new()
    }

    /// The lines of a Kotlin text that are neither blank nor line comments.
    pub fn count_code_lines(content: &str) -> (count: usize)
        ensures
            count == code_line_count(split_lines(content@), seq!["//"@]),
    {
        let marks = vec!["//"];
        assert(crate::analyzer::usage_detector::str_texts(marks@) =~= seq!["//"@]);
        count_lines_of_code(content, marks.as_slice())
    }
}

} // verus!
