//! What tells files apart by their names.

use vstd::prelude::*;
use crate::text::{contains, extension, extension_of, occurs_in, same_text};

verus! {

/// Tells files apart by their names.
pub struct FileUtils {}

impl FileUtils {
    /// Whether `name`, the last component of a path, holds `pattern`.
    pub fn matches_pattern(name: &str, pattern: &str) -> (yes: bool)
        ensures
            yes == occurs_in(name@, pattern@),
    {
        contains(name, pattern)
    }

    /// Whether the file at `path` is a Kotlin source or script, by its
    /// extension.
    pub fn is_kotlin_file(path: &str) -> (yes: bool)
        ensures
            yes == (extension(path@) == Some("kt"@) || extension(path@) == Some("kts"@)),
    {
        match extension_of(path) {
            Some(found) => same_text(found.as_str(), "kt") || same_text(found.as_str(), "kts"),
            None => false,
        }
    }

    /// Whether `name`, the last component of a path, names a Gradle build
    /// file.
    pub fn is_gradle_file(name: &str) -> (yes: bool)
        ensures
            yes == (name@ == "build.gradle"@ || name@ == "build.gradle.kts"@),
    {
        same_text(name, "build.gradle") || same_text(name, "build.gradle.kts")
    }
}

} // verus!
