use vstd::prelude::*;
use crate::analyzer::models::SymbolUsage;
use crate::analyzer::symbol_extractor::capture_names;
use crate::analyzer::usage_detector::{is_skipped, is_skipped_line, str_texts};
use crate::string_map::StringMap;
use crate::text::{contains, trim, trimmed};
use super::{
    code_lines,
    comment_marks,
    comment_prefixes,
    count_lines_of_code,
    detect_usage_with_patterns,
    Platform,
    PlatformType,
    JVM_IMPORT_PATTERN,
};

verus! {

/// Android: application code in Kotlin and Java.
pub struct AndroidPlatform {}

impl AndroidPlatform {
    /// The Android platform.
    pub fn new() -> Self {
        AndroidPlatform {  }
    }

    /// Whether a line of Kotlin is a comment.
    pub fn is_kotlin_comment(line: &str) -> (yes: bool)
        ensures
            yes == is_skipped(trimmed(line@), comment_prefixes()),
    {
        let inner = trim(line);
        is_skipped_line(inner.as_str(), comment_marks().as_slice())
    }

    /// Whether a line of Java is a comment.
    pub fn is_java_comment(line: &str) -> (yes: bool)
        ensures
            yes == is_skipped(trimmed(line@), comment_prefixes()),
    {
        let inner = trim(line);
        is_skipped_line(inner.as_str(), comment_marks().as_slice())
    }

    /// The lines of code of a Kotlin text.
    pub fn count_kotlin_lines(content: &str) -> (count: usize)
        ensures
            count == code_lines(content@),
    {
        count_lines_of_code(content, comment_marks().as_slice())
    }

    /// The lines of code of a Java text.
    pub fn count_java_lines(content: &str) -> (count: usize)
        ensures
            count == code_lines(content@),
    {
        count_lines_of_code(content, comment_marks().as_slice())
    }
}

impl Platform for AndroidPlatform {
    open spec fn kind(&self) -> PlatformType {
        PlatformType::Android
    }

    fn platform_type(&self) -> (kind: PlatformType) {
        PlatformType::Android
    }

    fn file_extensions(&self) -> (extensions: Vec<&'static str>) {
        let extensions = vec!["kt", "kts", "java"];
        assert(str_texts(extensions@) =~= PlatformType::Android.extensions());
        extensions
    }

    fn app_directory_patterns(&self) -> (patterns: Vec<&'static str>) {
        let patterns = vec!["app/src", "android/src", "androidApp/src", "composeApp/src/androidMain"];
        assert(str_texts(patterns@) =~= PlatformType::Android.app_directories());
        patterns
    }

    fn detect_symbol_usage(&self, file_path: &str, content: &str, kmp_symbols: &[String]) -> (usages:
        StringMap<SymbolUsage>) {
        let prefixes = vec!["//", "/*", "*", "import "];
        assert(str_texts(prefixes@) =~= PlatformType::Android.skipped_prefixes());
        detect_usage_with_patterns(content, file_path, kmp_symbols, prefixes.as_slice())
    }

    fn extract_imports(&self, content: &str) -> (imports: Vec<String>) {
        capture_names(JVM_IMPORT_PATTERN, content)
    }

    fn count_code_lines(&self, content: &str) -> (count: usize) {
        // Kotlin is told from Java by its keywords; both count alike.
        if contains(content, "fun ") || contains(content, "val ") || contains(content, "var ") {
            Self::count_kotlin_lines(content)
        } else {
            Self::count_java_lines(content)
        }
    }
}

} // verus!
