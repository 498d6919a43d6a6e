use vstd::prelude::*;
use crate::analyzer::models::SymbolUsage;
use crate::analyzer::symbol_extractor::capture_names;
use crate::analyzer::usage_detector::{is_skipped, is_skipped_line, str_texts};
use crate::pattern::{is_match, regex_matches};
use crate::string_map::StringMap;
use crate::text::{contains, texts, trim, trimmed};
use super::{
    code_lines,
    comment_marks,
    comment_prefixes,
    count_lines_of_code,
    detect_usage_with_patterns,
    Platform,
    PlatformType,
    OBJC_IMPORT_PATTERN,
    SWIFT_IMPORT_PATTERN,
};

verus! {

/// An import of a framework built from shared code: `Shared`, `ComposeApp`,
/// or a name that ends in `KMP` or `Shared`.
pub const KMP_FRAMEWORK_PATTERN: &'static str =
    "(?m)^import\\s+(Shared|ComposeApp|[A-Z][a-zA-Z]*KMP|[A-Z][a-zA-Z]*Shared)";

/// iOS: application code in Swift and Objective-C.
pub struct IOSPlatform {}

impl IOSPlatform {
    /// The iOS platform.
    pub fn new() -> Self {
        IOSPlatform {  }
    }

    /// Whether a line of Swift is a comment.
    pub fn is_swift_comment(line: &str) -> (yes: bool)
        ensures
            yes == is_skipped(trimmed(line@), comment_prefixes()),
    {
        let inner = trim(line);
        is_skipped_line(inner.as_str(), comment_marks().as_slice())
    }

    /// Whether a line of Objective-C is a comment.
    pub fn is_objc_comment(line: &str) -> (yes: bool)
        ensures
            yes == is_skipped(trimmed(line@), comment_prefixes()),
    {
        let inner = trim(line);
        is_skipped_line(inner.as_str(), comment_marks().as_slice())
    }

    /// The lines of code of a Swift text.
    pub fn count_swift_lines(content: &str) -> (count: usize)
        ensures
            count == code_lines(content@),
    {
        count_lines_of_code(content, comment_marks().as_slice())
    }

    /// The lines of code of an Objective-C text.
    pub fn count_objc_lines(content: &str) -> (count: usize)
        ensures
            count == code_lines(content@),
    {
        count_lines_of_code(content, comment_marks().as_slice())
    }

    /// Whether `content` imports a framework built from shared code.
    pub fn has_kmp_import(&self, content: &str) -> (yes: bool)
        ensures
            yes == (regex_matches(KMP_FRAMEWORK_PATTERN@, content@) == Some(true)),
    {
        match is_match(KMP_FRAMEWORK_PATTERN, content) {
            Some(yes) => yes,
            None => false,
        }
    }
}

impl Platform for IOSPlatform {
    open spec fn kind(&self) -> PlatformType {
        PlatformType::IOS
    }

    fn platform_type(&self) -> (kind: PlatformType) {
        PlatformType::IOS
    }

    fn file_extensions(&self) -> (extensions: Vec<&'static str>) {
        let extensions = vec!["swift", "m", "mm", "h"];
        assert(str_texts(extensions@) =~= PlatformType::IOS.extensions());
        extensions
    }

    fn app_directory_patterns(&self) -> (patterns: Vec<&'static str>) {
        let patterns = vec!["iosApp", "iosApp/iosApp", "ios", "iOS", "composeApp/src/iosMain"];
        assert(str_texts(patterns@) =~= PlatformType::IOS.app_directories());
        patterns
    }

    fn detect_symbol_usage(&self, file_path: &str, content: &str, kmp_symbols: &[String]) -> (usages:
        StringMap<SymbolUsage>) {
        let prefixes = vec!["//", "/*", "*", "import ", "#import"];
        assert(str_texts(prefixes@) =~= PlatformType::IOS.skipped_prefixes());
        detect_usage_with_patterns(content, file_path, kmp_symbols, prefixes.as_slice())
    }

    fn extract_imports(&self, content: &str) -> (imports: Vec<String>) {
        let mut imports = capture_names(SWIFT_IMPORT_PATTERN, content);
        let mut directives = capture_names(OBJC_IMPORT_PATTERN, content);
        let ghost first = texts(imports@);
        let ghost second = texts(directives@);
        imports.append(&mut directives);
        assert(texts(imports@) =~= first + second);
        imports
    }

    fn count_code_lines(&self, content: &str) -> (count: usize) {
        // Swift is told from Objective-C by its keywords; both count alike.
        if contains(content, "func ") || contains(content, "let ") || contains(content, "var ") {
            Self::count_swift_lines(content)
        } else {
            Self::count_objc_lines(content)
        }
    }
}

} // verus!
