//! The platforms whose application code is measured, and what is the same
//! for all of them: how uses of shared symbols are found and how lines of
//! code are counted.

use vstd::prelude::*;
use vstd::string::*;
use crate::analyzer::models::SymbolUsage;
use crate::analyzer::symbol_extractor::captured_names;
use crate::analyzer::usage_detector::{
    find_occurrences, is_skipped, is_skipped_line, lemma_summarizes, locations_of, occurrences,
    str_texts, summarizes, summary_of, usage_statistics,
};
use crate::domain::entities::{usage_views, SymbolUsageView as OccurrenceView};
use crate::string_map::StringMap;
use crate::text::{extension, extension_of, lines_of, same_text, split_lines, texts, trim, trimmed};

pub mod android;
pub mod ios;

verus! {

/// An import statement of Kotlin or Java at the start of a line.
pub const JVM_IMPORT_PATTERN: &'static str = "(?m)^import\\s+([a-zA-Z0-9_.]+)";

/// An import statement of Swift at the start of a line.
pub const SWIFT_IMPORT_PATTERN: &'static str = "(?m)^import\\s+([A-Za-z0-9_]+)";

/// An import directive of Objective-C at the start of a line.
pub const OBJC_IMPORT_PATTERN: &'static str = "(?m)^#import\\s+[<\"]([A-Za-z0-9_/]+)[>\"]";

/// The platforms that are known.
#[derive(Debug, Clone, Copy, PartialEq, Eq, Hash, Structural)]
pub enum PlatformType {
    Android,
    IOS,
}

impl PlatformType {
    /// The platform's name.
    pub open spec fn name(self) -> Seq<char> {
        match self {
            PlatformType::Android => "Android"@,
            PlatformType::IOS => "iOS"@,
        }
    }

    /// The extensions of the platform's source files.
    pub open spec fn extensions(self) -> Seq<Seq<char>> {
        match self {
            PlatformType::Android => seq!["kt"@, "kts"@, "java"@],
            PlatformType::IOS => seq!["swift"@, "m"@, "mm"@, "h"@],
        }
    }

    /// The directories, below a project's root, in which the platform's
    /// application code is looked for.
    pub open spec fn app_directories(self) -> Seq<Seq<char>> {
        match self {
            PlatformType::Android => seq![
                "app/src"@,
                "android/src"@,
                "androidApp/src"@,
                "composeApp/src/androidMain"@,
            ],
            PlatformType::IOS => seq![
                "iosApp"@,
                "iosApp/iosApp"@,
                "ios"@,
                "iOS"@,
                "composeApp/src/iosMain"@,
            ],
        }
    }

    /// The beginnings of lines in which no use of a symbol is looked for:
    /// comments and imports.
    pub open spec fn skipped_prefixes(self) -> Seq<Seq<char>> {
        match self {
            PlatformType::Android => seq!["//"@, "/*"@, "*"@, "import "@],
            PlatformType::IOS => seq!["//"@, "/*"@, "*"@, "import "@, "#import"@],
        }
    }

    /// What a file of the platform imports, in the order of the text; on iOS
    /// the imports of Swift come before those of Objective-C.
    pub open spec fn imports(self, content: Seq<char>) -> Seq<Seq<char>> {
        match self {
            PlatformType::Android => captured_names(JVM_IMPORT_PATTERN@, content),
            PlatformType::IOS => captured_names(SWIFT_IMPORT_PATTERN@, content) + captured_names(
                OBJC_IMPORT_PATTERN@,
                content,
            ),
        }
    }

    /// Whether the file at `path` is a source file of the platform, by its
    /// extension.
    pub open spec fn owns(self, path: Seq<char>) -> bool {
        match extension(path) {
            Some(e) => self.extensions().contains(e),
            None => false,
        }
    }

    /// The platform's name.
    pub fn as_str(&self) -> (name: &'static str)
        ensures
            name@ == self.name(),
    {
        match self {
            PlatformType::Android => "Android",
            PlatformType::IOS => "iOS",
        }
    }
}

/// The beginnings of comment lines, the same on every platform.
pub open spec fn comment_prefixes() -> Seq<Seq<char>> {
    seq!["//"@, "/*"@, "*"@]
}

/// Whether a line counts as code: it is not blank and does not begin, white
/// space aside, with one of the prefixes.
pub open spec fn is_code_line(line: Seq<char>, prefixes: Seq<Seq<char>>) -> bool {
    trimmed(line).len() > 0 && !is_skipped(trimmed(line), prefixes)
}

/// How many of the lines count as code.
pub open spec fn code_line_count(lines: Seq<Seq<char>>, prefixes: Seq<Seq<char>>) -> nat
    decreases lines.len(),
{
    if lines.len() == 0 {
        0
    } else {
        code_line_count(lines.drop_last(), prefixes) + if is_code_line(lines.last(), prefixes) {
            1nat
        } else {
            0nat
        }
    }
}

/// There are no more lines of code than lines.
pub proof fn lemma_code_line_count(lines: Seq<Seq<char>>, prefixes: Seq<Seq<char>>)
    ensures
        code_line_count(lines, prefixes) <= lines.len(),
    decreases lines.len(),
{
    if lines.len() > 0 {
        lemma_code_line_count(lines.drop_last(), prefixes);
    }
}

/// The lines of code of a text on any platform: its lines that are neither
/// blank nor comments.
pub open spec fn code_lines(content: Seq<char>) -> nat {
    code_line_count(split_lines(content), comment_prefixes())
}

/// How many lines of `content` are neither blank nor begin, white space
/// aside, with one of `prefixes`.
pub fn count_lines_of_code(content: &str, prefixes: &[&str]) -> (count: usize)
    ensures
        count == code_line_count(split_lines(content@), str_texts(prefixes@)),
{
    let lines = lines_of(content);
    let ghost all = texts(lines@);
    let mut count: usize = 0;
    let mut i: usize = 0;
    assert(all.take(0) =~= Seq::<Seq<char>>::empty());
    while i < lines.len()
        invariant
            i <= lines.len(),
            all == texts(lines@),
            count <= i,
            count == code_line_count(all.take(i as int), str_texts(prefixes@)),
        decreases lines.len() - i,
    {
        let inner = trim(lines[i].as_str());
        proof {
            assert(all.take(i + 1).drop_last() =~= all.take(i as int));
            assert(all.take(i + 1).last() == lines@[i as int]@);
        }
        if inner.as_str().unicode_len() > 0 && !is_skipped_line(inner.as_str(), prefixes) {
            count = count + 1;
        }
        i = i + 1;
    }
    assert(all.take(i as int) =~= all);
    count
}

/// The prefixes of comment lines.
pub fn comment_marks() -> (marks: Vec<&'static str>)
    ensures
        str_texts(marks@) == comment_prefixes(),
{
    let marks = vec!["//", "/*", "*"];
    assert(str_texts(marks@) =~= comment_prefixes());
    marks
}

/// The occurrences of `symbols` in a text: see `occurrences`.
pub open spec fn detected(
    content: Seq<char>,
    file: Seq<char>,
    symbols: Seq<Seq<char>>,
    prefixes: Seq<Seq<char>>,
) -> Seq<OccurrenceView> {
    occurrences(split_lines(content), file, symbols, prefixes, split_lines(content).len() as int)
}

/// Finds the uses of `kmp_symbols` in `content`, the text of the file at
/// `file_path`, and sums them up per symbol. Lines that begin, white space
/// aside, with one of `comment_prefixes` are skipped. A symbol is used on a
/// line where its name stands as a whole word before an opening parenthesis,
/// a dot, a colon, an opening angle bracket or white space; every such line
/// counts once per symbol.
pub fn detect_usage_with_patterns(
    content: &str,
    file_path: &str,
    kmp_symbols: &[String],
    comment_prefixes: &[&str],
) -> (usages: StringMap<SymbolUsage>)
    ensures
        summarizes(
            usages,
            detected(content@, file_path@, texts(kmp_symbols@), str_texts(comment_prefixes@)),
        ),
        forall|name: Seq<char>|
            usages@.contains_key(name) <==> locations_of(
                detected(content@, file_path@, texts(kmp_symbols@), str_texts(comment_prefixes@)),
                name,
            ).len() > 0,
        forall|name: Seq<char>| #[trigger]
            usages@.contains_key(name) ==> usages@[name]@ == summary_of(
                detected(content@, file_path@, texts(kmp_symbols@), str_texts(comment_prefixes@)),
                name,
            ),
{
    let lines = lines_of(content);
    let found = find_occurrences(&lines, file_path, kmp_symbols, comment_prefixes);
    let usages = usage_statistics(&found);
    proof {
        lemma_summarizes(usages, usage_views(found@));
    }
    usages
}

/// What a platform knows of its files.
pub trait Platform: Send + Sync {
    /// The platform that this is.
    spec fn kind(&self) -> PlatformType;

    /// The platform that this is.
    fn platform_type(&self) -> (kind: PlatformType)
        ensures
            kind == self.kind(),
    ;

    /// The extensions of the platform's source files.
    fn file_extensions(&self) -> (extensions: Vec<&'static str>)
        ensures
            str_texts(extensions@) == self.kind().extensions(),
    ;

    /// The directories in which the platform's application code is looked for.
    fn app_directory_patterns(&self) -> (patterns: Vec<&'static str>)
        ensures
            str_texts(patterns@) == self.kind().app_directories(),
    ;

    /// Whether the file at `path` is a source file of the platform.
    fn is_platform_file(&self, path: &str) -> (yes: bool)
        ensures
            yes == self.kind().owns(path@),
    {
        let extensions = self.file_extensions();
        match extension_of(path) {
            Some(found) => {
                let mut i: usize = 0;
                while i < extensions.len()
                    invariant
                        i <= extensions.len(),
                        extension(path@) == Some(found@),
                        str_texts(extensions@) == self.kind().extensions(),
                        forall|j: int| 0 <= j < i ==> str_texts(extensions@)[j] != found@,
                    decreases extensions.len() - i,
                {
                    if same_text(extensions[i], found.as_str()) {
                        assert(str_texts(extensions@)[i as int] == found@);
                        return true;
                    }
                    i = i + 1;
                }
                false
            },
            None => false,
        }
    }

    /// The uses of `kmp_symbols` in `content`, the text of the file at
    /// `file_path`, summed up per symbol.
    fn detect_symbol_usage(&self, file_path: &str, content: &str, kmp_symbols: &[String]) -> (usages:
        StringMap<SymbolUsage>)
        ensures
            summarizes(
                usages,
                detected(content@, file_path@, texts(kmp_symbols@), self.kind().skipped_prefixes()),
            ),
    ;

    /// What `content` imports.
    fn extract_imports(&self, content: &str) -> (imports: Vec<String>)
        ensures
            texts(imports@) == self.kind().imports(content@),
    ;

    /// How many lines of `content` are code.
    fn count_code_lines(&self, content: &str) -> (count: usize)
        ensures
            count == code_lines(content@),
    ;
}

/// One of the known platforms, told apart by its tag.
pub enum RegisteredPlatform {
    Android(android::AndroidPlatform),
    IOS(ios::IOSPlatform),
}

impl Platform for RegisteredPlatform {
    open spec fn kind(&self) -> PlatformType {
        match self {
            RegisteredPlatform::Android(_) => PlatformType::Android,
            RegisteredPlatform::IOS(_) => PlatformType::IOS,
        }
    }

    fn platform_type(&self) -> (kind: PlatformType) {
        match self {
            RegisteredPlatform::Android(p) => p.platform_type(),
            RegisteredPlatform::IOS(p) => p.platform_type(),
        }
    }

    fn file_extensions(&self) -> (extensions: Vec<&'static str>) {
        match self {
            RegisteredPlatform::Android(p) => p.file_extensions(),
            RegisteredPlatform::IOS(p) => p.file_extensions(),
        }
    }

    fn app_directory_patterns(&self) -> (patterns: Vec<&'static str>) {
        match self {
            RegisteredPlatform::Android(p) => p.app_directory_patterns(),
            RegisteredPlatform::IOS(p) => p.app_directory_patterns(),
        }
    }

    fn detect_symbol_usage(&self, file_path: &str, content: &str, kmp_symbols: &[String]) -> (usages:
        StringMap<SymbolUsage>) {
        match self {
            RegisteredPlatform::Android(p) => p.detect_symbol_usage(file_path, content, kmp_symbols),
            RegisteredPlatform::IOS(p) => p.detect_symbol_usage(file_path, content, kmp_symbols),
        }
    }

    fn extract_imports(&self, content: &str) -> (imports: Vec<String>) {
        match self {
            RegisteredPlatform::Android(p) => p.extract_imports(content),
            RegisteredPlatform::IOS(p) => p.extract_imports(content),
        }
    }

    fn count_code_lines(&self, content: &str) -> (count: usize) {
        match self {
            RegisteredPlatform::Android(p) => p.count_code_lines(content),
            RegisteredPlatform::IOS(p) => p.count_code_lines(content),
        }
    }
}

/// The known platforms, each once: Android first, iOS second.
pub struct PlatformRegistry {
    platforms: Vec<RegisteredPlatform>,
}

impl PlatformRegistry {
    /// Android comes first, iOS second, and there is no third.
    #[verifier::type_invariant]
    pub closed spec fn inv(&self) -> bool {
        &&& self.platforms@.len() == 2
        &&& self.platforms@[0].kind() == PlatformType::Android
        &&& self.platforms@[1].kind() == PlatformType::IOS
    }

    /// The kinds of the registered platforms, in their order.
    pub closed spec fn kinds(&self) -> Seq<PlatformType> {
        Seq::new(self.platforms@.len(), |i: int| self.platforms@[i].kind())
    }

    /// A registry of Android and iOS.
    pub fn new() -> (registry: Self)
        ensures
            registry.kinds() == seq![PlatformType::Android, PlatformType::IOS],
    {
        let mut platforms: Vec<RegisteredPlatform> = Vec::new();
        platforms.push(RegisteredPlatform::Android(android::AndroidPlatform::new()));
        platforms.push(RegisteredPlatform::IOS(ios::IOSPlatform::new()));
        let registry = PlatformRegistry { platforms };
        assert(registry.kinds() =~= seq![PlatformType::Android, PlatformType::IOS]);
        registry
    }

    /// The registered platforms: Android, then iOS.
    pub fn get_all(&self) -> (all: &[RegisteredPlatform])
        ensures
            all@.len() == 2,
            all@[0].kind() == PlatformType::Android,
            all@[1].kind() == PlatformType::IOS,
    {
        proof {
            use_type_invariant(self);
        }
        self.platforms.as_slice()
    }

    /// The platform of the given kind; every kind is registered.
    pub fn get(&self, platform_type: PlatformType) -> (platform: Option<&RegisteredPlatform>)
        ensures
            platform matches Some(p) && p.kind() == platform_type,
    {
        let all = self.get_all();
        match platform_type {
            PlatformType::Android => Some(&all[0]),
            PlatformType::IOS => Some(&all[1]),
        }
    }

    /// The first platform, Android before iOS, that owns the file at `path`.
    pub open spec fn owner_of(path: Seq<char>) -> Option<PlatformType> {
        if PlatformType::Android.owns(path) {
            Some(PlatformType::Android)
        } else if PlatformType::IOS.owns(path) {
            Some(PlatformType::IOS)
        } else {
            None
        }
    }

    /// The platform that owns the file at `file_path`, going by its
    /// extension.
    pub fn detect_platform(&self, file_path: &str) -> (platform: Option<PlatformType>)
        ensures
            platform == Self::owner_of(file_path@),
    {
        let all = self.get_all();
        let mut i: usize = 0;
        while i < all.len()
            invariant
                i <= all@.len(),
                all@.len() == 2,
                all@[0].kind() == PlatformType::Android,
                all@[1].kind() == PlatformType::IOS,
                forall|j: int| 0 <= j < i ==> !(#[trigger] all@[j]).kind().owns(file_path@),
            decreases all@.len() - i,
        {
            if all[i].is_platform_file(file_path) {
                return Some(all[i].platform_type());
            }
            i = i + 1;
        }
        None
    }
}

} // verus!
