use vstd::prelude::*;
use vstd::string::*;
use crate::adapters::platforms::{code_lines, Platform as PlatformRules, PlatformRegistry, PlatformType};
use crate::domain::entities::{Language, Platform, SourceFile};
use crate::text::{contains, ends_with, occurs_in};

verus! {

/// Tells what a file is from its path and counts its lines of code.
pub struct SourceFileRepositoryImpl {
    platform_registry: PlatformRegistry,
}

impl SourceFileRepositoryImpl {
    /// The platforms by whose rules lines are counted, in their order.
    pub closed spec fn platforms(&self) -> Seq<PlatformType> {
        self.platform_registry.kinds()
    }

    /// A repository over the known platforms, Android and iOS.
    pub fn new() -> (repository: Self)
        ensures
            repository.platforms() == seq![PlatformType::Android, PlatformType::IOS],
    {
        SourceFileRepositoryImpl { platform_registry: PlatformRegistry::new() }
    }

    /// The language of a file that is read, by the end of its path;
    /// Objective-C where the end says nothing.
    pub open spec fn language_of(path: Seq<char>) -> Language {
        if ".kt"@.is_suffix_of(path) || ".kts"@.is_suffix_of(path) {
            Language::Kotlin
        } else if ".java"@.is_suffix_of(path) {
            Language::Java
        } else if ".swift"@.is_suffix_of(path) {
            Language::Swift
        } else {
            Language::ObjectiveC
        }
    }

    /// The platform of a file that is read: Android where the path names it
    /// or ends like a Kotlin or Java file, else iOS.
    pub open spec fn platform_of(path: Seq<char>) -> Platform {
        if occurs_in(path, "android"@) || ".kt"@.is_suffix_of(path) || ".java"@.is_suffix_of(path) {
            Platform::Android
        } else {
            Platform::IOS
        }
    }

    /// The language of the file at `file_path`.
    pub fn detect_language(file_path: &str) -> (language: Language)
        ensures
            language == Self::language_of(file_path@),
    {
        if ends_with(file_path, ".kt") || ends_with(file_path, ".kts") {
            Language::Kotlin
        } else if ends_with(file_path, ".java") {
            Language::Java
        } else if ends_with(file_path, ".swift") {
            Language::Swift
        } else {
            Language::ObjectiveC
        }
    }

    /// The platform as the analysis knows it.
    pub fn convert_platform(platform_type: &PlatformType) -> (platform: Platform)
        ensures
            platform == match *platform_type {
                PlatformType::Android => Platform::Android,
                PlatformType::IOS => Platform::IOS,
            },
    {
        match platform_type {
            PlatformType::Android => Platform::Android,
            PlatformType::IOS => Platform::IOS,
        }
    }

    /// The file at `file_path` with the text `content` that was read from it.
    pub fn source_file(&self, file_path: &str, content: String) -> (file: SourceFile)
        ensures
            file.path@ == file_path@,
            file.content@ == content@,
            file.language == Self::language_of(file_path@),
            file.platform == Self::platform_of(file_path@),
    {
        let language = Self::detect_language(file_path);
        let platform = if contains(file_path, "android") || ends_with(file_path, ".kt") || ends_with(
            file_path,
            ".java",
        ) {
            Platform::Android
        } else {
            Platform::IOS
        };
        SourceFile { path: file_path.to_owned(), platform, language, content }
    }

    /// The lines of code in `content`, counted as `platform` counts them.
    pub fn count_code_lines(&self, content: &str, platform: Platform) -> (count: usize)
        ensures
            count == code_lines(content@),
    {
        let platform_type = match platform {
            Platform::Android => PlatformType::Android,
            Platform::IOS => PlatformType::IOS,
        };
        match self.platform_registry.get(platform_type) {
            Some(rules) => rules.count_code_lines(content),
            None => 0,
        }
    }
}

} // verus!
