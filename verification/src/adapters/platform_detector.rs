use vstd::prelude::*;
use crate::domain::entities::{Language, Platform};
use crate::text::{contains, ends_with, occurs_in};

verus! {

/// Tells platform and language of a file from its path.
pub struct PlatformDetector {}

impl PlatformDetector {
    /// The platform of the file at `path`: Android where the path names it or
    /// ends like a Kotlin or Java file, else iOS where the path names that or
    /// ends like a Swift or Objective-C file, else Android.
    pub open spec fn platform_of(path: Seq<char>) -> Platform {
        if occurs_in(path, "android"@) || occurs_in(path, "androidApp"@) || ".kt"@.is_suffix_of(path)
            || ".java"@.is_suffix_of(path) {
            Platform::Android
        } else if occurs_in(path, "ios"@) || occurs_in(path, "iosApp"@) || ".swift"@.is_suffix_of(
            path,
        ) || ".m"@.is_suffix_of(path) || ".mm"@.is_suffix_of(path) {
            Platform::IOS
        } else {
            Platform::Android
        }
    }

    /// The language of the file at `path`, by the end of the path; Kotlin
    /// where the end says nothing.
    pub open spec fn language_of(path: Seq<char>) -> Language {
        if ".kt"@.is_suffix_of(path) || ".kts"@.is_suffix_of(path) {
            Language::Kotlin
        } else if ".java"@.is_suffix_of(path) {
            Language::Java
        } else if ".swift"@.is_suffix_of(path) {
            Language::Swift
        } else if ".m"@.is_suffix_of(path) || ".mm"@.is_suffix_of(path) || ".h"@.is_suffix_of(path) {
            Language::ObjectiveC
        } else {
            Language::Kotlin
        }
    }

    /// The platform of the file at `file_path`.
    pub fn detect_platform_from_path(file_path: &str) -> (platform: Platform)
        ensures
            platform == Self::platform_of(file_path@),
    {
        if contains(file_path, "android") || contains(file_path, "androidApp") || ends_with(
            file_path,
            ".kt",
        ) || ends_with(file_path, ".java") {
            Platform::Android
        } else if contains(file_path, "ios") || contains(file_path, "iosApp") || ends_with(
            file_path,
            ".swift",
        ) || ends_with(file_path, ".m") || ends_with(file_path, ".mm") {
            Platform::IOS
        } else {
            Platform::Android
        }
    }

    /// The language of the file at `file_path`.
    pub fn detect_language(file_path: &str) -> (language: Language)
        ensures
            language == Self::language_of(file_path@),
    {
        if ends_with(file_path, ".kt") || ends_with(file_path, ".kts") {
            Language::Kotlin
        } else if ends_with(file_path, ".java") {
            Language::Java
        } else if ends_with(file_path, ".swift") {
            Language::Swift
        } else if ends_with(file_path, ".m") || ends_with(file_path, ".mm") || ends_with(
            file_path,
            ".h",
        ) {
            Language::ObjectiveC
        } else {
            Language::Kotlin
        }
    }
}

} // verus!
