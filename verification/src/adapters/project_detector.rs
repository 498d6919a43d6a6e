//! What tells the kinds of project apart: the marks in build files and the
//! places and extensions of source files. Walking the directories is left to
//! the caller.

use vstd::prelude::*;
use crate::analyzer::usage_detector::str_texts;
use crate::text::{contains, ends_with, extension, extension_of, occurs_in, same_text, texts};

verus! {

/// The kinds of project that are told apart.
#[derive(Debug, Clone, Copy, PartialEq, Eq, Structural)]
pub enum ProjectType {
    KotlinMultiplatform,
    Android,
    IOS,
}

impl ProjectType {
    /// The extensions of the project's source files.
    pub open spec fn extensions(self) -> Seq<Seq<char>> {
        match self {
            ProjectType::KotlinMultiplatform => seq!["kt"@, "kts"@],
            ProjectType::Android => seq!["kt"@, "kts"@, "java"@],
            ProjectType::IOS => seq!["swift"@, "m"@, "mm"@, "h"@],
        }
    }
}

/// A project that was found: its kind, its root and the directories that
/// hold its sources.
#[derive(Debug)]
pub struct DetectedProject {
    pub project_type: ProjectType,
    pub root_path: String,
    pub source_dirs: Vec<String>,
}

impl Clone for DetectedProject {
    fn clone(&self) -> (copy: Self)
        ensures
            copy.project_type == self.project_type,
            copy.root_path@ == self.root_path@,
            texts(copy.source_dirs@) == texts(self.source_dirs@),
    {
        let mut source_dirs: Vec<String> = Vec::new();
        let mut i: usize = 0;
        while i < self.source_dirs.len()
            invariant
                i <= self.source_dirs.len(),
                texts(source_dirs@) == texts(self.source_dirs@).take(i as int),
            decreases self.source_dirs.len() - i,
        {
            proof {
                crate::text::lemma_texts_push(source_dirs@, self.source_dirs@[i as int]);
            }
            source_dirs.push(self.source_dirs[i].clone());
            assert(texts(source_dirs@) =~= texts(self.source_dirs@).take(i + 1));
            i = i + 1;
        }
        assert(texts(self.source_dirs@).take(i as int) =~= texts(self.source_dirs@));
        DetectedProject {
            project_type: self.project_type,
            root_path: self.root_path.clone(),
            source_dirs,
        }
    }
}

/// The text of a build file names the multiplatform plugin or one of the
/// source sets of a multiplatform project.
pub open spec fn is_kmp_build_text(content: Seq<char>) -> bool {
    occurs_in(content, "kotlin(\"multiplatform\")"@) || occurs_in(content, "kotlin-multiplatform"@)
        || occurs_in(content, "org.jetbrains.kotlin.multiplatform"@) || occurs_in(
        content,
        "commonMain"@,
    ) || occurs_in(content, "androidMain"@) || occurs_in(content, "iosMain"@) || occurs_in(
        content,
        "sourceSets"@,
    )
}

/// The text of a build file names an Android plugin or opens an `android`
/// block.
pub open spec fn is_android_build_text(content: Seq<char>) -> bool {
    occurs_in(content, "com.android.application"@) || occurs_in(content, "com.android.library"@)
        || occurs_in(content, "android {"@)
}

/// How deep below the root build files and manifests are looked for.
pub const BUILD_FILE_DEPTH: usize = 5;

/// How deep below the root the directories of a shared module are looked for.
pub const MODULE_DEPTH: usize = 3;

/// How deep below the root the project files of Xcode are looked for.
pub const XCODE_PROJECT_DEPTH: usize = 4;

/// How deep below a directory source files are looked for to call it a
/// source directory.
pub const SOURCE_FILE_DEPTH: usize = 10;

/// The position of the first `true`, if there is one.
pub open spec fn first_true(flags: Seq<bool>) -> Option<int>
    decreases flags.len(),
{
    if flags.len() == 0 {
        None
    } else {
        match first_true(flags.drop_last()) {
            Some(i) => Some(i),
            None => if flags.last() {
                Some(flags.len() - 1)
            } else {
                None
            },
        }
    }
}

/// Which of the directories above a manifest is the root of its project,
/// given for each of them, the nearest first, whether it holds a build file:
/// the first that holds one, else the last of them; none where there is no
/// directory above.
pub open spec fn chosen_root(has_build_file: Seq<bool>) -> Option<int> {
    match first_true(has_build_file) {
        Some(i) => Some(i),
        None => if has_build_file.len() > 0 {
            Some(has_build_file.len() - 1)
        } else {
            None
        },
    }
}

/// A `true` that is the first among some of the flags is the first among all.
pub proof fn lemma_first_true_stays(flags: Seq<bool>, upto: int)
    requires
        0 <= upto <= flags.len(),
        first_true(flags.take(upto)) is Some,
    ensures
        first_true(flags) == first_true(flags.take(upto)),
    decreases flags.len() - upto,
{
    if upto < flags.len() {
        assert(flags.take(upto + 1).drop_last() =~= flags.take(upto));
        lemma_first_true_stays(flags, upto + 1);
    } else {
        assert(flags.take(upto) =~= flags);
    }
}

/// Tells the kinds of project apart.
pub struct ProjectDetector {}

impl ProjectDetector {
    /// Whether `name`, the last component of a path, is that of a Gradle
    /// build file.
    pub fn is_build_file(name: &str) -> (yes: bool)
        ensures
            yes == (name@ == "build.gradle.kts"@ || name@ == "build.gradle"@),
    {
        same_text(name, "build.gradle.kts") || same_text(name, "build.gradle")
    }

    /// Whether `name` is that of the manifest of an Android module.
    pub fn is_android_manifest(name: &str) -> (yes: bool)
        ensures
            yes == (name@ == "AndroidManifest.xml"@),
    {
        same_text(name, "AndroidManifest.xml")
    }

    /// Whether `name` is that of a project or workspace of Xcode.
    pub fn is_xcode_project(name: &str) -> (yes: bool)
        ensures
            yes == (".xcodeproj"@.is_suffix_of(name@) || ".xcworkspace"@.is_suffix_of(name@)),
    {
        ends_with(name, ".xcodeproj") || ends_with(name, ".xcworkspace")
    }

    /// Whether `name` is that of the directory of a shared module.
    pub fn is_shared_module(name: &str) -> (yes: bool)
        ensures
            yes == (name@ == "shared"@),
    {
        same_text(name, "shared")
    }

    /// Whether `name` is that of a directory that holds shared sources.
    pub fn is_shared_source_dir(name: &str) -> (yes: bool)
        ensures
            yes == (name@ == "commonMain"@ || name@ == "kotlin"@),
    {
        same_text(name, "commonMain") || same_text(name, "kotlin")
    }

    /// Which of the directories above a manifest is the root of its project:
    /// see `chosen_root`. At most the three nearest directories are to be
    /// given.
    pub fn project_root_among(has_build_file: &[bool]) -> (root: Option<usize>)
        ensures
            match root {
                Some(i) => chosen_root(has_build_file@) == Some(i as int) && i < has_build_file@.len(),
                None => chosen_root(has_build_file@) is None && has_build_file@.len() == 0,
            },
    {
        let mut i: usize = 0;
        assert(has_build_file@.take(0) =~= Seq::<bool>::empty());
        while i < has_build_file.len()
            invariant
                i <= has_build_file.len(),
                first_true(has_build_file@.take(i as int)) is None,
            decreases has_build_file.len() - i,
        {
            proof {
                assert(has_build_file@.take(i + 1).drop_last() =~= has_build_file@.take(i as int));
            }
            if has_build_file[i] {
                proof {
                    lemma_first_true_stays(has_build_file@, i + 1);
                }
                return Some(i);
            }
            i = i + 1;
        }
        assert(has_build_file@.take(i as int) =~= has_build_file@);
        if has_build_file.len() > 0 {
            Some(has_build_file.len() - 1)
        } else {
            None
        }
    }

    /// Whether the text of a build file is that of a multiplatform project.
    pub fn is_kmp_gradle_file(content: &str) -> (yes: bool)
        ensures
            yes == is_kmp_build_text(content@),
    {
        let has_multiplatform = contains(content, "kotlin(\"multiplatform\")") || contains(
            content,
            "kotlin-multiplatform",
        ) || contains(content, "org.jetbrains.kotlin.multiplatform");
        let has_kmp_config = contains(content, "commonMain") || contains(content, "androidMain")
            || contains(content, "iosMain") || contains(content, "sourceSets");
        has_multiplatform || has_kmp_config
    }

    /// Whether the text of a build file is that of an Android project.
    pub fn is_android_gradle_file(content: &str) -> (yes: bool)
        ensures
            yes == is_android_build_text(content@),
    {
        contains(content, "com.android.application") || contains(content, "com.android.library")
            || contains(content, "android {")
    }

    /// The directories, below a project's root, that hold the sources of a
    /// multiplatform project.
    pub fn kmp_source_sets() -> (sets: Vec<&'static str>)
        ensures
            sets@.len() == 14,
    {
        vec![
            "commonMain/kotlin",
            "commonMain",
            "androidMain/kotlin",
            "androidMain",
            "iosMain/kotlin",
            "iosMain",
            "commonTest/kotlin",
            "commonTest",
            "src/commonMain/kotlin",
            "src/commonMain",
            "src/androidMain/kotlin",
            "src/androidMain",
            "src/iosMain/kotlin",
            "src/iosMain",
        ]
    }

    /// The directories, below a project's root, that hold the sources of an
    /// Android project.
    pub fn android_source_patterns() -> (patterns: Vec<&'static str>)
        ensures
            patterns@.len() == 10,
    {
        vec![
            "src/main/java",
            "src/main/kotlin",
            "src/main",
            "app/src/main/java",
            "app/src/main/kotlin",
            "app/src/main",
            "android/src/main/java",
            "android/src/main/kotlin",
            "androidApp/src/main/java",
            "androidApp/src/main/kotlin",
        ]
    }

    /// The names of the directories that hold an iOS application.
    pub fn ios_dir_names() -> (names: Vec<&'static str>)
        ensures
            str_texts(names@) == seq!["iosApp"@, "iOS"@, "ios"@],
    {
        let names = vec!["iosApp", "iOS", "ios"];
        assert(str_texts(names@) =~= seq!["iosApp"@, "iOS"@, "ios"@]);
        names
    }

    /// The extensions of the source files of a project of the given kind.
    pub fn source_extensions(project_type: ProjectType) -> (extensions: Vec<&'static str>)
        ensures
            str_texts(extensions@) == project_type.extensions(),
    {
        let extensions = match project_type {
            ProjectType::KotlinMultiplatform => vec!["kt", "kts"],
            ProjectType::Android => vec!["kt", "kts", "java"],
            ProjectType::IOS => vec!["swift", "m", "mm", "h"],
        };
        assert(str_texts(extensions@) =~= project_type.extensions());
        extensions
    }

    /// Whether the file at `path` has one of the given extensions.
    pub fn has_extension(path: &str, extensions: &[&str]) -> (yes: bool)
        ensures
            yes == match extension(path@) {
                Some(e) => str_texts(extensions@).contains(e),
                None => false,
            },
    {
        match extension_of(path) {
            Some(found) => {
                let mut i: usize = 0;
                while i < extensions.len()
                    invariant
                        i <= extensions.len(),
                        extension(path@) == Some(found@),
                        forall|j: int| 0 <= j < i ==> str_texts(extensions@)[j] != found@,
                    decreases extensions.len() - i,
                {
                    if same_text(extensions[i], found.as_str()) {
                        assert(str_texts(extensions@)[i as int] == found@);
                        return true;
                    }
                    i = i + 1;
                }
                false
            },
            None => false,
        }
    }

    /// Whether the file at `path` is a source file of `project`, by its
    /// extension.
    pub fn is_source_file(project: &DetectedProject, path: &str) -> (yes: bool)
        ensures
            yes == match extension(path@) {
                Some(e) => project.project_type.extensions().contains(e),
                None => false,
            },
    {
        let extensions = Self::source_extensions(project.project_type);
        Self::has_extension(path, extensions.as_slice())
    }
}

} // verus!
