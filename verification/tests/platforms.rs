use kotlin_multiplatform_coverage::adapters::platform_detector::PlatformDetector;
use kotlin_multiplatform_coverage::adapters::platforms::android::AndroidPlatform;
use kotlin_multiplatform_coverage::adapters::platforms::ios::IOSPlatform;
use kotlin_multiplatform_coverage::adapters::platforms::{
    count_lines_of_code, detect_usage_with_patterns, Platform, PlatformRegistry, PlatformType,
};
use kotlin_multiplatform_coverage::domain::{Language, Platform as Target};

#[test]
fn android_test_file_extensions() {
    let platform = AndroidPlatform::new();
    let extensions = platform.file_extensions();
    assert!(extensions.contains(&"kt"));
    assert!(extensions.contains(&"java"));
}

#[test]
fn test_detect_kotlin_usage() {
    let platform = AndroidPlatform::new();
    let symbols = vec!["UserRepository".to_string()];
    let usages =
        platform.detect_symbol_usage("Main.kt", "val repo = UserRepository()\n", &symbols);
    assert_eq!(usages.len(), 1);
    assert!(usages.contains_key("UserRepository"));
}

#[test]
fn test_detect_java_usage() {
    let platform = AndroidPlatform::new();
    let symbols = vec!["UserRepository".to_string()];
    let usages = platform.detect_symbol_usage(
        "Main.java",
        "UserRepository repo = new UserRepository();\n",
        &symbols,
    );
    assert_eq!(usages.len(), 1);
    assert!(usages.contains_key("UserRepository"));
}

#[test]
fn android_test_extract_imports() {
    let platform = AndroidPlatform::new();
    let imports =
        platform.extract_imports("import com.example.UserRepository\nimport com.example.User\n");
    assert_eq!(imports.len(), 2);
    assert!(imports.contains(&"com.example.UserRepository".to_string()));
}

#[test]
fn test_count_kotlin_lines() {
    let platform = AndroidPlatform::new();
    let content = "fun main() {\n    // comment\n    println(\"hello\")\n}\n";
    let lines = platform.count_code_lines(content);
    assert_eq!(lines, 3);
}

#[test]
fn ios_test_file_extensions() {
    let platform = IOSPlatform::new();
    let extensions = platform.file_extensions();
    assert!(extensions.contains(&"swift"));
    assert!(extensions.contains(&"m"));
}

#[test]
fn test_detect_swift_usage() {
    let platform = IOSPlatform::new();
    let symbols = vec!["UserRepository".to_string()];
    let usages =
        platform.detect_symbol_usage("View.swift", "let repo = UserRepository()\n", &symbols);
    assert_eq!(usages.len(), 1);
    assert!(usages.contains_key("UserRepository"));
}

#[test]
fn test_has_kmp_import() {
    let platform = IOSPlatform::new();
    let has_import = platform.has_kmp_import("import Shared\nimport SwiftUI\n");
    assert!(has_import);
}

#[test]
fn has_no_kmp_import_without_shared_framework() {
    let platform = IOSPlatform::new();
    assert!(!platform.has_kmp_import("import SwiftUI\nimport Foundation\n"));
    assert!(platform.has_kmp_import("import ComposeApp\n"));
    assert!(platform.has_kmp_import("import MyAppKMP\n"));
}

#[test]
fn test_extract_swift_imports() {
    let platform = IOSPlatform::new();
    let imports = platform.extract_imports("import Shared\nimport SwiftUI\n");
    assert_eq!(imports.len(), 2);
    assert!(imports.contains(&"Shared".to_string()));
    assert!(imports.contains(&"SwiftUI".to_string()));
}

#[test]
fn swift_imports_come_before_objc_imports() {
    let platform = IOSPlatform::new();
    let imports = platform.extract_imports("#import <UIKit/UIKit>\nimport Shared\n");
    assert_eq!(imports, vec!["Shared".to_string(), "UIKit/UIKit".to_string()]);
}

#[test]
fn test_count_swift_lines() {
    let platform = IOSPlatform::new();
    let content = "func main() {\n    // comment\n    print(\"hello\")\n}\n";
    let lines = platform.count_code_lines(content);
    assert_eq!(lines, 3);
}

#[test]
fn test_platform_registry() {
    let registry = PlatformRegistry::new();
    assert_eq!(registry.get_all().len(), 2);

    let android = registry.get(PlatformType::Android);
    assert!(android.is_some());

    let ios = registry.get(PlatformType::IOS);
    assert!(ios.is_some());
}

#[test]
fn test_detect_platform() {
    let registry = PlatformRegistry::new();

    let kt_path = "app/src/main/kotlin/MainActivity.kt";
    assert_eq!(registry.detect_platform(kt_path), Some(PlatformType::Android));

    let swift_path = "iosApp/ContentView.swift";
    assert_eq!(registry.detect_platform(swift_path), Some(PlatformType::IOS));
}

#[test]
fn registry_hands_out_the_platform_asked_for() {
    let registry = PlatformRegistry::new();
    assert_eq!(registry.get(PlatformType::Android).unwrap().platform_type(), PlatformType::Android);
    assert_eq!(registry.get(PlatformType::IOS).unwrap().platform_type(), PlatformType::IOS);
    assert_eq!(registry.get_all()[0].platform_type(), PlatformType::Android);
    assert_eq!(registry.get_all()[1].platform_type(), PlatformType::IOS);
    assert_eq!(PlatformType::Android.as_str(), "Android");
    assert_eq!(PlatformType::IOS.as_str(), "iOS");
}

#[test]
fn files_without_known_extension_have_no_platform() {
    let registry = PlatformRegistry::new();
    assert_eq!(registry.detect_platform("README.md"), None);
    assert_eq!(registry.detect_platform("Makefile"), None);
    assert_eq!(registry.detect_platform("dir.kt/Makefile"), None);
    assert_eq!(registry.detect_platform(".swift"), None);
    assert_eq!(registry.detect_platform("a/b/Header.h"), Some(PlatformType::IOS));
    assert_eq!(registry.detect_platform("build.gradle.kts"), Some(PlatformType::Android));
    let android = AndroidPlatform::new();
    assert!(android.is_platform_file("src/Main.java"));
    assert!(!android.is_platform_file("src/Main.swift"));
}

#[test]
fn app_directories_are_listed() {
    assert_eq!(
        AndroidPlatform::new().app_directory_patterns(),
        vec!["app/src", "android/src", "androidApp/src", "composeApp/src/androidMain"]
    );
    assert_eq!(
        IOSPlatform::new().app_directory_patterns(),
        vec!["iosApp", "iosApp/iosApp", "ios", "iOS", "composeApp/src/iosMain"]
    );
}

#[test]
fn usage_boundary_matching() {
    let symbols = vec!["User".to_string()];
    let prefixes = ["//", "/*", "*", "import "];
    for line in ["User(", "User.", "User:", "User<", "val x: User "] {
        let usages = detect_usage_with_patterns(line, "F.kt", &symbols, &prefixes);
        assert!(usages.contains_key("User"));
        assert_eq!(usages.get("User").unwrap().reference_count, 1);
    }
    let usages = detect_usage_with_patterns("val r = UserRepository()", "F.kt", &symbols, &prefixes);
    assert!(!usages.contains_key("User"));
    assert!(usages.is_empty());
}

#[test]
fn usage_at_end_of_line_needs_a_boundary() {
    let symbols = vec!["User".to_string()];
    let prefixes = ["//"];
    let usages = detect_usage_with_patterns("val x: User", "F.kt", &symbols, &prefixes);
    assert!(usages.is_empty());
    let usages = detect_usage_with_patterns("val x: User\n", "F.kt", &symbols, &prefixes);
    assert!(usages.is_empty());
    let usages = detect_usage_with_patterns("val x: User = y\n", "F.kt", &symbols, &prefixes);
    assert_eq!(usages.len(), 1);
}

#[test]
fn usages_carry_line_number_and_trimmed_context() {
    let symbols = vec!["Foo".to_string(), "bar".to_string()];
    let prefixes = ["//", "/*", "*", "import "];
    let content = "import a.Foo\n\n    val f = Foo()  \n// Foo()\n\tbar()\r\nFoo.x + bar(1)\n";
    let usages = detect_usage_with_patterns(content, "app/Main.kt", &symbols, &prefixes);
    assert_eq!(usages.len(), 2);
    let foo = usages.get("Foo").unwrap();
    assert_eq!(foo.symbol_name, "Foo");
    assert_eq!(foo.reference_count, 2);
    assert_eq!(foo.used_in_files.to_vec(), vec!["app/Main.kt".to_string()]);
    assert_eq!(foo.usage_lines.len(), 2);
    assert_eq!(foo.usage_lines[0].line, 3);
    assert_eq!(foo.usage_lines[0].context, "val f = Foo()");
    assert_eq!(foo.usage_lines[0].file, "app/Main.kt");
    assert_eq!(foo.usage_lines[1].line, 6);
    assert_eq!(foo.usage_lines[1].context, "Foo.x + bar(1)");
    let bar = usages.get("bar").unwrap();
    assert_eq!(bar.reference_count, 2);
    assert_eq!(bar.usage_lines[0].line, 5);
    assert_eq!(bar.usage_lines[0].context, "bar()");
    assert_eq!(bar.usage_lines[1].line, 6);
    assert_eq!(usages.key_at(0), "Foo");
    assert_eq!(usages.key_at(1), "bar");
}

#[test]
fn symbol_names_are_matched_literally() {
    let symbols = vec!["a.b".to_string(), "f(".to_string()];
    let prefixes: [&str; 0] = [];
    let usages = detect_usage_with_patterns("axb.c\n", "F.kt", &symbols, &prefixes);
    assert!(usages.is_empty());
    let usages = detect_usage_with_patterns("a.b.c\n", "F.kt", &symbols, &prefixes);
    assert_eq!(usages.len(), 1);
    assert!(usages.contains_key("a.b"));
}

#[test]
fn a_symbol_listed_twice_counts_twice() {
    let symbols = vec!["Foo".to_string(), "Foo".to_string()];
    let prefixes = ["//"];
    let usages = detect_usage_with_patterns("Foo()\n", "F.kt", &symbols, &prefixes);
    assert_eq!(usages.len(), 1);
    assert_eq!(usages.get("Foo").unwrap().reference_count, 2);
}

#[test]
fn lines_of_code_leave_out_blanks_and_comments() {
    let prefixes = ["//", "/*", "*"];
    assert_eq!(count_lines_of_code("", &prefixes), 0);
    assert_eq!(count_lines_of_code("\n\n   \n", &prefixes), 0);
    assert_eq!(count_lines_of_code("a\n/* b\n * c\n */\n  // d\ne", &prefixes), 2);
    assert_eq!(count_lines_of_code("a\r\n\r\nb\r\n", &prefixes), 2);
    assert_eq!(AndroidPlatform::count_kotlin_lines("val a = 1\n// x\n"), 1);
    assert_eq!(AndroidPlatform::count_java_lines("int a = 1;\n* x\n"), 1);
    assert_eq!(IOSPlatform::count_swift_lines("let a = 1\n/* x\n"), 1);
    assert_eq!(IOSPlatform::count_objc_lines("int a = 1;\n\n"), 1);
    assert!(AndroidPlatform::is_kotlin_comment("   // note"));
    assert!(AndroidPlatform::is_java_comment("/* note"));
    assert!(IOSPlatform::is_swift_comment(" * note"));
    assert!(!IOSPlatform::is_objc_comment("int a; // note"));
}

#[test]
fn platform_and_language_follow_the_path() {
    assert_eq!(PlatformDetector::detect_platform_from_path("x/android/Foo.swift"), Target::Android);
    assert_eq!(PlatformDetector::detect_platform_from_path("Foo.kt"), Target::Android);
    assert_eq!(PlatformDetector::detect_platform_from_path("Foo.java"), Target::Android);
    assert_eq!(PlatformDetector::detect_platform_from_path("iosApp/Foo.txt"), Target::IOS);
    assert_eq!(PlatformDetector::detect_platform_from_path("Foo.swift"), Target::IOS);
    assert_eq!(PlatformDetector::detect_platform_from_path("Foo.mm"), Target::IOS);
    assert_eq!(PlatformDetector::detect_platform_from_path("Foo.txt"), Target::Android);
    assert_eq!(PlatformDetector::detect_language("a.kt"), Language::Kotlin);
    assert_eq!(PlatformDetector::detect_language("a.kts"), Language::Kotlin);
    assert_eq!(PlatformDetector::detect_language("a.java"), Language::Java);
    assert_eq!(PlatformDetector::detect_language("a.swift"), Language::Swift);
    assert_eq!(PlatformDetector::detect_language("a.m"), Language::ObjectiveC);
    assert_eq!(PlatformDetector::detect_language("a.h"), Language::ObjectiveC);
    assert_eq!(PlatformDetector::detect_language("a.txt"), Language::Kotlin);
}

#[test]
fn a_carriage_return_belongs_to_the_line_ending_only_before_a_line_feed() {
    let symbols = vec!["a".to_string()];
    let prefixes: [&str; 0] = [];
    let used = |content: &str| !detect_usage_with_patterns(content, "F.kt", &symbols, &prefixes).is_empty();
    assert!(used("a\r"));
    assert!(!used("a\r\n"));
    assert!(used("a\r\r\n"));
    assert!(!used("a\n"));
    assert!(!used("a"));
    assert!(used("a \n"));
    let usages = detect_usage_with_patterns("x\n\n\na()\n", "F.kt", &symbols, &prefixes);
    assert_eq!(usages.get("a").unwrap().usage_lines[0].line, 4);
    let usages = detect_usage_with_patterns("x\r\n\r\na()", "F.kt", &symbols, &prefixes);
    assert_eq!(usages.get("a").unwrap().usage_lines[0].line, 3);
}
