use kotlin_multiplatform_coverage::analyzer::dependency_graph::DependencyGraph;
use kotlin_multiplatform_coverage::domain::{Language, Platform, SourceFile};
use kotlin_multiplatform_coverage::file_set::FileSet;

fn kotlin_file(path: &str, content: &str) -> SourceFile {
    SourceFile {
        path: path.to_string(),
        platform: Platform::Android,
        language: Language::Kotlin,
        content: content.to_string(),
    }
}

#[test]
fn test_extract_package_name() {
    let graph = DependencyGraph::new();
    let package = graph.extract_package_name("package com.example.app\n");
    assert_eq!(package, "com.example.app");
}

#[test]
fn dependency_graph_test_extract_imports() {
    let graph = DependencyGraph::new();
    let imports =
        graph.extract_imports("import com.example.UserRepository\nimport com.example.User\n");
    assert_eq!(imports.len(), 2);
    assert!(imports.contains(&"com.example.UserRepository".to_string()));
}

#[test]
fn import_resolves_to_defining_file() {
    let mut graph = DependencyGraph::new();
    let files = vec![
        kotlin_file("X.kt", "package com.app\n\nimport com.example.Foo\n\nclass X\n"),
        kotlin_file("Y.kt", "package com.example\n\nclass Foo\n"),
    ];
    graph.build(&files);
    let forward = graph.get_all_dependencies("X.kt");
    assert_eq!(forward.to_vec(), vec!["Y.kt".to_string()]);
    let mut direct = FileSet::new();
    direct.insert("Y.kt".to_string());
    let reverse = graph.compute_transitive_impact(&direct);
    assert_eq!(reverse.to_vec(), vec!["X.kt".to_string()]);
    let stats = graph.get_stats();
    assert_eq!(stats.total_files, 2);
    assert_eq!(stats.total_edges, 1);
    assert_eq!(stats.max_dependencies, 1);
    assert_eq!(stats.max_dependents, 1);
}

#[test]
fn cycle_terminates_and_excludes_direct() {
    let mut graph = DependencyGraph::new();
    graph.register_declaration("p.A".to_string(), "A.kt".to_string());
    graph.register_declaration("p.B".to_string(), "B.kt".to_string());
    graph.register_declaration("p.C".to_string(), "C.kt".to_string());
    graph.link_imports("A.kt", &vec!["p.B".to_string()]);
    graph.link_imports("B.kt", &vec!["p.A".to_string()]);
    graph.link_imports("C.kt", &vec!["p.B".to_string()]);
    let mut direct = FileSet::new();
    direct.insert("A.kt".to_string());
    let impact = graph.compute_transitive_impact(&direct);
    assert_eq!(impact.to_vec(), vec!["B.kt".to_string(), "C.kt".to_string()]);
    assert!(!impact.contains("A.kt"));
    let mut direct_b = FileSet::new();
    direct_b.insert("B.kt".to_string());
    let impact_b = graph.compute_transitive_impact(&direct_b);
    assert_eq!(impact_b.to_vec(), vec!["A.kt".to_string(), "C.kt".to_string()]);
}

#[test]
fn two_file_cycle_returns_the_other_file() {
    let mut graph = DependencyGraph::new();
    graph.register_declaration("p.A".to_string(), "A.kt".to_string());
    graph.register_declaration("p.B".to_string(), "B.kt".to_string());
    graph.link_imports("A.kt", &vec!["p.B".to_string()]);
    graph.link_imports("B.kt", &vec!["p.A".to_string()]);
    let mut direct = FileSet::new();
    direct.insert("A.kt".to_string());
    let impact = graph.compute_transitive_impact(&direct);
    assert_eq!(impact.to_vec(), vec!["B.kt".to_string()]);
    let mut both = FileSet::new();
    both.insert("A.kt".to_string());
    both.insert("B.kt".to_string());
    assert!(graph.compute_transitive_impact(&both).is_empty());
    assert_eq!(graph.get_all_dependencies("A.kt").to_vec(), vec!["B.kt".to_string()]);
}

#[test]
fn impact_of_nothing_and_of_unknown_files_is_empty() {
    let mut graph = DependencyGraph::new();
    assert!(graph.compute_transitive_impact(&FileSet::new()).is_empty());
    graph.register_declaration("p.A".to_string(), "A.kt".to_string());
    graph.link_imports("B.kt", &vec!["p.A".to_string()]);
    let mut unknown = FileSet::new();
    unknown.insert("Z.kt".to_string());
    assert!(graph.compute_transitive_impact(&unknown).is_empty());
    assert!(graph.get_all_dependencies("Z.kt").is_empty());
    assert!(graph.get_all_dependencies("A.kt").is_empty());
}

#[test]
fn impact_follows_chains_of_imports() {
    let mut graph = DependencyGraph::new();
    for name in ["A", "B", "C", "D"] {
        graph.register_declaration(format!("p.{}", name), format!("{}.kt", name));
    }
    graph.link_imports("B.kt", &vec!["p.A".to_string()]);
    graph.link_imports("C.kt", &vec!["p.B".to_string()]);
    graph.link_imports("D.kt", &vec!["p.C".to_string(), "p.A".to_string()]);
    let mut direct = FileSet::new();
    direct.insert("A.kt".to_string());
    let impact = graph.compute_transitive_impact(&direct);
    assert_eq!(impact.to_vec(), vec!["B.kt".to_string(), "D.kt".to_string(), "C.kt".to_string()]);
    let all = graph.get_all_dependencies("D.kt");
    assert_eq!(all.to_vec(), vec!["C.kt".to_string(), "A.kt".to_string(), "B.kt".to_string()]);
    let stats = graph.get_stats();
    assert_eq!(stats.total_files, 3);
    assert_eq!(stats.total_edges, 4);
    assert_eq!(stats.max_dependencies, 2);
    assert_eq!(stats.max_dependents, 2);
}

#[test]
fn empty_graph_has_empty_stats() {
    let stats = DependencyGraph::new().get_stats();
    assert_eq!(stats.total_files, 0);
    assert_eq!(stats.total_edges, 0);
    assert_eq!(stats.max_dependencies, 0);
    assert_eq!(stats.max_dependents, 0);
}

#[test]
fn imports_resolve_exactly_before_by_prefix() {
    let mut graph = DependencyGraph::new();
    graph.register_declaration("com.example.FooBar".to_string(), "FooBar.kt".to_string());
    graph.register_declaration("com.example.Foo".to_string(), "Foo.kt".to_string());
    graph.register_declaration("org.other.Thing".to_string(), "Thing.kt".to_string());
    assert_eq!(graph.resolve_import("com.example.Foo"), Some("Foo.kt".to_string()));
    assert_eq!(graph.resolve_import("com.example.FooBar"), Some("FooBar.kt".to_string()));
    assert_eq!(graph.resolve_import("com.example"), Some("FooBar.kt".to_string()));
    assert_eq!(graph.resolve_import("com.example.Fo"), Some("FooBar.kt".to_string()));
    assert_eq!(graph.resolve_import("org"), Some("Thing.kt".to_string()));
    assert_eq!(graph.resolve_import(""), Some("FooBar.kt".to_string()));
    assert_eq!(graph.resolve_import("com.example.Foo.Inner"), None);
    assert_eq!(graph.resolve_import("net"), None);
    assert_eq!(DependencyGraph::new().resolve_import("com"), None);
}

#[test]
fn a_name_indexed_twice_keeps_its_place_and_gets_the_new_file() {
    let mut graph = DependencyGraph::new();
    graph.register_declaration("a.A".to_string(), "first.kt".to_string());
    graph.register_declaration("a.B".to_string(), "b.kt".to_string());
    graph.register_declaration("a.A".to_string(), "second.kt".to_string());
    assert_eq!(graph.resolve_import("a.A"), Some("second.kt".to_string()));
    assert_eq!(graph.resolve_import("a"), Some("second.kt".to_string()));
}

#[test]
fn unresolved_imports_add_no_edge() {
    let mut graph = DependencyGraph::new();
    let files = vec![
        kotlin_file("X.kt", "import kotlin.collections.List
import com.example.Foo
class X
"),
        kotlin_file("Y.kt", "package com.example
class Foo
"),
    ];
    graph.build(&files);
    assert_eq!(graph.get_all_dependencies("X.kt").to_vec(), vec!["Y.kt".to_string()]);
    let stats = graph.get_stats();
    assert_eq!(stats.total_files, 2);
    assert_eq!(stats.total_edges, 1);
}

#[test]
fn files_without_package_are_indexed_under_a_dot() {
    let mut graph = DependencyGraph::new();
    let files = vec![kotlin_file("Z.kt", "  interface Zed
")];
    graph.build(&files);
    assert_eq!(graph.resolve_import(".Zed"), Some("Z.kt".to_string()));
    assert_eq!(graph.extract_primary_class_name("  interface Zed
class Other
"), Some("Zed".to_string()));
    assert_eq!(graph.extract_primary_class_name("fun f() {}
"), None);
    assert_eq!(graph.extract_package_name("class A
"), "");
    assert_eq!(graph.extract_package_name("
package a.b
package c.d
"), "a.b");
}

#[test]
fn wildcard_import_resolves_to_first_indexed_file_of_the_package() {
    let mut graph = DependencyGraph::new();
    let files = vec![
        kotlin_file("A.kt", "package com.lib
class A
"),
        kotlin_file("B.kt", "package com.lib
class B
"),
        kotlin_file("Use.kt", "package app
import com.lib
class Use
"),
    ];
    graph.build(&files);
    assert_eq!(graph.get_all_dependencies("Use.kt").to_vec(), vec!["A.kt".to_string()]);
    let mut direct = FileSet::new();
    direct.insert("A.kt".to_string());
    assert_eq!(graph.compute_transitive_impact(&direct).to_vec(), vec!["Use.kt".to_string()]);
}
