use std::sync::Mutex;

use kotlin_multiplatform_coverage::adapters::{
    DependencyRepositoryImpl, SourceFileRepositoryImpl, SymbolRepositoryImpl,
    SymbolUsageRepositoryImpl,
};
use kotlin_multiplatform_coverage::domain::{
    AnalysisError, DependencyRepository, ImpactRatio, Platform, PlatformFiles, SourceFile,
    SourceFileRepository, Symbol, SymbolRepository, SymbolUsageRepository,
};
use kotlin_multiplatform_coverage::use_cases::AnalyzeImpactUseCase;

const USER_KT: &str = r#"
package com.example

data class User(
    val id: String,
    val name: String,
    val email: String
)

interface UserRepository {
    fun getUser(id: String): User?
    fun saveUser(user: User)
}

class UserRepositoryImpl : UserRepository {
    private val users = mutableMapOf<String, User>()

    override fun getUser(id: String): User? = users[id]
    override fun saveUser(user: User) {
        users[user.id] = user
    }
}
"#;

const UTILS_KT: &str = r#"
package com.example

object Logger {
    fun log(message: String) {
        println(message)
    }
}

fun formatUserName(user: User): String {
    return "${user.name} <${user.email}>"
}
"#;

const MAIN_ACTIVITY_KT: &str = r#"
package com.example.android

import com.example.User
import com.example.UserRepository
import com.example.UserRepositoryImpl
import com.example.Logger
import com.example.formatUserName

class MainActivity {
    private val repository: UserRepository = UserRepositoryImpl()

    fun createUser() {
        val user = User("1", "John Doe", "john@example.com")
        repository.saveUser(user)
        Logger.log("User created: ${formatUserName(user)}")
    }

    fun loadUser(id: String) {
        val user = repository.getUser(id)
        if (user != null) {
            Logger.log("Found user: ${user.name}")
        }
    }
}
"#;

const USER_ADAPTER_KT: &str = r#"
package com.example.android

import com.example.User

class UserAdapter {
    fun displayUser(user: User) {
        println("User: ${user.name}")
    }
}
"#;

const CONTENT_VIEW_SWIFT: &str = r#"
import SwiftUI
import Shared

struct ContentView: View {
    let repository = UserRepositoryImpl()

    var body: some View {
        VStack {
            Text("KMP Demo")
                .padding()
            Button("Create User") {
                createUser()
            }
        }
    }

    func createUser() {
        let user = User(id: "1", name: "Jane Doe", email: "jane@example.com")
        repository.saveUser(user: user)
        Logger.shared.log(message: "User created")
    }
}
"#;

const USER_VIEW_MODEL_SWIFT: &str = r#"
import Foundation
import Shared

class UserViewModel: ObservableObject {
    private let repository: UserRepository = UserRepositoryImpl()
    @Published var user: User?

    func loadUser(id: String) {
        user = repository.getUser(id: id)
        if let user = user {
            Logger.shared.log(message: "Loaded: \(user.name)")
        }
    }
}
"#;

/// A project held in memory: the files that a walk of its directories
/// yields, with their texts.
struct Project {
    texts: Vec<(String, String)>,
    kmp_files: Vec<String>,
    android_files: Vec<String>,
    ios_files: Vec<String>,
}

fn create_test_kmp_project() -> Project {
    let user = "shared/src/commonMain/kotlin/com/example/User.kt".to_string();
    let utils = "shared/src/commonMain/kotlin/com/example/Utils.kt".to_string();
    let main = "app/src/main/java/com/example/android/MainActivity.kt".to_string();
    let adapter = "app/src/main/java/com/example/android/UserAdapter.kt".to_string();
    let view = "iosApp/iosApp/ContentView.swift".to_string();
    let model = "iosApp/iosApp/UserViewModel.swift".to_string();
    Project {
        texts: vec![
            (user.clone(), USER_KT.to_string()),
            (utils.clone(), UTILS_KT.to_string()),
            (main.clone(), MAIN_ACTIVITY_KT.to_string()),
            (adapter.clone(), USER_ADAPTER_KT.to_string()),
            (view.clone(), CONTENT_VIEW_SWIFT.to_string()),
            (model.clone(), USER_VIEW_MODEL_SWIFT.to_string()),
        ],
        kmp_files: vec![user, utils],
        android_files: vec![main, adapter],
        ios_files: vec![view, model],
    }
}

fn text_of(project: &Project, path: &str) -> Result<String, AnalysisError> {
    project
        .texts
        .iter()
        .find(|(known, _)| known == path)
        .map(|(_, text)| text.clone())
        .ok_or_else(|| AnalysisError::Unreadable(path.to_string()))
}

struct MemorySourceFiles<'a> {
    project: &'a Project,
    rules: SourceFileRepositoryImpl,
}

impl<'a> SourceFileRepository for MemorySourceFiles<'a> {
    fn find_kmp_files(&self, _project_path: &str) -> Result<Vec<String>, AnalysisError> {
        Ok(self.project.kmp_files.clone())
    }

    fn find_app_files(&self, _project_path: &str) -> Result<PlatformFiles, AnalysisError> {
        let mut files = PlatformFiles::new();
        if !self.project.android_files.is_empty() {
            files.insert(Platform::Android, self.project.android_files.clone());
        }
        if !self.project.ios_files.is_empty() {
            files.insert(Platform::IOS, self.project.ios_files.clone());
        }
        Ok(files)
    }

    fn read_source_file(&self, file_path: &str) -> Result<SourceFile, AnalysisError> {
        let content = text_of(self.project, file_path)?;
        Ok(self.rules.source_file(file_path, content))
    }

    fn count_code_lines(&self, content: &str, platform: Platform) -> usize {
        self.rules.count_code_lines(content, platform)
    }
}

struct MemorySymbols<'a> {
    project: &'a Project,
    extractor: SymbolRepositoryImpl,
    rules: SourceFileRepositoryImpl,
}

impl<'a> SymbolRepository for MemorySymbols<'a> {
    fn extract_kmp_symbols(&self, kmp_file_paths: &[String]) -> Result<Vec<Symbol>, AnalysisError> {
        let mut files = Vec::new();
        for path in kmp_file_paths {
            files.push(self.rules.source_file(path, text_of(self.project, path)?));
        }
        Ok(self.extractor.extract_kmp_symbols(&files))
    }
}

struct MemoryDependencies<'a> {
    project: &'a Project,
    graph: Mutex<DependencyRepositoryImpl>,
    rules: SourceFileRepositoryImpl,
}

impl<'a> DependencyRepository for MemoryDependencies<'a> {
    fn build_dependency_graph(&self, file_paths: &[String]) -> Result<(), AnalysisError> {
        let mut files = Vec::new();
        for path in file_paths {
            files.push(self.rules.source_file(path, text_of(self.project, path)?));
        }
        self.graph.lock().unwrap().build_dependency_graph(&files);
        Ok(())
    }

    fn calculate_transitive_dependencies(
        &self,
        direct_files: &[String],
    ) -> Result<Vec<String>, AnalysisError> {
        Ok(self.graph.lock().unwrap().calculate_transitive_dependencies(direct_files))
    }

    fn extract_imports(&self, source_file: &SourceFile) -> Result<Vec<String>, AnalysisError> {
        Ok(self.graph.lock().unwrap().extract_imports(source_file))
    }
}

fn symbols_of(project: &Project) -> MemorySymbols<'_> {
    MemorySymbols {
        project,
        extractor: SymbolRepositoryImpl::new(),
        rules: SourceFileRepositoryImpl::new(),
    }
}

fn source_files_of(project: &Project) -> MemorySourceFiles<'_> {
    MemorySourceFiles { project, rules: SourceFileRepositoryImpl::new() }
}

fn dependencies_of(project: &Project) -> MemoryDependencies<'_> {
    MemoryDependencies {
        project,
        graph: Mutex::new(DependencyRepositoryImpl::new()),
        rules: SourceFileRepositoryImpl::new(),
    }
}

fn value_of(ratio: ImpactRatio) -> f64 {
    if ratio.total > 0 {
        ratio.affected as f64 / ratio.total as f64
    } else {
        0.0
    }
}

#[test]
fn test_end_to_end_impact_analysis() {
    let project = create_test_kmp_project();
    let symbol_repo = symbols_of(&project);
    let source_file_repo = source_files_of(&project);
    let symbol_usage_repo = SymbolUsageRepositoryImpl::new();
    let dependency_repo = dependencies_of(&project);

    let analyze_use_case = AnalyzeImpactUseCase::new(
        &symbol_repo,
        &source_file_repo,
        &symbol_usage_repo,
        &dependency_repo,
    );

    let impact_analysis = analyze_use_case.execute("project").unwrap();

    assert!(impact_analysis.total_symbols > 0, "Should find KMP symbols");
    assert!(!impact_analysis.affected_files.is_empty(), "Should find affected files");
    assert!(value_of(impact_analysis.impact_ratio) > 0.0, "Should have positive impact ratio");

    assert!(
        impact_analysis.platform_impacts.contains_key("Android"),
        "Should have Android platform data"
    );
    assert!(impact_analysis.platform_impacts.contains_key("iOS"), "Should have iOS platform data");

    let android_impact = impact_analysis.platform_impacts.get("Android").unwrap();
    assert!(android_impact.total_files > 0, "Android should have files");
    assert!(android_impact.affected_lines > 0, "Android should have affected lines");

    let ios_impact = impact_analysis.platform_impacts.get("iOS").unwrap();
    assert!(ios_impact.total_files > 0, "iOS should have files");
    assert!(ios_impact.affected_lines > 0, "iOS should have affected lines");

    assert!(!impact_analysis.symbol_usages.is_empty(), "Should track symbol usages");

    let mut symbol_names: Vec<String> = Vec::new();
    for i in 0..impact_analysis.symbol_usages.len() {
        symbol_names.push(impact_analysis.symbol_usages.key_at(i).clone());
    }
    assert!(symbol_names.iter().any(|s| s.contains("User")), "Should detect User symbol usage");

    assert_eq!(impact_analysis.total_symbols, 10);
    assert_eq!(impact_analysis.total_app_files, 4);
    assert_eq!(android_impact.total_files, 2);
    assert_eq!(android_impact.total_lines, 27);
    assert_eq!(android_impact.affected_lines, 20);
    assert_eq!(android_impact.impact_ratio, ImpactRatio { affected: 20, total: 27 });
    assert_eq!(
        android_impact.affected_files.to_vec(),
        vec!["app/src/main/java/com/example/android/MainActivity.kt".to_string()]
    );
    assert_eq!(android_impact.top_symbols[0], ("Logger".to_string(), 2));
    assert_eq!(android_impact.top_symbols[1], ("log".to_string(), 2));
    assert_eq!(android_impact.top_symbols[2], ("UserRepositoryImpl".to_string(), 1));
    assert_eq!(android_impact.top_symbols.len(), 8);
    assert_eq!(ios_impact.total_files, 2);
    assert_eq!(ios_impact.total_lines, 31);
    assert_eq!(ios_impact.affected_lines, 31);
    assert_eq!(ios_impact.top_symbols[0], ("id".to_string(), 3));
    assert_eq!(impact_analysis.total_app_lines, 58);
    assert_eq!(impact_analysis.affected_lines, 51);
    assert_eq!(impact_analysis.impact_ratio, ImpactRatio { affected: 51, total: 58 });
    assert_eq!(impact_analysis.affected_files.len(), 3);
    assert_eq!(impact_analysis.total_app_lines, android_impact.total_lines + ios_impact.total_lines);
    assert_eq!(
        impact_analysis.affected_lines,
        android_impact.affected_lines + ios_impact.affected_lines
    );
    assert_eq!(impact_analysis.platform_impacts.key_at(0), "Android");
    assert_eq!(impact_analysis.platform_impacts.key_at(1), "iOS");
}

#[test]
fn test_symbol_extraction() {
    let project = create_test_kmp_project();
    let symbol_repo = symbols_of(&project);
    let source_file_repo = source_files_of(&project);

    let kmp_files = source_file_repo.find_kmp_files("project").unwrap();
    assert!(!kmp_files.is_empty(), "Should find KMP files");

    let symbols = symbol_repo.extract_kmp_symbols(&kmp_files).unwrap();
    assert!(symbols.len() > 0, "Should extract symbols");

    let symbol_names: Vec<String> = symbols.iter().map(|s| s.name.clone()).collect();
    let has_user_related = symbol_names.iter().any(|s| s.contains("User"));
    assert!(has_user_related, "Should find User-related symbols, found: {:?}", symbol_names);
    assert_eq!(
        symbol_names,
        vec![
            "UserRepositoryImpl",
            "UserRepository",
            "getUser",
            "saveUser",
            "id",
            "name",
            "email",
            "Logger",
            "log",
            "formatUserName"
        ]
    );
    for symbol in &symbols {
        assert_eq!(symbol.module, "shared");
    }
}

#[test]
fn test_usage_detection_accuracy() {
    let project = create_test_kmp_project();
    let symbol_repo = symbols_of(&project);
    let source_file_repo = source_files_of(&project);
    let symbol_usage_repo = SymbolUsageRepositoryImpl::new();

    let kmp_files = source_file_repo.find_kmp_files("project").unwrap();
    let symbols = symbol_repo.extract_kmp_symbols(&kmp_files).unwrap();
    let app_files = source_file_repo.find_app_files("project").unwrap();

    let android_files = app_files.get(Platform::Android).unwrap();
    let mut seen = Vec::new();
    for file_path in android_files {
        let source_file = source_file_repo.read_source_file(file_path).unwrap();
        let usages = symbol_usage_repo.detect_symbol_usage(&source_file, &symbols).unwrap();
        for usage in &usages {
            assert_eq!(&usage.file_path, file_path);
            seen.push((usage.symbol_name.clone(), usage.line_number));
        }
    }
    assert_eq!(
        seen,
        vec![
            ("UserRepositoryImpl".to_string(), 11),
            ("UserRepository".to_string(), 11),
            ("saveUser".to_string(), 15),
            ("Logger".to_string(), 16),
            ("Logger".to_string(), 22),
            ("log".to_string(), 16),
            ("log".to_string(), 22),
            ("formatUserName".to_string(), 16),
            ("id".to_string(), 19),
            ("getUser".to_string(), 20),
        ]
    );
}

#[test]
fn test_impact_ratio_calculation() {
    let project = create_test_kmp_project();
    let symbol_repo = symbols_of(&project);
    let source_file_repo = source_files_of(&project);
    let symbol_usage_repo = SymbolUsageRepositoryImpl::new();
    let dependency_repo = dependencies_of(&project);

    let analyze_use_case = AnalyzeImpactUseCase::new(
        &symbol_repo,
        &source_file_repo,
        &symbol_usage_repo,
        &dependency_repo,
    );

    let impact_analysis = analyze_use_case.execute("project").unwrap();

    let overall = value_of(impact_analysis.impact_ratio);
    assert!(overall >= 0.0 && overall <= 1.0, "Impact ratio should be between 0 and 1, got {}", overall);

    for i in 0..impact_analysis.platform_impacts.len() {
        let platform_name = impact_analysis.platform_impacts.key_at(i);
        let impact = impact_analysis.platform_impacts.value_at(i);
        let ratio = value_of(impact.impact_ratio);
        assert!(
            ratio >= 0.0 && ratio <= 1.0,
            "{} platform impact ratio should be between 0 and 1, got {}",
            platform_name,
            ratio
        );
        assert!(
            impact.affected_lines <= impact.total_lines,
            "{} affected lines ({}) should not exceed total lines ({})",
            platform_name,
            impact.affected_lines,
            impact.total_lines
        );
    }
}

#[test]
fn files_listed_twice_count_twice_in_total_and_once_as_affected() {
    let mut project = create_test_kmp_project();
    let twice: Vec<String> =
        project.android_files.iter().chain(project.android_files.iter()).cloned().collect();
    project.android_files = twice;
    let symbol_repo = symbols_of(&project);
    let source_file_repo = source_files_of(&project);
    let symbol_usage_repo = SymbolUsageRepositoryImpl::new();
    let dependency_repo = dependencies_of(&project);
    let analyze_use_case = AnalyzeImpactUseCase::new(
        &symbol_repo,
        &source_file_repo,
        &symbol_usage_repo,
        &dependency_repo,
    );
    let analysis = analyze_use_case.execute("project").unwrap();
    let android = analysis.platform_impacts.get("Android").unwrap();
    assert_eq!(android.total_files, 4);
    assert_eq!(android.total_lines, 54);
    assert_eq!(android.affected_lines, 20);
    assert_eq!(android.affected_files.len(), 1);
}

#[test]
fn a_missing_shared_file_ends_the_analysis() {
    let mut project = create_test_kmp_project();
    project.kmp_files.push("shared/src/Gone.kt".to_string());
    let symbol_repo = symbols_of(&project);
    let source_file_repo = source_files_of(&project);
    let symbol_usage_repo = SymbolUsageRepositoryImpl::new();
    let dependency_repo = dependencies_of(&project);
    let analyze_use_case = AnalyzeImpactUseCase::new(
        &symbol_repo,
        &source_file_repo,
        &symbol_usage_repo,
        &dependency_repo,
    );
    let error = analyze_use_case.execute("project").unwrap_err();
    assert!(matches!(error, AnalysisError::Unreadable(path) if path == "shared/src/Gone.kt"));
}

#[test]
fn scenario_shared_symbols_used_in_an_android_file() {
    let project = Project {
        texts: vec![
            ("shared/src/S.kt".to_string(), "class Foo\nfun bar() {}\n".to_string()),
            ("app/Main.kt".to_string(), "val f = Foo()\nbar()\n".to_string()),
        ],
        kmp_files: vec!["shared/src/S.kt".to_string()],
        android_files: vec!["app/Main.kt".to_string()],
        ios_files: Vec::new(),
    };
    let symbol_repo = symbols_of(&project);
    let source_file_repo = source_files_of(&project);
    let symbol_usage_repo = SymbolUsageRepositoryImpl::new();
    let dependency_repo = dependencies_of(&project);
    let analyze_use_case = AnalyzeImpactUseCase::new(
        &symbol_repo,
        &source_file_repo,
        &symbol_usage_repo,
        &dependency_repo,
    );
    let analysis = analyze_use_case.execute("project").unwrap();
    assert_eq!(analysis.symbol_usages.get("Foo").unwrap().len(), 1);
    assert_eq!(analysis.symbol_usages.get("bar").unwrap().len(), 1);
    assert_eq!(analysis.symbol_usages.get("Foo").unwrap()[0].file_path, "app/Main.kt");
    assert_eq!(analysis.symbol_usages.get("bar").unwrap()[0].file_path, "app/Main.kt");
    assert_eq!(analysis.symbol_usages.get("bar").unwrap()[0].line_number, 2);
    assert!(analysis.affected_files.contains("app/Main.kt"));
    assert_eq!(analysis.affected_files.len(), 1);
    assert_eq!(analysis.total_symbols, 2);
    assert_eq!(analysis.total_app_lines, 2);
    assert_eq!(analysis.affected_lines, 2);
    assert_eq!(analysis.impact_ratio, ImpactRatio { affected: 2, total: 2 });
    assert!(!analysis.platform_impacts.contains_key("iOS"));
    let android = analysis.platform_impacts.get("Android").unwrap();
    assert_eq!(
        android.top_symbols,
        vec![("Foo".to_string(), 1usize), ("bar".to_string(), 1usize)]
    );
}

#[test]
fn a_project_without_application_files_has_ratio_zero() {
    let project = Project {
        texts: vec![("shared/src/S.kt".to_string(), "class Foo\n".to_string())],
        kmp_files: vec!["shared/src/S.kt".to_string()],
        android_files: Vec::new(),
        ios_files: Vec::new(),
    };
    let symbol_repo = symbols_of(&project);
    let source_file_repo = source_files_of(&project);
    let symbol_usage_repo = SymbolUsageRepositoryImpl::new();
    let dependency_repo = dependencies_of(&project);
    let analyze_use_case = AnalyzeImpactUseCase::new(
        &symbol_repo,
        &source_file_repo,
        &symbol_usage_repo,
        &dependency_repo,
    );
    let analysis = analyze_use_case.execute("project").unwrap();
    assert_eq!(analysis.total_symbols, 1);
    assert_eq!(analysis.total_app_files, 0);
    assert_eq!(analysis.total_app_lines, 0);
    assert_eq!(analysis.impact_ratio, ImpactRatio { affected: 0, total: 0 });
    assert_eq!(value_of(analysis.impact_ratio), 0.0);
    assert!(analysis.platform_impacts.is_empty());
    assert!(analysis.affected_files.is_empty());
}
