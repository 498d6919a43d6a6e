use kotlin_multiplatform_coverage::domain::{
    AnalysisError, DependencyRepository, Platform, PlatformFiles, SourceFile, SourceFileRepository,
    Symbol, SymbolRepository, SymbolType, SymbolUsage, SymbolUsageRepository, Language,
};
use kotlin_multiplatform_coverage::string_map::StringMap;
use kotlin_multiplatform_coverage::use_cases::detect_usage::{affected_files_of, record_usages};
use kotlin_multiplatform_coverage::use_cases::{
    CalculateDependenciesUseCase, DetectUsageUseCase, ExtractSymbolsUseCase,
};

struct MockSymbolRepository;

impl SymbolRepository for MockSymbolRepository {
    fn extract_kmp_symbols(&self, _paths: &[String]) -> Result<Vec<Symbol>, AnalysisError> {
        Ok(vec![Symbol {
            name: "UserRepository".to_string(),
            symbol_type: SymbolType::Class,
            module: "shared".to_string(),
            file_path: "shared/src/User.kt".to_string(),
            is_public: true,
        }])
    }
}

#[test]
fn test_extract_symbols() {
    let repo = MockSymbolRepository;
    let use_case = ExtractSymbolsUseCase::new(&repo);

    let symbols = use_case.execute(&vec!["test.kt".to_string()]).unwrap();
    assert_eq!(symbols.len(), 1);
    assert_eq!(symbols[0].name, "UserRepository");
}

struct FailingSymbolRepository;

impl SymbolRepository for FailingSymbolRepository {
    fn extract_kmp_symbols(&self, paths: &[String]) -> Result<Vec<Symbol>, AnalysisError> {
        Err(AnalysisError::Unreadable(paths[0].clone()))
    }
}

#[test]
fn extraction_fails_with_the_error_of_the_repository() {
    let repo = FailingSymbolRepository;
    let use_case = ExtractSymbolsUseCase::new(&repo);
    let error = use_case.execute(&vec!["gone.kt".to_string()]).unwrap_err();
    assert!(matches!(&error, AnalysisError::Unreadable(path) if path == "gone.kt"));
    assert_eq!(error.message(), "Cannot read file: gone.kt");
}

struct FixedDependencies;

impl DependencyRepository for FixedDependencies {
    fn build_dependency_graph(&self, file_paths: &[String]) -> Result<(), AnalysisError> {
        if file_paths.is_empty() {
            Err(AnalysisError::Unreadable("nothing".to_string()))
        } else {
            Ok(())
        }
    }

    fn calculate_transitive_dependencies(
        &self,
        direct_files: &[String],
    ) -> Result<Vec<String>, AnalysisError> {
        Ok(direct_files.iter().map(|f| format!("{}.dep", f)).collect())
    }

    fn extract_imports(&self, _source_file: &SourceFile) -> Result<Vec<String>, AnalysisError> {
        Ok(Vec::new())
    }
}

#[test]
fn dependencies_are_asked_of_the_repository() {
    let repo = FixedDependencies;
    let use_case = CalculateDependenciesUseCase::new(&repo);
    assert!(use_case.build_graph(&["a".to_string()]).is_ok());
    assert!(use_case.build_graph(&[]).is_err());
    assert_eq!(use_case.calculate_transitive(&["a".to_string()]).unwrap(), vec!["a.dep".to_string()]);
}

fn usage(symbol: &str, file: &str, line: usize) -> SymbolUsage {
    SymbolUsage {
        symbol_name: symbol.to_string(),
        file_path: file.to_string(),
        line_number: line,
        context: format!("{} at {}", symbol, line),
    }
}

#[test]
fn usages_are_recorded_under_their_symbol() {
    let mut all: StringMap<Vec<SymbolUsage>> = StringMap::new();
    record_usages(&mut all, &[usage("Foo", "a.kt", 1), usage("bar", "a.kt", 2)]);
    record_usages(&mut all, &[]);
    record_usages(&mut all, &[usage("bar", "b.kt", 7), usage("Foo", "b.kt", 9), usage("Baz", "a.kt", 3)]);
    assert_eq!(all.len(), 3);
    assert_eq!(all.key_at(0), "Foo");
    assert_eq!(all.key_at(1), "bar");
    assert_eq!(all.key_at(2), "Baz");
    let foo = all.get("Foo").unwrap();
    assert_eq!(foo.len(), 2);
    assert_eq!((foo[0].file_path.as_str(), foo[0].line_number), ("a.kt", 1));
    assert_eq!((foo[1].file_path.as_str(), foo[1].line_number), ("b.kt", 9));
    assert_eq!(foo[1].context, "Foo at 9");
    assert_eq!(all.get("bar").unwrap().len(), 2);
    assert_eq!(all.get("Baz").unwrap().len(), 1);
    assert_eq!(affected_files_of(&all).to_vec(), vec!["a.kt".to_string(), "b.kt".to_string()]);
    assert!(affected_files_of(&StringMap::new()).is_empty());
}

struct Memory {
    files: Vec<(String, String)>,
}

impl SourceFileRepository for Memory {
    fn find_kmp_files(&self, _project_path: &str) -> Result<Vec<String>, AnalysisError> {
        Ok(Vec::new())
    }

    fn find_app_files(&self, _project_path: &str) -> Result<PlatformFiles, AnalysisError> {
        Ok(PlatformFiles::new())
    }

    fn read_source_file(&self, file_path: &str) -> Result<SourceFile, AnalysisError> {
        match self.files.iter().find(|(path, _)| path == file_path) {
            Some((path, content)) => Ok(SourceFile {
                path: path.clone(),
                platform: Platform::Android,
                language: Language::Kotlin,
                content: content.clone(),
            }),
            None => Err(AnalysisError::Unreadable(file_path.to_string())),
        }
    }

    fn count_code_lines(&self, content: &str, _platform: Platform) -> usize {
        content.lines().count()
    }
}

struct WordDetector;

impl SymbolUsageRepository for WordDetector {
    fn detect_symbol_usage(
        &self,
        source_file: &SourceFile,
        symbols: &[Symbol],
    ) -> Result<Vec<SymbolUsage>, AnalysisError> {
        let mut found = Vec::new();
        for (number, line) in source_file.content.lines().enumerate() {
            for symbol in symbols {
                if line.contains(&symbol.name) {
                    found.push(usage(&symbol.name, &source_file.path, number + 1));
                }
            }
        }
        Ok(found)
    }
}

fn symbol(name: &str) -> Symbol {
    Symbol {
        name: name.to_string(),
        symbol_type: SymbolType::Class,
        module: "shared".to_string(),
        file_path: "shared/src/S.kt".to_string(),
        is_public: true,
    }
}

#[test]
fn usages_of_all_platforms_are_collected_android_first() {
    let memory = Memory {
        files: vec![
            ("ios/V.swift".to_string(), "Foo\nBar\n".to_string()),
            ("app/M.kt".to_string(), "Bar\n".to_string()),
        ],
    };
    let detector = WordDetector;
    let use_case = DetectUsageUseCase::new(&memory, &detector);
    let mut app_files = PlatformFiles::new();
    app_files.insert(Platform::IOS, vec!["ios/V.swift".to_string()]);
    app_files.insert(Platform::Android, vec!["app/M.kt".to_string()]);
    let usages = use_case.execute(&app_files, &[symbol("Foo"), symbol("Bar")]).unwrap();
    assert_eq!(usages.len(), 2);
    assert_eq!(usages.key_at(0), "Bar");
    assert_eq!(usages.key_at(1), "Foo");
    assert_eq!(usages.get("Bar").unwrap().len(), 2);
    assert_eq!(usages.get("Bar").unwrap()[0].file_path, "app/M.kt");
    assert_eq!(
        use_case.get_affected_files(&usages),
        vec!["app/M.kt".to_string(), "ios/V.swift".to_string()]
    );
}

#[test]
fn an_unreadable_file_adds_no_usage() {
    let memory = Memory { files: vec![("app/M.kt".to_string(), "Foo\n".to_string())] };
    let detector = WordDetector;
    let use_case = DetectUsageUseCase::new(&memory, &detector);
    let mut app_files = PlatformFiles::new();
    app_files.insert(
        Platform::Android,
        vec!["app/Gone.kt".to_string(), "app/M.kt".to_string(), "app/Lost.kt".to_string()],
    );
    let usages = use_case.execute(&app_files, &[symbol("Foo")]).unwrap();
    assert_eq!(usages.len(), 1);
    assert_eq!(usages.get("Foo").unwrap().len(), 1);
    assert_eq!(use_case.get_affected_files(&usages), vec!["app/M.kt".to_string()]);
}

struct FailingDetector;

impl SymbolUsageRepository for FailingDetector {
    fn detect_symbol_usage(
        &self,
        source_file: &SourceFile,
        _symbols: &[Symbol],
    ) -> Result<Vec<SymbolUsage>, AnalysisError> {
        Err(AnalysisError::Unreadable(source_file.path.clone()))
    }
}

#[test]
fn a_failing_detection_ends_usage_detection() {
    let memory = Memory { files: vec![("app/M.kt".to_string(), "Foo\n".to_string())] };
    let detector = FailingDetector;
    let use_case = DetectUsageUseCase::new(&memory, &detector);
    let mut app_files = PlatformFiles::new();
    app_files.insert(Platform::Android, vec!["app/M.kt".to_string()]);
    let error = use_case.execute(&app_files, &[symbol("Foo")]).unwrap_err();
    assert!(matches!(error, AnalysisError::Unreadable(path) if path == "app/M.kt"));
}

#[test]
fn platform_files_keep_one_list_per_platform() {
    let mut files = PlatformFiles::new();
    assert!(files.is_empty());
    assert_eq!(files.len(), 0);
    assert!(files.get(Platform::Android).is_none());
    files.insert(Platform::IOS, vec!["a.swift".to_string()]);
    files.insert(Platform::IOS, vec!["b.swift".to_string(), "c.swift".to_string()]);
    assert_eq!(files.len(), 1);
    assert!(!files.is_empty());
    assert!(files.contains_key(Platform::IOS));
    assert!(!files.contains_key(Platform::Android));
    assert_eq!(files.get(Platform::IOS).unwrap().len(), 2);
    files.insert(Platform::Android, Vec::new());
    assert_eq!(files.platforms(), vec![Platform::Android, Platform::IOS]);
    assert_eq!(Platform::Android.name(), "Android");
    assert_eq!(Platform::IOS.name(), "iOS");
}
