use kotlin_multiplatform_coverage::analyzer::impact_calculator::{
    count_lines, count_uses_in, files_among, path_set, platform_impact, rank, sum_lines,
    top_symbols_of, union_of, CountedFile,
};
use kotlin_multiplatform_coverage::domain::{
    AnalysisError, ImpactAnalysis, ImpactRatio, Platform, PlatformFiles, PlatformImpact, SymbolUsage,
};
use kotlin_multiplatform_coverage::file_set::FileSet;
use kotlin_multiplatform_coverage::string_map::StringMap;
use kotlin_multiplatform_coverage::use_cases::analyze_impact::{assemble, count_files};
use kotlin_multiplatform_coverage::use_cases::detect_usage::record_usages;
use kotlin_multiplatform_coverage::use_cases::AnalyzeImpactUseCase;

fn counted(path: &str, lines: Option<usize>) -> CountedFile {
    CountedFile { path: path.to_string(), code_lines: lines }
}

fn usage(symbol: &str, file: &str) -> SymbolUsage {
    SymbolUsage {
        symbol_name: symbol.to_string(),
        file_path: file.to_string(),
        line_number: 1,
        context: String::new(),
    }
}

fn paths(names: &[&str]) -> Vec<String> {
    names.iter().map(|n| n.to_string()).collect()
}

fn set(names: &[&str]) -> FileSet {
    FileSet::from_paths(&paths(names))
}

#[test]
fn lines_are_summed_over_all_files_and_over_affected_ones() {
    let files = vec![
        counted("a", Some(10)),
        counted("b", Some(20)),
        counted("c", None),
        counted("d", Some(5)),
    ];
    assert_eq!(count_lines(&files, &set(&["b", "c", "z"])), Some((35, 20)));
    assert_eq!(count_lines(&files, &set(&[])), Some((35, 0)));
    assert_eq!(count_lines(&files, &set(&["a", "b", "c", "d"])), Some((35, 35)));
    assert_eq!(count_lines(&[], &set(&["a"])), Some((0, 0)));
}

#[test]
fn a_path_listed_twice_is_affected_once_with_its_first_count() {
    let files = vec![counted("a", Some(10)), counted("b", Some(1)), counted("a", Some(7))];
    assert_eq!(count_lines(&files, &set(&["a"])), Some((18, 10)));
}

#[test]
fn too_many_lines_are_not_counted() {
    let files = vec![counted("a", Some(usize::MAX)), counted("b", Some(1))];
    assert_eq!(count_lines(&files, &set(&[])), None);
    let files = vec![counted("a", Some(usize::MAX)), counted("b", Some(0))];
    assert_eq!(count_lines(&files, &set(&["a"])), Some((usize::MAX, usize::MAX)));
    let result = platform_impact(
        "Android",
        &[counted("a", Some(usize::MAX)), counted("b", Some(2))],
        &StringMap::new(),
        &[],
        &[],
    );
    assert!(matches!(result, Err(AnalysisError::CountOverflow)));
    assert_eq!(AnalysisError::CountOverflow.message(), "A count exceeds the largest number");
}

#[test]
fn sets_of_files_are_joined_and_cut() {
    assert_eq!(union_of(&paths(&["a", "b"]), &paths(&["b", "c", "a"])).to_vec(), paths(&["a", "b", "c"]));
    assert!(union_of(&[], &[]).is_empty());
    let files = vec![counted("x", Some(1)), counted("y", None), counted("x", Some(2))];
    assert_eq!(path_set(&files).to_vec(), paths(&["x", "y"]));
    assert_eq!(files_among(&paths(&["y", "q", "x", "y"]), &files).to_vec(), paths(&["y", "x"]));
    assert!(files_among(&paths(&["q"]), &files).is_empty());
}

#[test]
fn platform_impact_counts_direct_and_transitive_files() {
    let files = vec![
        counted("app/A.kt", Some(10)),
        counted("app/B.kt", Some(30)),
        counted("app/C.kt", Some(60)),
    ];
    let mut usages: StringMap<Vec<SymbolUsage>> = StringMap::new();
    record_usages(
        &mut usages,
        &[usage("Foo", "app/A.kt"), usage("bar", "app/A.kt"), usage("bar", "ios/V.swift"), usage("bar", "app/A.kt")],
    );
    let impact = platform_impact(
        "Android",
        &files,
        &usages,
        &paths(&["app/A.kt", "ios/V.swift"]),
        &paths(&["app/B.kt", "ios/W.swift", "app/A.kt"]),
    )
    .unwrap();
    assert_eq!(impact.platform_name, "Android");
    assert_eq!(impact.total_files, 3);
    assert_eq!(impact.total_lines, 100);
    assert_eq!(impact.affected_files.to_vec(), paths(&["app/A.kt"]));
    assert_eq!(impact.affected_lines, 40);
    assert_eq!(impact.impact_ratio, ImpactRatio { affected: 40, total: 100 });
    assert_eq!(impact.top_symbols, vec![("bar".to_string(), 2), ("Foo".to_string(), 1)]);
}

#[test]
fn a_platform_without_lines_has_ratio_zero() {
    let impact = platform_impact(
        "iOS",
        &[counted("ios/V.swift", None), counted("ios/W.swift", Some(0))],
        &StringMap::new(),
        &paths(&["ios/V.swift"]),
        &[],
    )
    .unwrap();
    assert_eq!(impact.total_files, 2);
    assert_eq!(impact.total_lines, 0);
    assert_eq!(impact.affected_lines, 0);
    assert_eq!(impact.impact_ratio, ImpactRatio { affected: 0, total: 0 });
    assert_eq!(impact.affected_files.len(), 1);
    assert!(impact.top_symbols.is_empty());
    let none = platform_impact("iOS", &[], &StringMap::new(), &[], &[]).unwrap();
    assert_eq!(none.total_files, 0);
    assert_eq!(none.impact_ratio, ImpactRatio::zero());
}

#[test]
fn ratios_keep_the_two_counts() {
    assert_eq!(ImpactRatio::of(3, 4), ImpactRatio { affected: 3, total: 4 });
    assert_eq!(ImpactRatio::of(0, 4), ImpactRatio { affected: 0, total: 4 });
    assert_eq!(ImpactRatio::of(4, 4), ImpactRatio { affected: 4, total: 4 });
    assert_eq!(ImpactRatio::of(0, 0), ImpactRatio { affected: 0, total: 0 });
    assert_eq!(ImpactRatio::of(5, 0), ImpactRatio::zero());
    let mut impact = PlatformImpact::new("Android".to_string());
    assert_eq!(impact.impact_ratio, ImpactRatio::zero());
    impact.total_lines = 8;
    impact.affected_lines = 2;
    impact.calculate_impact_ratio();
    assert_eq!(impact.impact_ratio, ImpactRatio { affected: 2, total: 8 });
    impact.total_lines = 0;
    impact.calculate_impact_ratio();
    assert_eq!(impact.impact_ratio, ImpactRatio::zero());
    let mut analysis = ImpactAnalysis::new();
    analysis.total_app_lines = 10;
    analysis.affected_lines = 10;
    analysis.calculate_impact_ratio();
    assert_eq!(analysis.impact_ratio, ImpactRatio { affected: 10, total: 10 });
}

#[test]
fn ranking_is_by_falling_count_and_keeps_the_order_of_equals() {
    let entries = vec![
        ("a".to_string(), 2),
        ("b".to_string(), 5),
        ("c".to_string(), 2),
        ("d".to_string(), 9),
        ("e".to_string(), 5),
        ("f".to_string(), 0),
    ];
    let names: Vec<String> = rank(entries).into_iter().map(|(name, _)| name).collect();
    assert_eq!(names, paths(&["d", "b", "e", "a", "c", "f"]));
    assert!(rank(Vec::new()).is_empty());
}

#[test]
fn top_symbols_are_at_most_ten() {
    let mut usages: StringMap<Vec<SymbolUsage>> = StringMap::new();
    for i in 0..12usize {
        let name = format!("S{}", i);
        for _ in 0..(i % 4) + 1 {
            record_usages(&mut usages, &[usage(&name, "app/A.kt")]);
        }
        record_usages(&mut usages, &[usage(&name, "other/B.kt")]);
    }
    record_usages(&mut usages, &[usage("Elsewhere", "other/B.kt")]);
    let top = top_symbols_of(&usages, &set(&["app/A.kt"]));
    assert_eq!(top.len(), 10);
    let expected: Vec<(String, usize)> = [
        ("S3", 4),
        ("S7", 4),
        ("S11", 4),
        ("S2", 3),
        ("S6", 3),
        ("S10", 3),
        ("S1", 2),
        ("S5", 2),
        ("S9", 2),
        ("S0", 1),
    ]
    .iter()
    .map(|(n, c)| (n.to_string(), *c))
    .collect();
    assert_eq!(top, expected);
    assert!(top_symbols_of(&usages, &set(&["nowhere"])).is_empty());
    assert_eq!(count_uses_in(usages.get("S3").unwrap(), &set(&["app/A.kt"])), 4);
    assert_eq!(count_uses_in(usages.get("S3").unwrap(), &set(&["app/A.kt", "other/B.kt"])), 5);
}

struct NoSymbols;

impl kotlin_multiplatform_coverage::domain::SymbolRepository for NoSymbols {
    fn extract_kmp_symbols(
        &self,
        _paths: &[String],
    ) -> Result<Vec<kotlin_multiplatform_coverage::domain::Symbol>, AnalysisError> {
        Ok(Vec::new())
    }
}

struct NoFiles;

impl kotlin_multiplatform_coverage::domain::SourceFileRepository for NoFiles {
    fn find_kmp_files(&self, _project_path: &str) -> Result<Vec<String>, AnalysisError> {
        Ok(Vec::new())
    }

    fn find_app_files(&self, _project_path: &str) -> Result<PlatformFiles, AnalysisError> {
        Ok(PlatformFiles::new())
    }

    fn read_source_file(
        &self,
        file_path: &str,
    ) -> Result<kotlin_multiplatform_coverage::domain::SourceFile, AnalysisError> {
        Err(AnalysisError::Unreadable(file_path.to_string()))
    }

    fn count_code_lines(&self, _content: &str, _platform: Platform) -> usize {
        0
    }
}

struct NoUsages;

impl kotlin_multiplatform_coverage::domain::SymbolUsageRepository for NoUsages {
    fn detect_symbol_usage(
        &self,
        _source_file: &kotlin_multiplatform_coverage::domain::SourceFile,
        _symbols: &[kotlin_multiplatform_coverage::domain::Symbol],
    ) -> Result<Vec<SymbolUsage>, AnalysisError> {
        Ok(Vec::new())
    }
}

struct NoDependencies;

impl kotlin_multiplatform_coverage::domain::DependencyRepository for NoDependencies {
    fn build_dependency_graph(&self, _file_paths: &[String]) -> Result<(), AnalysisError> {
        Ok(())
    }

    fn calculate_transitive_dependencies(
        &self,
        _direct_files: &[String],
    ) -> Result<Vec<String>, AnalysisError> {
        Ok(Vec::new())
    }

    fn extract_imports(
        &self,
        _source_file: &kotlin_multiplatform_coverage::domain::SourceFile,
    ) -> Result<Vec<String>, AnalysisError> {
        Ok(Vec::new())
    }
}

#[test]
fn top_symbols_of_a_platform_are_counted_in_its_files_only() {
    let (symbols, files, detector, dependencies) = (NoSymbols, NoFiles, NoUsages, NoDependencies);
    let use_case = AnalyzeImpactUseCase::new(&symbols, &files, &detector, &dependencies);
    let mut usages: StringMap<Vec<SymbolUsage>> = StringMap::new();
    record_usages(
        &mut usages,
        &[usage("Foo", "a.kt"), usage("Bar", "v.swift"), usage("Bar", "a.kt"), usage("Bar", "b.kt")],
    );
    assert_eq!(
        use_case.calculate_top_symbols(&usages, &paths(&["a.kt", "b.kt"])),
        vec![("Bar".to_string(), 2), ("Foo".to_string(), 1)]
    );
    assert_eq!(
        use_case.calculate_top_symbols(&usages, &paths(&["v.swift"])),
        vec![("Bar".to_string(), 1)]
    );
    let analysis = use_case.execute("anywhere").unwrap();
    assert_eq!(analysis.total_symbols, 0);
    assert_eq!(analysis.impact_ratio, ImpactRatio::zero());
}

#[test]
fn unreadable_files_count_as_files_without_lines() {
    let (symbols, files, detector, dependencies) = (NoSymbols, NoFiles, NoUsages, NoDependencies);
    let use_case = AnalyzeImpactUseCase::new(&symbols, &files, &detector, &dependencies);
    let counted = use_case.count_code_lines(&paths(&["a.kt", "b.kt"]), Platform::Android);
    assert_eq!(counted.len(), 2);
    assert_eq!(counted[0].path, "a.kt");
    assert_eq!(counted[0].code_lines, None);
    let mut app_files = PlatformFiles::new();
    app_files.insert(Platform::IOS, paths(&["v.swift"]));
    let impacts = use_case
        .calculate_platform_impacts(&app_files, &StringMap::new(), &paths(&["v.swift"]), &[])
        .unwrap();
    assert_eq!(impacts.len(), 1);
    let ios = impacts.get("iOS").unwrap();
    assert_eq!(ios.total_files, 1);
    assert_eq!(ios.total_lines, 0);
    assert_eq!(ios.impact_ratio, ImpactRatio::zero());
    assert_eq!(
        AnalyzeImpactUseCase::<NoSymbols, NoFiles, NoUsages, NoDependencies>::all_files(
            &paths(&["s.kt"]),
            &app_files
        ),
        paths(&["s.kt", "v.swift"])
    );
}

#[test]
fn overall_counts_are_the_sums_over_the_platforms() {
    let mut android = PlatformImpact::new("Android".to_string());
    android.total_lines = 100;
    android.affected_lines = 40;
    android.calculate_impact_ratio();
    let mut ios = PlatformImpact::new("iOS".to_string());
    ios.total_lines = 50;
    ios.affected_lines = 50;
    ios.calculate_impact_ratio();
    let mut impacts = StringMap::new();
    impacts.insert("Android".to_string(), android);
    impacts.insert("iOS".to_string(), ios);
    assert_eq!(sum_lines(&impacts), Some((150, 90)));
    let analysis = assemble(3, 7, set(&["a", "b"]), impacts, StringMap::new()).unwrap();
    assert_eq!(analysis.total_symbols, 3);
    assert_eq!(analysis.total_app_files, 7);
    assert_eq!(analysis.total_app_lines, 150);
    assert_eq!(analysis.affected_lines, 90);
    assert_eq!(analysis.impact_ratio, ImpactRatio { affected: 90, total: 150 });
    assert_eq!(analysis.affected_files.len(), 2);
    assert_eq!(analysis.platform_impacts.len(), 2);
}

#[test]
fn overall_counts_beyond_the_largest_number_are_an_error() {
    let mut android = PlatformImpact::new("Android".to_string());
    android.total_lines = usize::MAX;
    let mut ios = PlatformImpact::new("iOS".to_string());
    ios.total_lines = 1;
    let mut impacts = StringMap::new();
    impacts.insert("Android".to_string(), android);
    impacts.insert("iOS".to_string(), ios);
    assert_eq!(sum_lines(&impacts), None);
    let result = assemble(0, 0, FileSet::new(), impacts, StringMap::new());
    assert!(matches!(result, Err(AnalysisError::CountOverflow)));
}

#[test]
fn application_files_are_counted_over_all_platforms() {
    let mut app_files = PlatformFiles::new();
    assert_eq!(count_files(&app_files), Some(0));
    app_files.insert(Platform::Android, paths(&["a", "b"]));
    app_files.insert(Platform::IOS, paths(&["c"]));
    assert_eq!(count_files(&app_files), Some(3));
}
