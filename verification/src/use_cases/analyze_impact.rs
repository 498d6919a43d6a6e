use vstd::prelude::*;
use crate::analyzer::impact_calculator::{
    is_descending, lemma_sums, paths_of, platform_impact, sum_lines, sum_of_affected,
    sum_of_totals, top_symbols, top_symbols_of, usage_lists, CountedFile,
};
use crate::domain::entities::{
    file_count, ranking_of, AnalysisError, ImpactAnalysis, ImpactRatio, Platform,
    PlatformFiles, PlatformImpact, PlatformImpactView, SymbolUsage,
};
use crate::domain::repositories::{
    DependencyRepository, SourceFileRepository, SymbolRepository, SymbolUsageRepository,
};
use crate::file_set::FileSet;
use crate::string_map::StringMap;
use crate::text::{lemma_texts_push, texts};
use super::calculate_dependencies::CalculateDependenciesUseCase;
use super::detect_usage::{files_used, groups_of, DetectUsageUseCase};
use super::extract_symbols::ExtractSymbolsUseCase;

verus! {

/// The names of the platforms, in their order.
pub open spec fn platform_names(platforms: Seq<Platform>) -> Seq<Seq<char>> {
    Seq::new(platforms.len(), |i: int| platforms[i].spec_name())
}

/// How many application files there are, or nothing where they are too many
/// to count.
pub fn count_files(app_files: &PlatformFiles) -> (count: Option<usize>)
    ensures
        match count {
            Some(n) => n == file_count(app_files@),
            None => file_count(app_files@) > usize::MAX,
        },
{
    let android: usize = match app_files.get(Platform::Android) {
        Some(files) => files.len(),
        None => 0,
    };
    let ios: usize = match app_files.get(Platform::IOS) {
        Some(files) => files.len(),
        None => 0,
    };
    if ios > usize::MAX - android {
        None
    } else {
        Some(android + ios)
    }
}

/// Puts the parts of a result together: the overall counts of lines are the
/// sums over the platforms, and the overall ratio is that of the sums. There
/// is no result where a sum is too large to count.
pub fn assemble(
    total_symbols: usize,
    total_app_files: usize,
    affected_files: FileSet,
    platform_impacts: StringMap<PlatformImpact>,
    symbol_usages: StringMap<Vec<SymbolUsage>>,
) -> (result: Result<ImpactAnalysis, AnalysisError>)
    ensures
        match result {
            Ok(analysis) => {
                &&& analysis.total_symbols == total_symbols
                &&& analysis.total_app_files == total_app_files
                &&& analysis.affected_files == affected_files
                &&& analysis.platform_impacts == platform_impacts
                &&& analysis.symbol_usages == symbol_usages
                &&& analysis.total_app_lines == sum_of_totals(
                    platform_impacts.values(),
                    platform_impacts.values().len() as int,
                )
                &&& analysis.affected_lines == sum_of_affected(
                    platform_impacts.values(),
                    platform_impacts.values().len() as int,
                )
                &&& analysis.impact_ratio == ImpactRatio::spec_of(
                    analysis.affected_lines,
                    analysis.total_app_lines,
                )
                &&& (forall|i: int|
                    0 <= i < platform_impacts.values().len() ==> (
                    #[trigger] platform_impacts.values()[i]).is_consistent())
                    ==> analysis.is_consistent()
            },
            Err(e) => e is CountOverflow && (sum_of_totals(
                platform_impacts.values(),
                platform_impacts.values().len() as int,
            ) > usize::MAX || sum_of_affected(
                platform_impacts.values(),
                platform_impacts.values().len() as int,
            ) > usize::MAX),
        },
{
    match sum_lines(&platform_impacts) {
        Some((total_app_lines, affected_lines)) => {
            proof {
                if forall|i: int|
                    0 <= i < platform_impacts.values().len() ==> (
                    #[trigger] platform_impacts.values()[i]).is_consistent() {
                    lemma_sums(platform_impacts.values(), platform_impacts.values().len() as int);
                }
            }
            let mut analysis = ImpactAnalysis {
                total_symbols,
                total_app_files,
                total_app_lines,
                affected_files,
                affected_lines,
                impact_ratio: ImpactRatio::zero(),
                platform_impacts,
                symbol_usages,
            };
            analysis.calculate_impact_ratio();
            Ok(analysis)
        },
        None => Err(AnalysisError::CountOverflow),
    }
}

/// What is known of the impact on `platform` before any line is counted:
/// the platform's name, the number of its application files, which of them
/// are directly affected, and the platform's ten most used symbols.
pub open spec fn is_impact_on_platform(
    impact: PlatformImpactView,
    platform: Platform,
    app_files: Map<Platform, Seq<Seq<char>>>,
    symbol_usages: StringMap<Vec<SymbolUsage>>,
    direct: Seq<Seq<char>>,
) -> bool {
    let files = app_files[platform];
    &&& impact.platform_name == platform.spec_name()
    &&& impact.total_files == files.len()
    &&& impact.affected_files == direct.to_set().intersect(files.to_set())
    &&& impact.top_symbols == top_symbols(
        symbol_usages.keys(),
        usage_lists(symbol_usages),
        files.to_set(),
    )
}

/// The whole analysis: finds the files, extracts the symbols, detects their
/// usages, follows the dependencies and sums up the impact.
pub struct AnalyzeImpactUseCase<
    'a,
    Y: SymbolRepository + ?Sized,
    S: SourceFileRepository + ?Sized,
    U: SymbolUsageRepository + ?Sized,
    D: DependencyRepository + ?Sized,
> {
    symbol_repository: &'a Y,
    source_file_repository: &'a S,
    symbol_usage_repository: &'a U,
    dependency_repository: &'a D,
}

impl<
    'a,
    Y: SymbolRepository + ?Sized,
    S: SourceFileRepository + ?Sized,
    U: SymbolUsageRepository + ?Sized,
    D: DependencyRepository + ?Sized,
> AnalyzeImpactUseCase<'a, Y, S, U, D> {
    /// The repository that extracts the symbols.
    pub closed spec fn symbols(&self) -> &'a Y {
        self.symbol_repository
    }

    /// The repository that finds and reads the files.
    pub closed spec fn source_files(&self) -> &'a S {
        self.source_file_repository
    }

    /// The repository that detects the usages.
    pub closed spec fn symbol_usages(&self) -> &'a U {
        self.symbol_usage_repository
    }

    /// The repository that knows the dependencies.
    pub closed spec fn dependencies(&self) -> &'a D {
        self.dependency_repository
    }

    /// The analysis over the given repositories.
    pub fn new(
        symbol_repository: &'a Y,
        source_file_repository: &'a S,
        symbol_usage_repository: &'a U,
        dependency_repository: &'a D,
    ) -> (use_case: Self)
        ensures
            use_case.symbols() == symbol_repository,
            use_case.source_files() == source_file_repository,
            use_case.symbol_usages() == symbol_usage_repository,
            use_case.dependencies() == dependency_repository,
    {
        AnalyzeImpactUseCase {
            symbol_repository,
            source_file_repository,
            symbol_usage_repository,
            dependency_repository,
        }
    }

    /// Analyzes the project at `project_path`. Whatever the repositories
    /// answer, a result hangs together: no count of affected lines exceeds
    /// its total and every ratio is that of its two counts; the usages are
    /// sorted by symbol; the affected files are the files of the usages; the
    /// overall counts of lines are the sums over the platforms; and every
    /// platform stands under its name with affected files that are among
    /// the affected files of the whole. An error of a repository ends the
    /// analysis, and so do counts beyond the largest `usize`; a file that
    /// cannot be read while lines are counted only adds nothing to the
    /// counts.
    pub fn execute(&self, project_path: &str) -> (result: Result<ImpactAnalysis, AnalysisError>)
        ensures
            result matches Ok(analysis) ==> {
                &&& analysis.is_consistent()
                &&& groups_of(analysis.symbol_usages).is_grouped()
                &&& analysis.affected_files@ == files_used(
                    usage_lists(analysis.symbol_usages),
                    analysis.symbol_usages.keys().len() as int,
                )
                &&& analysis.total_app_lines == sum_of_totals(
                    analysis.platform_impacts.values(),
                    analysis.platform_impacts.values().len() as int,
                )
                &&& analysis.affected_lines == sum_of_affected(
                    analysis.platform_impacts.values(),
                    analysis.platform_impacts.values().len() as int,
                )
                &&& analysis.platform_impacts.keys().len() == analysis.platform_impacts.values().len()
                &&& forall|i: int|
                    0 <= i < analysis.platform_impacts.values().len() ==> {
                        let impact = #[trigger] analysis.platform_impacts.values()[i];
                        &&& impact.platform_name@ == analysis.platform_impacts.keys()[i]
                        &&& impact.affected_files@.subset_of(analysis.affected_files@)
                    }
            },
    {
        let kmp_files = self.source_file_repository.find_kmp_files(project_path)?;
        let app_files = self.source_file_repository.find_app_files(project_path)?;
        let extract_use_case = ExtractSymbolsUseCase::new(self.symbol_repository);
        let symbols = extract_use_case.execute(kmp_files.as_slice())?;
        let detect_use_case = DetectUsageUseCase::new(
            self.source_file_repository,
            self.symbol_usage_repository,
        );
        let symbol_usages = detect_use_case.execute(&app_files, symbols.as_slice())?;
        let direct_affected_files = detect_use_case.get_affected_files(&symbol_usages);
        let dep_use_case = CalculateDependenciesUseCase::new(self.dependency_repository);
        let all_files = Self::all_files(&kmp_files, &app_files);
        dep_use_case.build_graph(all_files.as_slice())?;
        let transitive_files = dep_use_case.calculate_transitive(direct_affected_files.as_slice())?;
        let platform_impacts = self.calculate_platform_impacts(
            &app_files,
            &symbol_usages,
            direct_affected_files.as_slice(),
            transitive_files.as_slice(),
        )?;
        let total_app_files = match count_files(&app_files) {
            Some(n) => n,
            None => {
                return Err(AnalysisError::CountOverflow);
            },
        };
        let affected_files = FileSet::from_paths(direct_affected_files.as_slice());
        assemble(symbols.len(), total_app_files, affected_files, platform_impacts, symbol_usages)
    }

    /// The files of the shared module followed by the application files,
    /// Android before iOS.
    pub fn all_files(kmp_files: &Vec<String>, app_files: &PlatformFiles) -> (all: Vec<String>)
        ensures
            texts(all@) == texts(kmp_files@) + (if app_files@.contains_key(Platform::Android) {
                app_files@[Platform::Android]
            } else {
                Seq::<Seq<char>>::empty()
            }) + (if app_files@.contains_key(Platform::IOS) {
                app_files@[Platform::IOS]
            } else {
                Seq::<Seq<char>>::empty()
            }),
    {
        let mut all: Vec<String> = Vec::new();
        Self::extend(&mut all, kmp_files);
        assert(texts(all@) =~= texts(kmp_files@));
        match app_files.get(Platform::Android) {
            Some(files) => {
                Self::extend(&mut all, files);
            },
            None => {
                assert(texts(all@) =~= texts(all@) + Seq::<Seq<char>>::empty());
            },
        }
        match app_files.get(Platform::IOS) {
            Some(files) => {
                Self::extend(&mut all, files);
            },
            None => {
                assert(texts(all@) =~= texts(all@) + Seq::<Seq<char>>::empty());
            },
        }
        all
    }

    /// Appends copies of `more` to `all`.
    fn extend(all: &mut Vec<String>, more: &Vec<String>)
        ensures
            texts(final(all)@) == texts(old(all)@) + texts(more@),
    {
        let ghost before = texts(all@);
        let mut i: usize = 0;
        assert(texts(all@) =~= before + texts(more@).take(0));
        while i < more.len()
            invariant
                i <= more.len(),
                texts(all@) == before + texts(more@).take(i as int),
            decreases more.len() - i,
        {
            proof {
                lemma_texts_push(all@, more@[i as int]);
            }
            all.push(more[i].clone());
            assert(texts(all@) =~= before + texts(more@).take(i + 1));
            i = i + 1;
        }
        assert(texts(more@).take(i as int) =~= texts(more@));
    }

    /// Reads each file and counts its lines of code as `platform` counts
    /// them; a file that cannot be read has no count.
    pub fn count_code_lines(&self, files: &Vec<String>, platform: Platform) -> (counted: Vec<
        CountedFile,
    >)
        ensures
            counted@.len() == files@.len(),
            forall|i: int| 0 <= i < files@.len() ==> (#[trigger] counted@[i]).path@ == files@[i]@,
            paths_of(counted@) == texts(files@),
    {
        let mut counted: Vec<CountedFile> = Vec::new();
        let mut i: usize = 0;
        while i < files.len()
            invariant
                i <= files.len(),
                counted@.len() == i,
                forall|j: int| 0 <= j < i ==> (#[trigger] counted@[j]).path@ == files@[j]@,
            decreases files.len() - i,
        {
            let code_lines = match self.source_file_repository.read_source_file(files[i].as_str()) {
                Ok(file) => Some(
                    self.source_file_repository.count_code_lines(file.content.as_str(), platform),
                ),
                Err(_) => None,
            };
            counted.push(CountedFile { path: files[i].clone(), code_lines });
            i = i + 1;
        }
        assert(paths_of(counted@) =~= texts(files@));
        counted
    }

    /// The impact on each platform that has application files, under the
    /// platform's name, Android before iOS. What does not hang on the lines
    /// of code is told of each: its name, the number of its files, its
    /// directly affected files and its most used symbols. The lines are
    /// counted as the repository counts them. There is no result only where
    /// the lines of a platform are too many to count, which takes files.
    pub fn calculate_platform_impacts(
        &self,
        app_files: &PlatformFiles,
        symbol_usages: &StringMap<Vec<SymbolUsage>>,
        direct_files: &[String],
        transitive_files: &[String],
    ) -> (result: Result<StringMap<PlatformImpact>, AnalysisError>)
        ensures
            match result {
                Ok(impacts) => {
                    &&& impacts.inv()
                    &&& impacts.keys() == platform_names(PlatformFiles::in_order(app_files@))
                    &&& forall|i: int|
                        0 <= i < impacts.values().len() ==> {
                            let impact = #[trigger] impacts.values()[i];
                            &&& impact.is_consistent()
                            &&& is_impact_on_platform(
                                impact@,
                                PlatformFiles::in_order(app_files@)[i],
                                app_files@,
                                *symbol_usages,
                                texts(direct_files@),
                            )
                        }
                },
                Err(error) => error is CountOverflow && file_count(app_files@) > 0,
            },
    {
        let mut platform_impacts: StringMap<PlatformImpact> = StringMap::new();
        let platforms = app_files.platforms();
        let mut p: usize = 0;
        proof {
            reveal_strlit("Android");
            reveal_strlit("iOS");
            assert("Android"@ != "iOS"@) by {
                assert("Android"@.len() != "iOS"@.len());
            }
            assert(platform_names(platforms@.take(0)) =~= Seq::<Seq<char>>::empty());
        }
        while p < platforms.len()
            invariant
                p <= platforms.len(),
                platforms@ == PlatformFiles::in_order(app_files@),
                platforms@.no_duplicates(),
                forall|q: Platform| platforms@.contains(q) ==> app_files@.contains_key(q),
                "Android"@ != "iOS"@,
                platform_impacts.keys() == platform_names(platforms@.take(p as int)),
                platform_impacts.inv(),
                forall|i: int|
                    0 <= i < platform_impacts.values().len() ==> {
                        let impact = #[trigger] platform_impacts.values()[i];
                        &&& impact.is_consistent()
                        &&& is_impact_on_platform(
                            impact@,
                            platforms@[i],
                            app_files@,
                            *symbol_usages,
                            texts(direct_files@),
                        )
                    },
            decreases platforms.len() - p,
        {
            let platform = platforms[p];
            proof {
                let earlier = platforms@.take(p as int);
                assert(platform_names(platforms@.take(p + 1)) =~= platform_names(earlier).push(
                    platform.spec_name(),
                ));
                assert(platforms@.contains(platforms@[p as int]));
                assert forall|i: int| 0 <= i < earlier.len() implies platform_names(earlier)[i]
                    != platform.spec_name() by {
                    assert(earlier[i] == platforms@[i]);
                    assert(platforms@[i] != platforms@[p as int]);
                }
                assert(!platform_names(earlier).contains(platform.spec_name()));
            }
            match app_files.get(platform) {
                Some(files) => {
                    let counted = self.count_code_lines(files, platform);
                    let impact = match platform_impact(
                        platform.name(),
                        counted.as_slice(),
                        symbol_usages,
                        direct_files,
                        transitive_files,
                    ) {
                        Ok(impact) => impact,
                        Err(error) => {
                            proof {
                                assert(counted@.len() > 0);
                                assert(file_count(app_files@) > 0) by {
                                    match platform {
                                        Platform::Android => {},
                                        Platform::IOS => {},
                                    }
                                }
                            }
                            return Err(error);
                        },
                    };
                    let ghost before = platform_impacts.values();
                    proof {
                        platform_impacts.keys().index_of_first_ensures(platform.spec_name());
                    }
                    platform_impacts.insert(platform.name().to_owned(), impact);
                    proof {
                        assert(platform_impacts.values() == before.push(impact));
                        assert forall|i: int| 0 <= i < platform_impacts.values().len() implies {
                            let known = #[trigger] platform_impacts.values()[i];
                            &&& known.is_consistent()
                            &&& is_impact_on_platform(
                                known@,
                                platforms@[i],
                                app_files@,
                                *symbol_usages,
                                texts(direct_files@),
                            )
                        } by {
                            if i < before.len() {
                                assert(platform_impacts.values()[i] == before[i]);
                            } else {
                                assert(before.len() == p);
                                assert(platform_impacts.values()[i] == impact);
                                assert(platforms@[i] == platform);
                                assert(app_files@[platform] == texts(files@));
                                assert(paths_of(counted@) == texts(files@));
                                assert(counted@.len() == counted.len());
                                assert(impact@.total_files == counted@.len());
                            }
                        }
                    }
                },
                None => {},
            }
            p = p + 1;
        }
        assert(platforms@.take(p as int) =~= platforms@);
        Ok(platform_impacts)
    }

    /// The ten most used symbols in the given files of a platform: the
    /// symbols that are used there, by falling number of uses, symbols with
    /// the same number in the order of the map.
    pub fn calculate_top_symbols(
        &self,
        symbol_usages: &StringMap<Vec<SymbolUsage>>,
        platform_files: &[String],
    ) -> (top: Vec<(String, usize)>)
        ensures
            ranking_of(top@) == top_symbols(
                symbol_usages.keys(),
                usage_lists(*symbol_usages),
                texts(platform_files@).to_set(),
            ),
            is_descending(ranking_of(top@)),
            top@.len() <= 10,
    {
        let files = FileSet::from_paths(platform_files);
        top_symbols_of(symbol_usages, &files)
    }
}

} // verus!
