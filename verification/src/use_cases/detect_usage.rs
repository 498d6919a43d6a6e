use vstd::prelude::*;
use crate::analyzer::impact_calculator::usage_lists;
use crate::domain::entities::{
    file_count, usage_views, AnalysisError, Platform, PlatformFiles, SourceFile, Symbol,
    SymbolUsage, SymbolUsageView,
};
use crate::domain::repositories::{SourceFileRepository, SymbolUsageRepository};
use crate::file_set::FileSet;
use crate::string_map::StringMap;
use crate::text::texts;

verus! {

/// Usages sorted by symbol: the names in the order of their first usage and
/// under each name its usages.
pub struct UsageGroups {
    pub names: Seq<Seq<char>>,
    pub lists: Seq<Seq<SymbolUsageView>>,
}

impl UsageGroups {
    /// The groups with one more usage: it goes to the end of the list of its
    /// symbol, which is opened where there is none.
    pub open spec fn with(self, usage: SymbolUsageView) -> UsageGroups {
        match self.names.index_of_first(usage.symbol_name) {
            Some(i) => UsageGroups {
                names: self.names,
                lists: self.lists.update(i, self.lists[i].push(usage)),
            },
            None => UsageGroups {
                names: self.names.push(usage.symbol_name),
                lists: self.lists.push(seq![usage]),
            },
        }
    }

    /// The groups with the first `upto` of the usages, one after the other.
    pub open spec fn with_all(self, usages: Seq<SymbolUsageView>, upto: int) -> UsageGroups
        decreases upto,
    {
        if upto <= 0 {
            self
        } else {
            self.with_all(usages, upto - 1).with(usages[upto - 1])
        }
    }

    /// Every usage stands under its own symbol, every symbol has a usage,
    /// and no symbol stands twice.
    pub open spec fn is_grouped(self) -> bool {
        &&& self.names.len() == self.lists.len()
        &&& self.names.no_duplicates()
        &&& forall|i: int| 0 <= i < self.lists.len() ==> (#[trigger] self.lists[i]).len() > 0
        &&& forall|i: int, j: int|
            0 <= i < self.lists.len() && 0 <= j < self.lists[i].len() ==> (
            #[trigger] self.lists[i][j]).symbol_name == self.names[i]
    }

    /// One more usage leaves the groups sorted by symbol.
    pub proof fn lemma_with(self, usage: SymbolUsageView)
        requires
            self.is_grouped(),
        ensures
            self.with(usage).is_grouped(),
    {
        self.names.index_of_first_ensures(usage.symbol_name);
        let after = self.with(usage);
        match self.names.index_of_first(usage.symbol_name) {
            Some(k) => {
                assert forall|i: int, j: int|
                    0 <= i < after.lists.len() && 0 <= j < after.lists[i].len() implies (
                #[trigger] after.lists[i][j]).symbol_name == after.names[i] by {
                    if i == k {
                        if j < self.lists[k].len() {
                            assert(after.lists[i][j] == self.lists[k][j]);
                        }
                    } else {
                        assert(after.lists[i][j] == self.lists[i][j]);
                    }
                }
                assert forall|i: int| 0 <= i < after.lists.len() implies (
                #[trigger] after.lists[i]).len() > 0 by {
                    if i != k {
                        assert(after.lists[i] == self.lists[i]);
                    }
                }
            },
            None => {
                assert forall|i: int, j: int|
                    0 <= i < after.lists.len() && 0 <= j < after.lists[i].len() implies (
                #[trigger] after.lists[i][j]).symbol_name == after.names[i] by {
                    if i < self.lists.len() {
                        assert(after.lists[i][j] == self.lists[i][j]);
                    }
                }
                assert forall|i: int| 0 <= i < after.lists.len() implies (
                #[trigger] after.lists[i]).len() > 0 by {
                    if i < self.lists.len() {
                        assert(after.lists[i] == self.lists[i]);
                    }
                }
                assert forall|i: int, j: int|
                    0 <= i < after.names.len() && 0 <= j < after.names.len() && i
                        != j implies after.names[i] != after.names[j] by {
                    if i < self.names.len() && j < self.names.len() {
                        assert(self.names[i] != self.names[j]);
                    } else if i < self.names.len() {
                        assert(self.names.contains(self.names[i]));
                    } else {
                        assert(self.names.contains(self.names[j]));
                    }
                }
            },
        }
    }

    /// More usages leave the groups sorted by symbol.
    pub proof fn lemma_with_all(self, usages: Seq<SymbolUsageView>, upto: int)
        requires
            self.is_grouped(),
        ensures
            self.with_all(usages, upto).is_grouped(),
        decreases upto,
    {
        if upto > 0 {
            self.lemma_with_all(usages, upto - 1);
            self.with_all(usages, upto - 1).lemma_with(usages[upto - 1]);
        }
    }
}

/// What a map of usages says, as plain values.
pub open spec fn groups_of(map: StringMap<Vec<SymbolUsage>>) -> UsageGroups {
    UsageGroups { names: map.keys(), lists: usage_lists(map) }
}

/// The files of the usages of a list.
pub open spec fn files_in(list: Seq<SymbolUsageView>) -> Set<Seq<char>> {
    Set::new(
        |f: Seq<char>| exists|j: int| 0 <= j < list.len() && (#[trigger] list[j]).file_path == f,
    )
}

/// The files of the usages of the first `upto` lists.
pub open spec fn files_used(lists: Seq<Seq<SymbolUsageView>>, upto: int) -> Set<Seq<char>>
    decreases upto,
{
    if upto <= 0 {
        Set::empty()
    } else {
        files_used(lists, upto - 1).union(files_in(lists[upto - 1]))
    }
}

/// Puts each of `usages` under the name of its symbol, in their order.
pub fn record_usages(all: &mut StringMap<Vec<SymbolUsage>>, usages: &[SymbolUsage])
    ensures
        final(all).inv(),
        groups_of(*final(all)) == groups_of(*old(all)).with_all(
            usage_views(usages@),
            usages@.len() as int,
        ),
{
    let ghost start = groups_of(*all);
    let ghost given = usage_views(usages@);
    let mut k: usize = 0;
    proof {
        use_type_invariant(&*all);
    }
    while k < usages.len()
        invariant
            k <= usages.len(),
            given == usage_views(usages@),
            all.inv(),
            groups_of(*all) == start.with_all(given, k as int),
        decreases usages.len() - k,
    {
        let usage = &usages[k];
        let ghost before = groups_of(*all);
        let ghost name = usage.symbol_name@;
        proof {
            before.names.index_of_first_ensures(name);
            assert(given[k as int] == usage@);
        }
        let at = match all.position(usage.symbol_name.as_str()) {
            Some(at) => at,
            None => {
                all.insert(usage.symbol_name.clone(), Vec::new());
                all.len() - 1
            },
        };
        let ghost mid = *all;
        let mut list = all.replace_at(at, Vec::new());
        let ghost earlier = usage_views(list@);
        list.push(usage.clone());
        proof {
            assert(usage_views(list@) =~= earlier.push(usage@));
        }
        all.replace_at(at, list);
        proof {
            let after = groups_of(*all);
            let wanted = before.with(usage@);
            assert(after.names == wanted.names);
            assert(after.lists.len() == wanted.lists.len());
            assert forall|i: int| 0 <= i < after.lists.len() implies after.lists[i]
                == wanted.lists[i] by {
                if i != at {
                    assert(all.values()[i] == mid.values()[i]);
                    if i < before.lists.len() {
                        assert(before.lists[i] == usage_views(mid.values()[i]@));
                    }
                } else {
                    if before.names.index_of_first(name) is None {
                        assert(earlier =~= Seq::<SymbolUsageView>::empty());
                        assert(usage_views(list@) =~= seq![usage@]);
                    } else {
                        assert(earlier == before.lists[at as int]);
                    }
                }
            }
            assert(after.lists =~= wanted.lists);
        }
        k = k + 1;
    }
}

/// The files in which the usages of a map stand, each once.
pub fn affected_files_of(symbol_usages: &StringMap<Vec<SymbolUsage>>) -> (files: FileSet)
    ensures
        files@ == files_used(usage_lists(*symbol_usages), symbol_usages.keys().len() as int),
{
    let ghost lists = usage_lists(*symbol_usages);
    let mut files = FileSet::new();
    let count = symbol_usages.len();
    let mut i: usize = 0;
    while i < count
        invariant
            i <= count,
            count == symbol_usages.keys().len(),
            symbol_usages.inv(),
            lists == usage_lists(*symbol_usages),
            files@ == files_used(lists, i as int),
        decreases count - i,
    {
        let usages = symbol_usages.value_at(i);
        let ghost before = files@;
        let ghost list = usage_views(usages@);
        let mut j: usize = 0;
        assert(lists[i as int] == list);
        assert(files@ =~= before.union(files_in(list.take(0))));
        while j < usages.len()
            invariant
                j <= usages.len(),
                list == usage_views(usages@),
                files@ == before.union(files_in(list.take(j as int))),
            decreases usages.len() - j,
        {
            let ghost earlier = list.take(j as int);
            let ghost now = list.take(j + 1);
            files.insert(usages[j].file_path.clone());
            proof {
                assert forall|f: Seq<char>| files_in(now).contains(f) <==> files_in(earlier).contains(
                    f,
                ) || f == usages@[j as int].file_path@ by {
                    if files_in(earlier).contains(f) {
                        let k = choose|k: int|
                            0 <= k < earlier.len() && (#[trigger] earlier[k]).file_path == f;
                        assert(now[k].file_path == f);
                    }
                    if f == usages@[j as int].file_path@ {
                        assert(now[j as int].file_path == f);
                    }
                    if files_in(now).contains(f) {
                        let k = choose|k: int|
                            0 <= k < now.len() && (#[trigger] now[k]).file_path == f;
                        if k < j {
                            assert(earlier[k].file_path == f);
                        }
                    }
                }
                assert(files@ =~= before.union(files_in(now)));
            }
            j = j + 1;
        }
        assert(list.take(j as int) =~= list);
        i = i + 1;
    }
    files
}

/// Finds where the symbols of the shared module are used.
pub struct DetectUsageUseCase<
    'a,
    S: SourceFileRepository + ?Sized,
    U: SymbolUsageRepository + ?Sized,
> {
    source_file_repository: &'a S,
    symbol_usage_repository: &'a U,
}

impl<'a, S: SourceFileRepository + ?Sized, U: SymbolUsageRepository + ?Sized> DetectUsageUseCase<
    'a,
    S,
    U,
> {
    /// The repository that reads the files.
    pub closed spec fn source_files(&self) -> &'a S {
        self.source_file_repository
    }

    /// The repository that detects the usages.
    pub closed spec fn symbol_usages(&self) -> &'a U {
        self.symbol_usage_repository
    }

    /// The step over the given repositories.
    pub fn new(source_file_repository: &'a S, symbol_usage_repository: &'a U) -> (use_case: Self)
        ensures
            use_case.source_files() == source_file_repository,
            use_case.symbol_usages() == symbol_usage_repository,
    {
        DetectUsageUseCase { source_file_repository, symbol_usage_repository }
    }

    /// `error` is the answer of the detection in one of the application
    /// files, which was read.
    pub open spec fn is_detection_error(
        &self,
        app_files: Map<Platform, Seq<Seq<char>>>,
        symbols: &[Symbol],
        error: AnalysisError,
    ) -> bool {
        exists|platform: Platform, path: &str, file: SourceFile|
            #![trigger app_files.contains_key(platform), call_ensures(S::read_source_file, (self.source_files(), path), Ok(file))]
            app_files.contains_key(platform) && app_files[platform].contains(path@) && call_ensures(
                S::read_source_file,
                (self.source_files(), path),
                Ok(file),
            ) && call_ensures(
                U::detect_symbol_usage,
                (self.symbol_usages(), &file, symbols),
                Err(error),
            )
    }

    /// Reads every application file, Android before iOS, has the usages in
    /// it detected and sorts them by symbol. A file that cannot be read adds
    /// no usage; a file in which detection fails ends the step with the
    /// error of the detection. Without application files the step succeeds
    /// and finds nothing.
    pub fn execute(&self, app_files_by_platform: &PlatformFiles, symbols: &[Symbol]) -> (result:
        Result<StringMap<Vec<SymbolUsage>>, AnalysisError>)
        ensures
            match result {
                Ok(all_usages) => groups_of(all_usages).is_grouped() && (file_count(
                    app_files_by_platform@,
                ) == 0 ==> all_usages.keys().len() == 0),
                Err(error) => file_count(app_files_by_platform@) > 0 && self.is_detection_error(
                    app_files_by_platform@,
                    symbols,
                    error,
                ),
            },
    {
        let mut all_usages: StringMap<Vec<SymbolUsage>> = StringMap::new();
        let platforms = app_files_by_platform.platforms();
        let mut p: usize = 0;
        proof {
            assert(usage_lists(all_usages) =~= Seq::<Seq<SymbolUsageView>>::empty());
        }
        while p < platforms.len()
            invariant
                p <= platforms.len(),
                forall|q: Platform| platforms@.contains(q) ==> app_files_by_platform@.contains_key(q),
                groups_of(all_usages).is_grouped(),
                file_count(app_files_by_platform@) == 0 ==> all_usages.keys().len() == 0,
            decreases platforms.len() - p,
        {
            let platform = platforms[p];
            assert(platforms@.contains(platforms@[p as int]));
            match app_files_by_platform.get(platform) {
                Some(file_paths) => {
                    let mut i: usize = 0;
                    while i < file_paths.len()
                        invariant
                            i <= file_paths.len(),
                            app_files_by_platform@.contains_key(platform),
                            texts(file_paths@) == app_files_by_platform@[platform],
                            groups_of(all_usages).is_grouped(),
                            file_count(app_files_by_platform@) == 0 ==> all_usages.keys().len()
                                == 0,
                        decreases file_paths.len() - i,
                    {
                        let path = file_paths[i].as_str();
                        proof {
                            assert(texts(file_paths@)[i as int] == path@);
                            assert(app_files_by_platform@[platform].contains(path@));
                            assert(file_count(app_files_by_platform@) > 0) by {
                                match platform {
                                    Platform::Android => {},
                                    Platform::IOS => {},
                                }
                            }
                        }
                        match self.source_file_repository.read_source_file(path) {
                            Ok(source_file) => {
                                match self.symbol_usage_repository.detect_symbol_usage(
                                    &source_file,
                                    symbols,
                                ) {
                                    Ok(usages) => {
                                        proof {
                                            groups_of(all_usages).lemma_with_all(
                                                usage_views(usages@),
                                                usages@.len() as int,
                                            );
                                        }
                                        record_usages(&mut all_usages, usages.as_slice());
                                    },
                                    Err(error) => {
                                        proof {
                                            assert(call_ensures(
                                                S::read_source_file,
                                                (self.source_files(), path),
                                                Ok(source_file),
                                            ));
                                            assert(call_ensures(
                                                U::detect_symbol_usage,
                                                (self.symbol_usages(), &source_file, symbols),
                                                Err(error),
                                            ));
                                            assert(self.is_detection_error(
                                                app_files_by_platform@,
                                                symbols,
                                                error,
                                            ));
                                        }
                                        return Err(error);
                                    },
                                }
                            },
                            Err(_) => {},
                        }
                        i = i + 1;
                    }
                },
                None => {},
            }
            p = p + 1;
        }
        Ok(all_usages)
    }

    /// The files that use a symbol directly, each once, in the order in
    /// which the usages name them.
    pub fn get_affected_files(&self, symbol_usages: &StringMap<Vec<SymbolUsage>>) -> (files: Vec<
        String,
    >)
        ensures
            texts(files@).no_duplicates(),
            texts(files@).to_set() == files_used(
                usage_lists(*symbol_usages),
                symbol_usages.keys().len() as int,
            ),
    {
        let affected = affected_files_of(symbol_usages);
        proof {
            use_type_invariant(&affected);
        }
        affected.to_vec()
    }
}

} // verus!
