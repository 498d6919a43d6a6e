//! Turns usages, dependencies and line counts into the impact of the shared
//! module on a platform and on the whole application.

use vstd::prelude::*;
use crate::domain::entities::{
    ranking_of, usage_views, AnalysisError, ImpactRatio, PlatformImpact, PlatformImpactView,
    Ranking, SymbolUsage, SymbolUsageView,
};
use crate::file_set::FileSet;
use crate::string_map::StringMap;
use crate::text::texts;

verus! {

/// An application file with the number of its lines of code, if it could be
/// read.
#[derive(Debug)]
pub struct CountedFile {
    pub path: String,
    pub code_lines: Option<usize>,
}

/// The paths of the files, in their order.
pub open spec fn paths_of(files: Seq<CountedFile>) -> Seq<Seq<char>> {
    Seq::new(files.len(), |i: int| files[i].path@)
}

/// The lines of code that a file adds to a sum: none where it was not read.
pub open spec fn counted(file: CountedFile) -> nat {
    match file.code_lines {
        Some(n) => n as nat,
        None => 0,
    }
}

/// The lines of code of the first `upto` files. A path that is listed twice
/// counts twice.
pub open spec fn total_lines(files: Seq<CountedFile>, upto: int) -> nat
    decreases upto,
{
    if upto <= 0 {
        0
    } else {
        total_lines(files, upto - 1) + counted(files[upto - 1])
    }
}

/// The file at position `i` is affected: its path is in `affected` and is
/// not listed before.
pub open spec fn is_affected(files: Seq<CountedFile>, affected: Set<Seq<char>>, i: int) -> bool {
    affected.contains(files[i].path@) && forall|j: int|
        0 <= j < i ==> (#[trigger] files[j]).path@ != files[i].path@
}

/// The lines of code of the affected files among the first `upto`. A path
/// that is listed twice counts once, with the count of its first listing.
pub open spec fn affected_lines(files: Seq<CountedFile>, affected: Set<Seq<char>>, upto: int) -> nat
    decreases upto,
{
    if upto <= 0 {
        0
    } else {
        affected_lines(files, affected, upto - 1) + if is_affected(files, affected, upto - 1) {
            counted(files[upto - 1])
        } else {
            0
        }
    }
}

/// No more lines are affected than there are.
pub proof fn lemma_affected_within_total(
    files: Seq<CountedFile>,
    affected: Set<Seq<char>>,
    upto: int,
)
    ensures
        affected_lines(files, affected, upto) <= total_lines(files, upto),
    decreases upto,
{
    if upto > 0 {
        lemma_affected_within_total(files, affected, upto - 1);
    }
}

/// The lines of code grow with the number of files.
pub proof fn lemma_total_lines_grow(files: Seq<CountedFile>, fewer: int, more: int)
    requires
        fewer <= more,
    ensures
        total_lines(files, fewer) <= total_lines(files, more),
    decreases more - fewer,
{
    if fewer < more {
        lemma_total_lines_grow(files, fewer, more - 1);
    }
}

/// The lines of code of all files and of the affected ones among them, or
/// nothing where the total is beyond the largest `usize`.
pub fn count_lines(files: &[CountedFile], affected: &FileSet) -> (sums: Option<(usize, usize)>)
    ensures
        match sums {
            Some((total, part)) => total == total_lines(files@, files@.len() as int) && part
                == affected_lines(files@, affected@, files@.len() as int),
            None => total_lines(files@, files@.len() as int) > usize::MAX,
        },
{
    let mut total: usize = 0;
    let mut part: usize = 0;
    let mut seen = FileSet::new();
    let mut i: usize = 0;
    while i < files.len()
        invariant
            i <= files.len(),
            total == total_lines(files@, i as int),
            part == affected_lines(files@, affected@, i as int),
            forall|p: Seq<char>|
                seen@.contains(p) <==> exists|j: int| 0 <= j < i && (#[trigger] files@[j]).path@ == p,
        decreases files.len() - i,
    {
        let file = &files[i];
        let lines: usize = match file.code_lines {
            Some(n) => n,
            None => 0,
        };
        proof {
            lemma_affected_within_total(files@, affected@, i + 1);
        }
        if lines > usize::MAX - total {
            proof {
                lemma_total_lines_grow(files@, i + 1, files@.len() as int);
            }
            return None;
        }
        total = total + lines;
        let first = !seen.contains(file.path.as_str());
        if first && affected.contains(file.path.as_str()) {
            part = part + lines;
        }
        let ghost before = seen@;
        seen.insert(file.path.clone());
        proof {
            assert forall|p: Seq<char>| seen@.contains(p) <==> exists|j: int|
                0 <= j < i + 1 && (#[trigger] files@[j]).path@ == p by {
                if before.contains(p) {
                    let j = choose|j: int| 0 <= j < i && (#[trigger] files@[j]).path@ == p;
                    assert(0 <= j < i + 1 && files@[j].path@ == p);
                }
                if p == file.path@ {
                    assert(files@[i as int].path@ == p);
                }
                if exists|j: int| 0 <= j < i + 1 && (#[trigger] files@[j]).path@ == p {
                    let j = choose|j: int| 0 <= j < i + 1 && (#[trigger] files@[j]).path@ == p;
                    if j < i {
                        assert(before.contains(p));
                    }
                }
            }
        }
        i = i + 1;
    }
    Some((total, part))
}

/// The members of `candidates` that are among `files`, each once, in the
/// order of `candidates`.
pub fn files_among(candidates: &[String], files: &[CountedFile]) -> (found: FileSet)
    ensures
        found@ == texts(candidates@).to_set().intersect(paths_of(files@).to_set()),
{
    let mut listed = FileSet::new();
    let mut k: usize = 0;
    while k < files.len()
        invariant
            k <= files.len(),
            listed@ == paths_of(files@).take(k as int).to_set(),
        decreases files.len() - k,
    {
        let ghost earlier = paths_of(files@).take(k as int);
        let ghost now = paths_of(files@).take(k + 1);
        listed.insert(files[k].path.clone());
        proof {
            lemma_take_one_more(paths_of(files@), k as int);
            assert(listed@ =~= now.to_set());
        }
        k = k + 1;
    }
    assert(paths_of(files@).take(k as int) =~= paths_of(files@));
    let mut found = FileSet::new();
    let mut i: usize = 0;
    while i < candidates.len()
        invariant
            i <= candidates.len(),
            listed@ == paths_of(files@).to_set(),
            found@ == texts(candidates@).take(i as int).to_set().intersect(listed@),
        decreases candidates.len() - i,
    {
        let candidate = &candidates[i];
        proof {
            lemma_take_one_more(texts(candidates@), i as int);
        }
        if listed.contains(candidate.as_str()) {
            found.insert(candidate.clone());
        }
        assert(found@ =~= texts(candidates@).take(i + 1).to_set().intersect(listed@));
        i = i + 1;
    }
    assert(texts(candidates@).take(i as int) =~= texts(candidates@));
    found
}

/// Taking one more element of a sequence adds that element to the set.
pub proof fn lemma_take_one_more(items: Seq<Seq<char>>, i: int)
    requires
        0 <= i < items.len(),
    ensures
        items.take(i + 1).to_set() == items.take(i).to_set().insert(items[i]),
{
    let earlier = items.take(i);
    let now = items.take(i + 1);
    assert forall|p: Seq<char>| now.contains(p) <==> earlier.contains(p) || p == items[i] by {
        if earlier.contains(p) {
            let k = choose|k: int| 0 <= k < earlier.len() && earlier[k] == p;
            assert(now[k] == p);
        }
        if p == items[i] {
            assert(now[i] == p);
        }
        if now.contains(p) {
            let k = choose|k: int| 0 <= k < now.len() && now[k] == p;
            if k < i {
                assert(earlier[k] == p);
            }
        }
    }
    assert(now.to_set() =~= earlier.to_set().insert(items[i]));
}

/// The set of two lists of files taken together.
pub fn union_of(first: &[String], second: &[String]) -> (both: FileSet)
    ensures
        both@ == texts(first@).to_set().union(texts(second@).to_set()),
{
    let mut both = FileSet::new();
    let mut i: usize = 0;
    while i < first.len()
        invariant
            i <= first.len(),
            both@ == texts(first@).take(i as int).to_set(),
        decreases first.len() - i,
    {
        proof {
            lemma_take_one_more(texts(first@), i as int);
        }
        both.insert(first[i].clone());
        i = i + 1;
    }
    assert(texts(first@).take(i as int) =~= texts(first@));
    let mut k: usize = 0;
    while k < second.len()
        invariant
            k <= second.len(),
            both@ == texts(first@).to_set().union(texts(second@).take(k as int).to_set()),
        decreases second.len() - k,
    {
        proof {
            lemma_take_one_more(texts(second@), k as int);
        }
        both.insert(second[k].clone());
        assert(both@ =~= texts(first@).to_set().union(texts(second@).take(k + 1).to_set()));
        k = k + 1;
    }
    assert(texts(second@).take(k as int) =~= texts(second@));
    both
}

/// The usages of each symbol of a map, in the order of its keys.
pub open spec fn usage_lists(map: StringMap<Vec<SymbolUsage>>) -> Seq<Seq<SymbolUsageView>> {
    Seq::new(map.values().len(), |i: int| usage_views(map.values()[i]@))
}

/// How many of the first `upto` usages stand in one of `files`.
pub open spec fn used_in(usages: Seq<SymbolUsageView>, files: Set<Seq<char>>, upto: int) -> nat
    decreases upto,
{
    if upto <= 0 {
        0
    } else {
        used_in(usages, files, upto - 1) + if files.contains(usages[upto - 1].file_path) {
            1nat
        } else {
            0nat
        }
    }
}

/// There are no more uses in some files than uses.
pub proof fn lemma_used_in(usages: Seq<SymbolUsageView>, files: Set<Seq<char>>, upto: int)
    requires
        0 <= upto,
    ensures
        used_in(usages, files, upto) <= upto,
    decreases upto,
{
    if upto > 0 {
        lemma_used_in(usages, files, upto - 1);
    }
}

/// Of the first `upto` symbols those that are used in `files`, each with the
/// number of its uses there, in the order of the symbols.
pub open spec fn candidates(
    names: Seq<Seq<char>>,
    lists: Seq<Seq<SymbolUsageView>>,
    files: Set<Seq<char>>,
    upto: int,
) -> Ranking
    decreases upto,
{
    if upto <= 0 {
        Seq::empty()
    } else {
        let rest = candidates(names, lists, files, upto - 1);
        let count = used_in(lists[upto - 1], files, lists[upto - 1].len() as int);
        if count > 0 {
            rest.push((names[upto - 1], count as usize))
        } else {
            rest
        }
    }
}

/// The position, among the first `within`, of the first entry with fewer
/// uses than `count`.
pub open spec fn first_below(ranking: Ranking, count: usize, within: int) -> Option<int>
    decreases within,
{
    if within <= 0 {
        None
    } else {
        match first_below(ranking, count, within - 1) {
            Some(i) => Some(i),
            None => if ranking[within - 1].1 < count {
                Some(within - 1)
            } else {
                None
            },
        }
    }
}

/// What the first entry with fewer uses is.
pub proof fn lemma_first_below(ranking: Ranking, count: usize, within: int)
    requires
        0 <= within <= ranking.len(),
    ensures
        match first_below(ranking, count, within) {
            Some(i) => 0 <= i < within && ranking[i].1 < count && forall|j: int|
                0 <= j < i ==> (#[trigger] ranking[j]).1 >= count,
            None => forall|j: int| 0 <= j < within ==> (#[trigger] ranking[j]).1 >= count,
        },
    decreases within,
{
    if within > 0 {
        lemma_first_below(ranking, count, within - 1);
    }
}

/// The ranking with one more entry: it goes behind every entry with as many
/// uses or more, and before the first with fewer.
pub open spec fn placed(ranking: Ranking, entry: (Seq<char>, usize)) -> Ranking {
    match first_below(ranking, entry.1, ranking.len() as int) {
        Some(i) => ranking.insert(i, entry),
        None => ranking.push(entry),
    }
}

/// The first `upto` entries by falling number of uses; entries with the same
/// number keep their order.
pub open spec fn ranked(entries: Ranking, upto: int) -> Ranking
    decreases upto,
{
    if upto <= 0 {
        Seq::empty()
    } else {
        placed(ranked(entries, upto - 1), entries[upto - 1])
    }
}

/// No entry has more uses than one before it.
pub open spec fn is_descending(ranking: Ranking) -> bool {
    forall|i: int, j: int| 0 <= i < j < ranking.len() ==> ranking[i].1 >= ranking[j].1
}

/// Placing an entry keeps a ranking in falling order and makes it one longer.
pub proof fn lemma_placed(ranking: Ranking, entry: (Seq<char>, usize))
    requires
        is_descending(ranking),
    ensures
        is_descending(placed(ranking, entry)),
        placed(ranking, entry).len() == ranking.len() + 1,
{
    lemma_first_below(ranking, entry.1, ranking.len() as int);
    let after = placed(ranking, entry);
    match first_below(ranking, entry.1, ranking.len() as int) {
        Some(p) => {
            assert forall|i: int, j: int| 0 <= i < j < after.len() implies after[i].1
                >= after[j].1 by {
                if j < p {
                    assert(after[i] == ranking[i] && after[j] == ranking[j]);
                } else if j == p {
                    assert(after[i] == ranking[i]);
                } else if i < p {
                    assert(after[i] == ranking[i] && after[j] == ranking[j - 1]);
                    if j - 1 > i {
                    } else {
                    }
                } else if i == p {
                    assert(after[j] == ranking[j - 1]);
                    assert(ranking[p].1 >= ranking[j - 1].1 || p == j - 1);
                } else {
                    assert(after[i] == ranking[i - 1] && after[j] == ranking[j - 1]);
                }
            }
        },
        None => {
            assert forall|i: int, j: int| 0 <= i < j < after.len() implies after[i].1
                >= after[j].1 by {
                assert(after[i] == ranking[i]);
                if j < ranking.len() {
                    assert(after[j] == ranking[j]);
                }
            }
        },
    }
}

/// A ranking is in falling order and as long as what was ranked.
pub proof fn lemma_ranked(entries: Ranking, upto: int)
    requires
        0 <= upto <= entries.len(),
    ensures
        is_descending(ranked(entries, upto)),
        ranked(entries, upto).len() == upto,
    decreases upto,
{
    if upto > 0 {
        lemma_ranked(entries, upto - 1);
        lemma_placed(ranked(entries, upto - 1), entries[upto - 1]);
    }
}

/// The ten most used symbols of a platform: the symbols that are used in the
/// platform's files, by falling number of uses there, symbols with the same
/// number in the order of the map.
pub open spec fn top_symbols(
    names: Seq<Seq<char>>,
    lists: Seq<Seq<SymbolUsageView>>,
    files: Set<Seq<char>>,
) -> Ranking {
    let found = candidates(names, lists, files, names.len() as int);
    let all = ranked(found, found.len() as int);
    if all.len() > 10 {
        all.take(10)
    } else {
        all
    }
}

/// How many of the usages stand in one of `files`.
pub fn count_uses_in(usages: &Vec<SymbolUsage>, files: &FileSet) -> (count: usize)
    ensures
        count == used_in(usage_views(usages@), files@, usages@.len() as int),
{
    let mut count: usize = 0;
    let mut i: usize = 0;
    while i < usages.len()
        invariant
            i <= usages.len(),
            count <= i,
            count == used_in(usage_views(usages@), files@, i as int),
        decreases usages.len() - i,
    {
        if files.contains(usages[i].file_path.as_str()) {
            count = count + 1;
        }
        i = i + 1;
    }
    count
}

/// Puts the entries in falling order of their counts; entries with the same
/// count keep their order.
pub fn rank(entries: Vec<(String, usize)>) -> (ranking: Vec<(String, usize)>)
    ensures
        ranking_of(ranking@) == ranked(ranking_of(entries@), entries@.len() as int),
        is_descending(ranking_of(ranking@)),
        ranking@.len() == entries@.len(),
{
    let ghost all = ranking_of(entries@);
    let mut ranking: Vec<(String, usize)> = Vec::new();
    let mut i: usize = 0;
    assert(ranking_of(ranking@) =~= ranked(all, 0));
    while i < entries.len()
        invariant
            i <= entries.len(),
            all == ranking_of(entries@),
            ranking_of(ranking@) == ranked(all, i as int),
            ranking@.len() == i,
        decreases entries.len() - i,
    {
        let count = entries[i].1;
        let ghost before = ranking_of(ranking@);
        let mut at: usize = 0;
        proof {
            lemma_ranked(all, i as int);
        }
        while at < ranking.len() && ranking[at].1 >= count
            invariant
                at <= ranking.len(),
                before == ranking_of(ranking@),
                first_below(before, count, at as int) is None,
            decreases ranking.len() - at,
        {
            at = at + 1;
        }
        proof {
            lemma_first_below(before, count, before.len() as int);
            lemma_first_below(before, count, at as int);
            if at < ranking.len() {
                assert(before[at as int].1 < count);
                assert(first_below(before, count, before.len() as int) == Some(at as int));
            } else {
                assert(first_below(before, count, before.len() as int) is None);
            }
            assert(all[i as int] == (entries@[i as int].0@, count));
        }
        let entry = (entries[i].0.clone(), count);
        ranking.insert(at, entry);
        proof {
            if at < before.len() {
                assert(ranking_of(ranking@) =~= before.insert(at as int, (entry.0@, count)));
            } else {
                assert(ranking_of(ranking@) =~= before.push((entry.0@, count)));
            }
        }
        i = i + 1;
    }
    proof {
        lemma_ranked(all, i as int);
    }
    ranking
}

/// The ten most used symbols in `platform_files`: see `top_symbols`.
pub fn top_symbols_of(symbol_usages: &StringMap<Vec<SymbolUsage>>, platform_files: &FileSet) -> (top:
    Vec<(String, usize)>)
    ensures
        ranking_of(top@) == top_symbols(
            symbol_usages.keys(),
            usage_lists(*symbol_usages),
            platform_files@,
        ),
        is_descending(ranking_of(top@)),
        top@.len() <= 10,
{
    let ghost names = symbol_usages.keys();
    let ghost lists = usage_lists(*symbol_usages);
    let mut found: Vec<(String, usize)> = Vec::new();
    let count = symbol_usages.len();
    let mut i: usize = 0;
    assert(ranking_of(found@) =~= candidates(names, lists, platform_files@, 0));
    while i < count
        invariant
            i <= count,
            count == symbol_usages.keys().len(),
            symbol_usages.inv(),
            names == symbol_usages.keys(),
            lists == usage_lists(*symbol_usages),
            ranking_of(found@) == candidates(names, lists, platform_files@, i as int),
        decreases count - i,
    {
        let usages = symbol_usages.value_at(i);
        let uses = count_uses_in(usages, platform_files);
        proof {
            assert(lists[i as int] == usage_views(usages@));
            lemma_used_in(lists[i as int], platform_files@, lists[i as int].len() as int);
        }
        if uses > 0 {
            let ghost before = ranking_of(found@);
            let name = symbol_usages.key_at(i).clone();
            found.push((name, uses));
            assert(ranking_of(found@) =~= before.push((names[i as int], uses)));
        }
        i = i + 1;
    }
    let mut top = rank(found);
    let ghost all = ranking_of(top@);
    if top.len() > 10 {
        top.truncate(10);
        assert(ranking_of(top@) =~= all.take(10));
    }
    top
}

/// The paths of the files as a set.
pub fn path_set(files: &[CountedFile]) -> (paths: FileSet)
    ensures
        paths@ == paths_of(files@).to_set(),
{
    let mut paths = FileSet::new();
    let mut k: usize = 0;
    while k < files.len()
        invariant
            k <= files.len(),
            paths@ == paths_of(files@).take(k as int).to_set(),
        decreases files.len() - k,
    {
        paths.insert(files[k].path.clone());
        proof {
            lemma_take_one_more(paths_of(files@), k as int);
        }
        k = k + 1;
    }
    assert(paths_of(files@).take(k as int) =~= paths_of(files@));
    paths
}

/// The impact on the platform `name` with the application files `files`:
/// the number of the files and of their lines of code, the directly
/// affected files of the platform, the lines of the files that are affected
/// directly or through a dependency, the ratio of the two counts of lines,
/// and the platform's ten most used symbols.
pub open spec fn impact_on(
    name: Seq<char>,
    files: Seq<CountedFile>,
    symbol_usages: StringMap<Vec<SymbolUsage>>,
    direct: Seq<Seq<char>>,
    transitive: Seq<Seq<char>>,
) -> PlatformImpactView {
    let total = total_lines(files, files.len() as int) as usize;
    let affected = affected_lines(
        files,
        direct.to_set().union(transitive.to_set()),
        files.len() as int,
    ) as usize;
    PlatformImpactView {
        platform_name: name,
        total_files: files.len() as usize,
        total_lines: total,
        affected_files: direct.to_set().intersect(paths_of(files).to_set()),
        affected_lines: affected,
        impact_ratio: ImpactRatio::spec_of(affected, total),
        top_symbols: top_symbols(
            symbol_usages.keys(),
            usage_lists(symbol_usages),
            paths_of(files).to_set(),
        ),
    }
}

/// The impact of the shared module on one platform: see `impact_on`. There
/// is none where the lines of code are too many to count.
pub fn platform_impact(
    platform_name: &str,
    files: &[CountedFile],
    symbol_usages: &StringMap<Vec<SymbolUsage>>,
    direct_files: &[String],
    transitive_files: &[String],
) -> (result: Result<PlatformImpact, AnalysisError>)
    ensures
        match result {
            Ok(impact) => impact@ == impact_on(
                platform_name@,
                files@,
                *symbol_usages,
                texts(direct_files@),
                texts(transitive_files@),
            ) && impact.is_consistent() && total_lines(files@, files@.len() as int) <= usize::MAX,
            Err(e) => e is CountOverflow && total_lines(files@, files@.len() as int) > usize::MAX,
        },
{
    let affected = union_of(direct_files, transitive_files);
    match count_lines(files, &affected) {
        Some((total_lines, affected_lines)) => {
            proof {
                lemma_affected_within_total(files@, affected@, files@.len() as int);
            }
            let platform_files = path_set(files);
            let mut impact = PlatformImpact::new(platform_name.to_owned());
            impact.total_files = files.len();
            impact.total_lines = total_lines;
            impact.affected_files = files_among(direct_files, files);
            impact.affected_lines = affected_lines;
            impact.top_symbols = top_symbols_of(symbol_usages, &platform_files);
            impact.calculate_impact_ratio();
            Ok(impact)
        },
        None => Err(AnalysisError::CountOverflow),
    }
}

/// The lines of code of the first `upto` platforms.
pub open spec fn sum_of_totals(impacts: Seq<PlatformImpact>, upto: int) -> nat
    decreases upto,
{
    if upto <= 0 {
        0
    } else {
        sum_of_totals(impacts, upto - 1) + impacts[upto - 1].total_lines as nat
    }
}

/// The affected lines of code of the first `upto` platforms.
pub open spec fn sum_of_affected(impacts: Seq<PlatformImpact>, upto: int) -> nat
    decreases upto,
{
    if upto <= 0 {
        0
    } else {
        sum_of_affected(impacts, upto - 1) + impacts[upto - 1].affected_lines as nat
    }
}

/// Where no platform has more affected lines than lines, the sums have not
/// either.
pub proof fn lemma_sums(impacts: Seq<PlatformImpact>, upto: int)
    requires
        0 <= upto <= impacts.len(),
        forall|i: int| 0 <= i < impacts.len() ==> (#[trigger] impacts[i]).is_consistent(),
    ensures
        sum_of_affected(impacts, upto) <= sum_of_totals(impacts, upto),
    decreases upto,
{
    if upto > 0 {
        lemma_sums(impacts, upto - 1);
    }
}

/// The sums grow with the number of platforms.
pub proof fn lemma_sums_grow(impacts: Seq<PlatformImpact>, fewer: int, more: int)
    requires
        fewer <= more,
    ensures
        sum_of_totals(impacts, fewer) <= sum_of_totals(impacts, more),
        sum_of_affected(impacts, fewer) <= sum_of_affected(impacts, more),
    decreases more - fewer,
{
    if fewer < more {
        lemma_sums_grow(impacts, fewer, more - 1);
    }
}

/// The lines of code and the affected lines of code of all platforms, or
/// nothing where one of the sums is beyond the largest `usize`.
pub fn sum_lines(platform_impacts: &StringMap<PlatformImpact>) -> (sums: Option<(usize, usize)>)
    ensures
        match sums {
            Some((total, affected)) => total == sum_of_totals(
                platform_impacts.values(),
                platform_impacts.values().len() as int,
            ) && affected == sum_of_affected(
                platform_impacts.values(),
                platform_impacts.values().len() as int,
            ),
            None => sum_of_totals(
                platform_impacts.values(),
                platform_impacts.values().len() as int,
            ) > usize::MAX || sum_of_affected(
                platform_impacts.values(),
                platform_impacts.values().len() as int,
            ) > usize::MAX,
        },
{
    let count = platform_impacts.len();
    let ghost impacts = platform_impacts.values();
    let mut total: usize = 0;
    let mut affected: usize = 0;
    let mut i: usize = 0;
    while i < count
        invariant
            i <= count,
            count == platform_impacts.keys().len(),
            count == impacts.len(),
            impacts == platform_impacts.values(),
            total == sum_of_totals(impacts, i as int),
            affected == sum_of_affected(impacts, i as int),
        decreases count - i,
    {
        let impact = platform_impacts.value_at(i);
        if impact.total_lines > usize::MAX - total || impact.affected_lines > usize::MAX - affected {
            proof {
                lemma_sums_grow(impacts, i + 1, impacts.len() as int);
            }
            return None;
        }
        total = total + impact.total_lines;
        affected = affected + impact.affected_lines;
        i = i + 1;
    }
    Some((total, affected))
}

} // verus!
