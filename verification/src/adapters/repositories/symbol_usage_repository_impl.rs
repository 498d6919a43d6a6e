use vstd::prelude::*;
use crate::adapters::platforms::{detect_usage_with_patterns, detected};
use crate::analyzer::models::{location_views, SymbolUsage as Summary, SymbolUsageView as SummaryView};
use crate::analyzer::usage_detector::{locations_of, names_in_order, str_texts, summarizes};
use crate::domain::entities::{
    usage_views, AnalysisError, Language, SourceFile, Symbol, SymbolUsage, SymbolUsageView,
};
use crate::domain::repositories::SymbolUsageRepository;
use crate::string_map::StringMap;
use crate::text::{lemma_texts_push, texts};

verus! {

/// The names of the symbols, in their order.
pub open spec fn symbol_names(symbols: Seq<Symbol>) -> Seq<Seq<char>> {
    Seq::new(symbols.len(), |i: int| symbols[i].name@)
}

/// The beginnings of lines in which no use is looked for, by language.
pub open spec fn skipped_prefixes(language: Language) -> Seq<Seq<char>> {
    match language {
        Language::Kotlin | Language::Java => seq!["//"@, "/*"@, "*"@, "import "@],
        Language::Swift | Language::ObjectiveC => seq!["//"@, "/*"@, "*"@, "import "@, "#import"@],
    }
}

/// The occurrences of `name` among `found`, in their order.
pub open spec fn named(found: Seq<SymbolUsageView>, name: Seq<char>) -> Seq<SymbolUsageView> {
    let places = locations_of(found, name);
    Seq::new(
        places.len(),
        |i: int|
            SymbolUsageView {
                symbol_name: name,
                file_path: places[i].file,
                line_number: places[i].line,
                context: places[i].context,
            },
    )
}

/// The occurrences of each of `names` among `found`, name after name.
pub open spec fn regrouped(found: Seq<SymbolUsageView>, names: Seq<Seq<char>>) -> Seq<
    SymbolUsageView,
>
    decreases names.len(),
{
    if names.len() == 0 {
        Seq::empty()
    } else {
        regrouped(found, names.drop_last()) + named(found, names.last())
    }
}

/// The occurrences sorted by symbol: the symbols in the order of their first
/// occurrence, the occurrences of each in their own order.
pub open spec fn grouped_by_symbol(found: Seq<SymbolUsageView>) -> Seq<SymbolUsageView> {
    regrouped(found, names_in_order(found))
}

/// The occurrences that a summary holds, under the name `name`.
pub open spec fn usages_under(name: Seq<char>, summary: SummaryView) -> Seq<SymbolUsageView> {
    Seq::new(
        summary.usage_lines.len(),
        |i: int|
            SymbolUsageView {
                symbol_name: name,
                file_path: summary.usage_lines[i].file,
                line_number: summary.usage_lines[i].line,
                context: summary.usage_lines[i].context,
            },
    )
}

/// The occurrences that the first `upto` summaries of a map hold.
pub open spec fn flattened(map: StringMap<Summary>, upto: int) -> Seq<SymbolUsageView>
    decreases upto,
{
    if upto <= 0 {
        Seq::empty()
    } else {
        flattened(map, upto - 1) + usages_under(map.keys()[upto - 1], map.values()[upto - 1]@)
    }
}

/// A map that sums up occurrences holds them sorted by symbol.
pub proof fn lemma_flattened(map: StringMap<Summary>, found: Seq<SymbolUsageView>, upto: int)
    requires
        summarizes(map, found),
        0 <= upto <= map.keys().len(),
    ensures
        flattened(map, upto) == regrouped(found, map.keys().take(upto)),
    decreases upto,
{
    if upto > 0 {
        lemma_flattened(map, found, upto - 1);
        let names = map.keys().take(upto);
        assert(names.drop_last() =~= map.keys().take(upto - 1));
        assert(names.last() == map.keys()[upto - 1]);
        assert(map.values()[upto - 1]@.usage_lines == locations_of(found, map.keys()[upto - 1]));
        assert(usages_under(map.keys()[upto - 1], map.values()[upto - 1]@) =~= named(
            found,
            map.keys()[upto - 1],
        ));
    } else {
        assert(map.keys().take(0) =~= Seq::<Seq<char>>::empty());
    }
}

/// The occurrences that the summaries of a map hold, as a list: summary
/// after summary, each under the name of its key.
pub fn flatten_usages(map: &StringMap<Summary>) -> (usages: Vec<SymbolUsage>)
    ensures
        usage_views(usages@) == flattened(*map, map.keys().len() as int),
{
    let mut usages: Vec<SymbolUsage> = Vec::new();
    let count = map.len();
    let mut i: usize = 0;
    assert(usage_views(usages@) =~= flattened(*map, 0));
    while i < count
        invariant
            i <= count,
            count == map.keys().len(),
            usage_views(usages@) == flattened(*map, i as int),
        decreases count - i,
    {
        let name = map.key_at(i);
        let summary = map.value_at(i);
        let ghost before = usage_views(usages@);
        let ghost added = usages_under(name@, summary@);
        let mut k: usize = 0;
        assert(usage_views(usages@) =~= before + added.take(0));
        while k < summary.usage_lines.len()
            invariant
                k <= summary.usage_lines.len(),
                added == usages_under(name@, summary@),
                usage_views(usages@) == before + added.take(k as int),
            decreases summary.usage_lines.len() - k,
        {
            let place = &summary.usage_lines[k];
            let usage = SymbolUsage {
                symbol_name: name.clone(),
                file_path: place.file.clone(),
                line_number: place.line,
                context: place.context.clone(),
            };
            let ghost previous = usage_views(usages@);
            usages.push(usage);
            proof {
                assert(location_views(summary.usage_lines@)[k as int] == place@);
                assert(usage_views(usages@) =~= previous.push(usage@));
                assert(before + added.take(k + 1) =~= (before + added.take(k as int)).push(
                    added[k as int],
                ));
            }
            k = k + 1;
        }
        assert(added.take(k as int) =~= added);
        i = i + 1;
    }
    usages
}

/// Finds the uses of shared symbols in application files.
pub struct SymbolUsageRepositoryImpl {}

impl SymbolUsageRepositoryImpl {
    /// A repository.
    pub fn new() -> Self {
        SymbolUsageRepositoryImpl {  }
    }

    /// The beginnings of lines in which no use is looked for: comments and
    /// imports, as the file's language writes them.
    pub fn get_comment_prefixes(source_file: &SourceFile) -> (prefixes: Vec<&'static str>)
        ensures
            str_texts(prefixes@) == skipped_prefixes(source_file.language),
    {
        match source_file.language {
            Language::Kotlin | Language::Java => {
                let prefixes = vec!["//", "/*", "*", "import "];
                assert(str_texts(prefixes@) =~= skipped_prefixes(source_file.language));
                prefixes
            },
            Language::Swift | Language::ObjectiveC => {
                let prefixes = vec!["//", "/*", "*", "import ", "#import"];
                assert(str_texts(prefixes@) =~= skipped_prefixes(source_file.language));
                prefixes
            },
        }
    }

    /// The names of the symbols, in their order.
    pub fn names_of(symbols: &[Symbol]) -> (names: Vec<String>)
        ensures
            texts(names@) == symbol_names(symbols@),
    {
        let mut names: Vec<String> = Vec::new();
        let mut i: usize = 0;
        while i < symbols.len()
            invariant
                i <= symbols.len(),
                texts(names@) == symbol_names(symbols@).take(i as int),
            decreases symbols.len() - i,
        {
            proof {
                lemma_texts_push(names@, symbols@[i as int].name);
            }
            names.push(symbols[i].name.clone());
            assert(texts(names@) =~= symbol_names(symbols@).take(i + 1));
            i = i + 1;
        }
        assert(symbol_names(symbols@).take(i as int) =~= symbol_names(symbols@));
        names
    }

    /// The occurrences of `symbols` in `source_file`, sorted by symbol: the
    /// symbols in the order of their first occurrence, the occurrences of
    /// each from the top of the file down.
    pub fn usages_in(&self, source_file: &SourceFile, symbols: &[Symbol]) -> (usages: Vec<
        SymbolUsage,
    >)
        ensures
            usage_views(usages@) == grouped_by_symbol(
                detected(
                    source_file.content@,
                    source_file.path@,
                    symbol_names(symbols@),
                    skipped_prefixes(source_file.language),
                ),
            ),
    {
        let names = Self::names_of(symbols);
        let comment_prefixes = Self::get_comment_prefixes(source_file);
        let usages_map = detect_usage_with_patterns(
            source_file.content.as_str(),
            source_file.path.as_str(),
            names.as_slice(),
            comment_prefixes.as_slice(),
        );
        proof {
            let found = detected(
                source_file.content@,
                source_file.path@,
                symbol_names(symbols@),
                skipped_prefixes(source_file.language),
            );
            lemma_flattened(usages_map, found, usages_map.keys().len() as int);
            assert(usages_map.keys().take(usages_map.keys().len() as int) =~= usages_map.keys());
        }
        flatten_usages(&usages_map)
    }
}

impl SymbolUsageRepository for SymbolUsageRepositoryImpl {
    fn detect_symbol_usage(&self, source_file: &SourceFile, symbols: &[Symbol]) -> (result: Result<
        Vec<SymbolUsage>,
        AnalysisError,
    >)
        ensures
            result matches Ok(usages) && usage_views(usages@) == grouped_by_symbol(
                detected(
                    source_file.content@,
                    source_file.path@,
                    symbol_names(symbols@),
                    skipped_prefixes(source_file.language),
                ),
            ),
    {
        Ok(self.usages_in(source_file, symbols))
    }
}

} // verus!
