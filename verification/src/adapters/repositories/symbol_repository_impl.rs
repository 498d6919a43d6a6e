use vstd::prelude::*;
use vstd::string::*;
use crate::analyzer::dependency_graph::file_views;
use crate::analyzer::models::KmpSymbolView;
use crate::analyzer::symbol_extractor::{extracted_symbols, SymbolExtractor};
use crate::domain::entities::{symbol_views, SourceFile, SourceFileView, Symbol, SymbolType, SymbolView};
use crate::text::{chars_of, find_in, last_index_of, last_position, occurs_at, occurs_in};

verus! {

/// `needle` occurs in `text` at `at` and nowhere before.
pub open spec fn is_first_occurrence(text: Seq<char>, needle: Seq<char>, at: int) -> bool {
    occurs_at(text, needle, at) && forall|j: int| 0 <= j < at ==> !occurs_at(text, needle, j)
}

/// What follows the last slash of `text`, or all of it where it has none.
pub open spec fn last_component(text: Seq<char>) -> Seq<char> {
    match last_position(text, '/') {
        Some(i) => text.skip(i + 1),
        None => text,
    }
}

/// The module of the file at `path`: the directory that holds the first
/// `src` directory of the path, `unknown` where the path has none.
pub open spec fn module_of(path: Seq<char>) -> Seq<char> {
    if occurs_in(path, "/src/"@) {
        let at = choose|at: int| is_first_occurrence(path, "/src/"@, at);
        last_component(path.take(at))
    } else {
        "unknown"@
    }
}

/// The kind of a symbol, carried over from the extractor's kinds.
pub open spec fn converted_kind(kind: crate::analyzer::models::SymbolType) -> SymbolType {
    match kind {
        crate::analyzer::models::SymbolType::Class => SymbolType::Class,
        crate::analyzer::models::SymbolType::Interface => SymbolType::Interface,
        crate::analyzer::models::SymbolType::Object => SymbolType::Object,
        crate::analyzer::models::SymbolType::Function => SymbolType::Function,
        crate::analyzer::models::SymbolType::Property => SymbolType::Property,
        crate::analyzer::models::SymbolType::TypeAlias => SymbolType::TypeAlias,
    }
}

/// A symbol of the extractor as a symbol of the analysis.
pub open spec fn converted(symbol: KmpSymbolView) -> SymbolView {
    SymbolView {
        name: symbol.name,
        symbol_type: converted_kind(symbol.symbol_type),
        module: symbol.module,
        file_path: symbol.file_path,
        is_public: symbol.is_public,
    }
}

/// The symbols that one file declares.
pub open spec fn symbols_of_file(file: SourceFileView) -> Seq<SymbolView> {
    let found = extracted_symbols(file.content, file.path, module_of(file.path));
    Seq::new(found.len(), |i: int| converted(found[i]))
}

/// The symbols that the files declare, file after file.
pub open spec fn symbols_of_files(files: Seq<SourceFileView>) -> Seq<SymbolView>
    decreases files.len(),
{
    if files.len() == 0 {
        Seq::empty()
    } else {
        symbols_of_files(files.drop_last()) + symbols_of_file(files.last())
    }
}

/// Extracting twice from the same files gives the same symbols, each as
/// often as before.
pub proof fn lemma_extraction_repeats(
    first: Seq<Symbol>,
    second: Seq<Symbol>,
    files: Seq<SourceFileView>,
)
    requires
        symbol_views(first) == symbols_of_files(files),
        symbol_views(second) == symbols_of_files(files),
    ensures
        symbol_views(first) == symbol_views(second),
        symbol_views(first).to_multiset() == symbol_views(second).to_multiset(),
{
}

/// Extracts the symbols of the shared module from the texts of its files.
pub struct SymbolRepositoryImpl {
    extractor: SymbolExtractor,
}

impl SymbolRepositoryImpl {
    /// A repository with a fresh extractor.
    pub fn new() -> Self {
        SymbolRepositoryImpl { extractor: SymbolExtractor::new() }
    }

    /// The module of the file at `file_path`: see `module_of`.
    pub fn determine_module_name(file_path: &str) -> (module: String)
        ensures
            module@ == module_of(file_path@),
    {
        let path = chars_of(file_path);
        let mark = chars_of("/src/");
        match find_in(&path, &mark) {
            Some(at) => {
                proof {
                    assert(is_first_occurrence(file_path@, "/src/"@, at as int));
                    let chosen = choose|c: int| is_first_occurrence(file_path@, "/src/"@, c);
                    assert(chosen == at);
                }
                let before = file_path.substring_char(0, at);
                assert(before@ =~= file_path@.take(at as int));
                let before_chars = chars_of(before);
                match last_index_of(&before_chars, '/') {
                    Some(slash) => {
                        let name = before.substring_char(slash + 1, before_chars.len());
                        assert(name@ =~= before@.skip(slash + 1));
                        name.to_owned()
                    },
                    None => before.to_owned(),
                }
            },
            None => "unknown".to_owned(),
        }
    }

    /// The kind of a symbol, carried over from the extractor's kinds.
    pub fn convert_symbol_type(old_type: &crate::analyzer::models::SymbolType) -> (kind: SymbolType)
        ensures
            kind == converted_kind(*old_type),
    {
        match old_type {
            crate::analyzer::models::SymbolType::Class => SymbolType::Class,
            crate::analyzer::models::SymbolType::Interface => SymbolType::Interface,
            crate::analyzer::models::SymbolType::Object => SymbolType::Object,
            crate::analyzer::models::SymbolType::Function => SymbolType::Function,
            crate::analyzer::models::SymbolType::Property => SymbolType::Property,
            crate::analyzer::models::SymbolType::TypeAlias => SymbolType::TypeAlias,
        }
    }

    /// The public symbols that the files of the shared module declare, file
    /// after file; within a file kind after kind.
    pub fn extract_kmp_symbols(&self, kmp_files: &[SourceFile]) -> (symbols: Vec<Symbol>)
        ensures
            symbol_views(symbols@) == symbols_of_files(file_views(kmp_files@)),
    {
        let ghost all = file_views(kmp_files@);
        let mut symbols: Vec<Symbol> = Vec::new();
        let mut i: usize = 0;
        assert(all.take(0) =~= Seq::<SourceFileView>::empty());
        assert(symbol_views(symbols@) =~= symbols_of_files(all.take(0)));
        while i < kmp_files.len()
            invariant
                i <= kmp_files.len(),
                all == file_views(kmp_files@),
                symbol_views(symbols@) == symbols_of_files(all.take(i as int)),
            decreases kmp_files.len() - i,
        {
            let file = &kmp_files[i];
            proof {
                assert(all.take(i + 1).drop_last() =~= all.take(i as int));
                assert(all.take(i + 1).last() == file@);
            }
            let module = Self::determine_module_name(file.path.as_str());
            let extracted = self.extractor.extract_symbols(
                file.path.as_str(),
                file.content.as_str(),
                module.as_str(),
            );
            let ghost before = symbol_views(symbols@);
            let ghost added = symbols_of_file(file@);
            let mut k: usize = 0;
            assert(symbol_views(symbols@) =~= before + added.take(0));
            while k < extracted.len()
                invariant
                    k <= extracted.len(),
                    added == symbols_of_file(file@),
                    added.len() == extracted.len(),
                    forall|j: int|
                        0 <= j < extracted.len() ==> added[j] == converted(
                            (#[trigger] extracted@[j])@,
                        ),
                    symbol_views(symbols@) == before + added.take(k as int),
                decreases extracted.len() - k,
            {
                let old_symbol = &extracted[k];
                let symbol = Symbol {
                    name: old_symbol.name.clone(),
                    symbol_type: Self::convert_symbol_type(&old_symbol.symbol_type),
                    module: old_symbol.module.clone(),
                    file_path: old_symbol.file_path.clone(),
                    is_public: old_symbol.is_public,
                };
                let ghost previous = symbol_views(symbols@);
                symbols.push(symbol);
                proof {
                    assert(symbol_views(symbols@) =~= previous.push(symbol@));
                    assert(before + added.take(k + 1) =~= (before + added.take(k as int)).push(
                        added[k as int],
                    ));
                }
                k = k + 1;
            }
            assert(added.take(k as int) =~= added);
            i = i + 1;
        }
        assert(all.take(i as int) =~= all);
        symbols
    }
}

} // verus!
