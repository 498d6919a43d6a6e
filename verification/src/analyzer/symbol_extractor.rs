use vstd::prelude::*;
use vstd::string::*;
use crate::pattern::{first_groups, option_texts, regex_first_groups};
use crate::text::{contains, occurs_in, starts_with};
use super::models::{kmp_symbol_views, KmpSymbol, KmpSymbolView, SymbolType};

verus! {

/// A class declaration at the start of a line, with or without `public`.
pub const CLASS_PATTERN: &'static str = "(?m)^\\s*(?:public\\s+)?class\\s+([A-Z][a-zA-Z0-9_]*)";

/// An interface declaration.
pub const INTERFACE_PATTERN: &'static str =
    "(?m)^\\s*(?:public\\s+)?interface\\s+([A-Z][a-zA-Z0-9_]*)";

/// A singleton (`object`) declaration.
pub const OBJECT_PATTERN: &'static str = "(?m)^\\s*(?:public\\s+)?object\\s+([A-Z][a-zA-Z0-9_]*)";

/// A function declaration: a lower-case name followed by an opening parenthesis.
pub const FUNCTION_PATTERN: &'static str =
    "(?m)^\\s*(?:public\\s+)?fun\\s+([a-z][a-zA-Z0-9_]*)\\s*\\(";

/// A property declaration: `val` or `var`, a lower-case name, then `:` or `=`.
pub const PROPERTY_PATTERN: &'static str =
    "(?m)^\\s*(?:public\\s+)?(?:val|var)\\s+([a-z][a-zA-Z0-9_]*)\\s*[:=]";

/// A type alias declaration.
pub const TYPEALIAS_PATTERN: &'static str =
    "(?m)^\\s*(?:public\\s+)?typealias\\s+([A-Z][a-zA-Z0-9_]*)";

/// The groups that took part in their match, in order.
pub open spec fn present(groups: Seq<Option<Seq<char>>>) -> Seq<Seq<char>>
    decreases groups.len(),
{
    if groups.len() == 0 {
        Seq::empty()
    } else {
        match groups.last() {
            Some(text) => present(groups.drop_last()).push(text),
            None => present(groups.drop_last()),
        }
    }
}

/// The names that `pattern` captures in `content`, in the order of their
/// matches; none where the pattern does not compile.
pub open spec fn captured_names(pattern: Seq<char>, content: Seq<char>) -> Seq<Seq<char>> {
    match regex_first_groups(pattern, content) {
        Some(groups) => present(groups),
        None => Seq::empty(),
    }
}

/// One public symbol of the given kind for each name.
pub open spec fn symbols_named(
    names: Seq<Seq<char>>,
    kind: SymbolType,
    file_path: Seq<char>,
    module: Seq<char>,
) -> Seq<KmpSymbolView> {
    Seq::new(
        names.len(),
        |i: int|
            KmpSymbolView { name: names[i], symbol_type: kind, module, file_path, is_public: true },
    )
}

/// The file carries a marker of non-public declarations: the word `internal`
/// followed by a space anywhere, or `private` followed by a space at its very
/// beginning. Such a file is skipped as a whole, which is a coarse reading
/// of visibility and can miss or add symbols.
pub open spec fn is_private_text(content: Seq<char>) -> bool {
    occurs_in(content, "internal "@) || "private "@.is_prefix_of(content)
}

/// The symbols of one kind declared in `content`.
pub open spec fn symbols_of_kind(
    pattern: Seq<char>,
    kind: SymbolType,
    content: Seq<char>,
    file_path: Seq<char>,
    module: Seq<char>,
) -> Seq<KmpSymbolView> {
    symbols_named(captured_names(pattern, content), kind, file_path, module)
}

/// The symbols declared in `content`: none for a file with a privacy marker,
/// else classes, interfaces, singletons, functions, properties and type
/// aliases, kind after kind, each kind in the order of the text.
pub open spec fn extracted_symbols(
    content: Seq<char>,
    file_path: Seq<char>,
    module: Seq<char>,
) -> Seq<KmpSymbolView> {
    if is_private_text(content) {
        Seq::empty()
    } else {
        symbols_of_kind(CLASS_PATTERN@, SymbolType::Class, content, file_path, module)
            + symbols_of_kind(INTERFACE_PATTERN@, SymbolType::Interface, content, file_path, module)
            + symbols_of_kind(OBJECT_PATTERN@, SymbolType::Object, content, file_path, module)
            + symbols_of_kind(FUNCTION_PATTERN@, SymbolType::Function, content, file_path, module)
            + symbols_of_kind(PROPERTY_PATTERN@, SymbolType::Property, content, file_path, module)
            + symbols_of_kind(TYPEALIAS_PATTERN@, SymbolType::TypeAlias, content, file_path, module)
    }
}

/// Copies the captured names out of the groups of successive matches.
pub fn names_of(groups: &Vec<Option<String>>) -> (names: Vec<String>)
    ensures
        crate::text::texts(names@) == present(option_texts(groups@)),
{
    let mut names: Vec<String> = Vec::new();
    let mut i: usize = 0;
    while i < groups.len()
        invariant
            i <= groups.len(),
            crate::text::texts(names@) == present(option_texts(groups@).take(i as int)),
        decreases groups.len() - i,
    {
        let ghost all = option_texts(groups@);
        assert(all.take(i + 1).drop_last() =~= all.take(i as int));
        match &groups[i] {
            Some(name) => {
                proof {
                    crate::text::lemma_texts_push(names@, *name);
                }
                names.push(name.clone());
            },
            None => {},
        }
        i = i + 1;
    }
    assert(option_texts(groups@).take(i as int) =~= option_texts(groups@));
    names
}

/// The names that `pattern` captures in `content`: see `captured_names`.
pub fn capture_names(pattern: &str, content: &str) -> (names: Vec<String>)
    ensures
        crate::text::texts(names@) == captured_names(pattern@, content@),
{
    match first_groups(pattern, content) {
        Some(groups) => names_of(&groups),
        None => {
            let names: Vec<String> = Vec::new();
            assert(crate::text::texts(names@) =~= Seq::<Seq<char>>::empty());
            names
        },
    }
}

/// Appends to `symbols` one public symbol of the given kind for each name.
pub fn push_symbols(
    symbols: &mut Vec<KmpSymbol>,
    names: &Vec<String>,
    kind: SymbolType,
    file_path: &str,
    module: &str,
)
    ensures
        kmp_symbol_views(final(symbols)@) == kmp_symbol_views(old(symbols)@) + symbols_named(
            crate::text::texts(names@),
            kind,
            file_path@,
            module@,
        ),
{
    let ghost before = kmp_symbol_views(symbols@);
    let ghost added = symbols_named(crate::text::texts(names@), kind, file_path@, module@);
    let mut i: usize = 0;
    assert(kmp_symbol_views(symbols@) =~= before + added.take(0));
    while i < names.len()
        invariant
            i <= names.len(),
            added == symbols_named(crate::text::texts(names@), kind, file_path@, module@),
            kmp_symbol_views(symbols@) == before + added.take(i as int),
        decreases names.len() - i,
    {
        let symbol = KmpSymbol {
            name: names[i].clone(),
            symbol_type: kind,
            module: module.to_owned(),
            file_path: file_path.to_owned(),
            is_public: true,
        };
        let ghost previous = kmp_symbol_views(symbols@);
        symbols.push(symbol);
        assert(kmp_symbol_views(symbols@) =~= previous.push(symbol@));
        assert(before + added.take(i + 1) =~= (before + added.take(i as int)).push(added[i as int]));
        i = i + 1;
    }
    assert(added.take(i as int) =~= added);
}

/// Extracts the public symbols that a file of the shared module declares.
pub struct SymbolExtractor {}

impl SymbolExtractor {
    /// An extractor for the six kinds of declaration.
    pub fn new() -> Self {
        SymbolExtractor {  }
    }

    /// Whether the file carries a marker of non-public declarations.
    pub fn is_private_file(&self, content: &str) -> (private: bool)
        ensures
            private == is_private_text(content@),
    {
        contains(content, "internal ") || starts_with(content, "private ")
    }

    /// Appends the symbols of one kind that `content` declares.
    fn extract_kind(
        &self,
        symbols: &mut Vec<KmpSymbol>,
        pattern: &str,
        kind: SymbolType,
        content: &str,
        file_path: &str,
        module: &str,
    )
        ensures
            kmp_symbol_views(final(symbols)@) == kmp_symbol_views(old(symbols)@) + symbols_of_kind(
                pattern@,
                kind,
                content@,
                file_path@,
                module@,
            ),
    {
        let names = capture_names(pattern, content);
        push_symbols(symbols, &names, kind, file_path, module);
    }

    /// The symbols that `content`, the text of the file at `file_path`,
    /// declares: see `extracted_symbols`.
    pub fn extract_symbols(&self, file_path: &str, content: &str, module: &str) -> (symbols: Vec<
        KmpSymbol,
    >)
        ensures
            kmp_symbol_views(symbols@) == extracted_symbols(content@, file_path@, module@),
    {
        let mut symbols: Vec<KmpSymbol> = Vec::new();
        if self.is_private_file(content) {
            assert(kmp_symbol_views(symbols@) =~= Seq::<KmpSymbolView>::empty());
            return symbols;
        }
        assert(kmp_symbol_views(symbols@) =~= Seq::<KmpSymbolView>::empty());
        self.extract_kind(&mut symbols, CLASS_PATTERN, SymbolType::Class, content, file_path, module);
        self.extract_kind(
            &mut symbols,
            INTERFACE_PATTERN,
            SymbolType::Interface,
            content,
            file_path,
            module,
        );
        self.extract_kind(
            &mut symbols,
            OBJECT_PATTERN,
            SymbolType::Object,
            content,
            file_path,
            module,
        );
        self.extract_kind(
            &mut symbols,
            FUNCTION_PATTERN,
            SymbolType::Function,
            content,
            file_path,
            module,
        );
        self.extract_kind(
            &mut symbols,
            PROPERTY_PATTERN,
            SymbolType::Property,
            content,
            file_path,
            module,
        );
        self.extract_kind(
            &mut symbols,
            TYPEALIAS_PATTERN,
            SymbolType::TypeAlias,
            content,
            file_path,
            module,
        );
        assert(kmp_symbol_views(symbols@) =~= extracted_symbols(content@, file_path@, module@));
        symbols
    }
}

} // verus!
