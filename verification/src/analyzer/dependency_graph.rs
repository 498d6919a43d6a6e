//! The file dependency graph: which file imports which, found by resolving
//! import statements against an index of declared types, and what a set of
//! files reaches along those edges.

use vstd::prelude::*;
use vstd::string::*;
use crate::domain::entities::{SourceFile, SourceFileView};
use crate::file_set::FileSet;
use crate::pattern::{first_groups, option_texts, regex_first_groups};
use crate::string_map::StringMap;
use crate::text::{lemma_texts_push, starts_with, texts};
use super::reachability::{reach, without};
use super::symbol_extractor::{capture_names, captured_names};

verus! {

/// A package declaration at the start of a line.
pub const PACKAGE_PATTERN: &'static str = "(?m)^package\\s+([a-zA-Z0-9_.]+)";

/// The first class, interface or singleton declared at the start of a line.
pub const PRIMARY_TYPE_PATTERN: &'static str =
    "(?m)^\\s*(?:public\\s+)?(?:class|interface|object)\\s+([A-Z][a-zA-Z0-9_]*)";

/// An import statement at the start of a line.
pub const IMPORT_PATTERN: &'static str = "(?m)^import\\s+([a-zA-Z0-9_.]+)";

/// A map from files to sets of files.
pub type Edges = Map<Seq<char>, Set<Seq<char>>>;

/// The files that `edges` lead to from `file`; none where `file` has no entry.
pub open spec fn neighbours(edges: Edges, file: Seq<char>) -> Set<Seq<char>> {
    if edges.contains_key(file) {
        edges[file]
    } else {
        Set::empty()
    }
}

/// Each file of the chain but the first is a neighbour of the one before it.
pub open spec fn is_chain(edges: Edges, chain: Seq<Seq<char>>) -> bool {
    forall|i: int|
        0 <= i < chain.len() - 1 ==> neighbours(edges, chain[i]).contains(#[trigger] chain[i + 1])
}

/// `file` is one of `from` or is reached from one of them along the edges.
pub open spec fn reaches(edges: Edges, from: Set<Seq<char>>, file: Seq<char>) -> bool {
    exists|chain: Seq<Seq<char>>|
        chain.len() > 0 && from.contains(chain[0]) && chain.last() == file && #[trigger] is_chain(
            edges,
            chain,
        )
}

/// All that `from` reaches, `from` itself included.
pub open spec fn reachable(edges: Edges, from: Set<Seq<char>>) -> Set<Seq<char>> {
    Set::new(|file: Seq<char>| reaches(edges, from, file))
}

/// What a map of file sets says, as plain values.
pub open spec fn edges_of(map: StringMap<FileSet>) -> Edges {
    Map::new(|file: Seq<char>| map@.contains_key(file), |file: Seq<char>| map@[file]@)
}

/// The edges with `file` added to the neighbours of each of `targets`.
pub open spec fn with_dependent(edges: Edges, targets: Set<Seq<char>>, file: Seq<char>) -> Edges {
    Map::new(
        |t: Seq<char>| edges.contains_key(t) || targets.contains(t),
        |t: Seq<char>|
            if targets.contains(t) {
                neighbours(edges, t).insert(file)
            } else {
                edges[t]
            },
    )
}

/// The first capture of the first match of `pattern` in `content`.
pub open spec fn first_capture(pattern: Seq<char>, content: Seq<char>) -> Option<Seq<char>> {
    match regex_first_groups(pattern, content) {
        Some(groups) => if groups.len() > 0 {
            groups[0]
        } else {
            None
        },
        None => None,
    }
}

/// The package that `content` declares, empty where it declares none.
pub open spec fn declared_package(content: Seq<char>) -> Seq<char> {
    match first_capture(PACKAGE_PATTERN@, content) {
        Some(package) => package,
        None => Seq::empty(),
    }
}

/// The name of the first type that `content` declares.
pub open spec fn primary_type(content: Seq<char>) -> Option<Seq<char>> {
    first_capture(PRIMARY_TYPE_PATTERN@, content)
}

/// The name under which a file is indexed: its package, a dot, and its
/// primary type. A file without a primary type is not indexed.
pub open spec fn qualified_name(content: Seq<char>) -> Option<Seq<char>> {
    match primary_type(content) {
        Some(name) => Some(declared_package(content) + "."@ + name),
        None => None,
    }
}

/// What `content` imports, in the order of the text.
pub open spec fn imports_of(content: Seq<char>) -> Seq<Seq<char>> {
    captured_names(IMPORT_PATTERN@, content)
}

/// The views of a sequence of files.
pub open spec fn file_views(files: Seq<SourceFile>) -> Seq<SourceFileView> {
    Seq::new(files.len(), |i: int| files[i]@)
}

/// The package index as two lists of equal length: indexed names, and the
/// file that declares each.
pub struct PackageIndex {
    pub names: Seq<Seq<char>>,
    pub files: Seq<Seq<char>>,
}

impl PackageIndex {
    /// The index with `file` under `name`: a known name keeps its place and
    /// gets the new file, a new one goes to the end.
    pub open spec fn with(self, name: Seq<char>, file: Seq<char>) -> PackageIndex {
        match self.names.index_of_first(name) {
            Some(i) => PackageIndex { names: self.names, files: self.files.update(i, file) },
            None => PackageIndex { names: self.names.push(name), files: self.files.push(file) },
        }
    }

    /// The index after the files have been indexed one after the other,
    /// each under its qualified name.
    pub open spec fn indexed(self, files: Seq<SourceFileView>) -> PackageIndex
        decreases files.len(),
    {
        if files.len() == 0 {
            self
        } else {
            let before = self.indexed(files.drop_last());
            match qualified_name(files.last().content) {
                Some(name) => before.with(name, files.last().path),
                None => before,
            }
        }
    }

    /// The position of the first indexed name that begins with `prefix`.
    pub open spec fn first_with_prefix(self, prefix: Seq<char>, within: int) -> Option<int>
        decreases within,
    {
        if within <= 0 {
            None
        } else {
            match self.first_with_prefix(prefix, within - 1) {
                Some(i) => Some(i),
                None => if prefix.is_prefix_of(self.names[within - 1]) {
                    Some(within - 1)
                } else {
                    None
                },
            }
        }
    }

    /// The file that an import resolves to: the file indexed under exactly
    /// that name, else the file of the first indexed name, in index order,
    /// that begins with the import.
    pub open spec fn resolved(self, import: Seq<char>) -> Option<Seq<char>> {
        match self.names.index_of_first(import) {
            Some(i) => Some(self.files[i]),
            None => match self.first_with_prefix(import, self.names.len() as int) {
                Some(i) => Some(self.files[i]),
                None => None,
            },
        }
    }

    /// The files that the imports resolve to; an import that resolves to
    /// nothing adds nothing.
    pub open spec fn targets(self, imports: Seq<Seq<char>>) -> Set<Seq<char>> {
        Set::new(
            |t: Seq<char>|
                exists|k: int|
                    0 <= k < imports.len() && self.resolved(#[trigger] imports[k]) == Some(t),
        )
    }

    /// What the first hit for a prefix is.
    pub proof fn lemma_first_with_prefix(self, prefix: Seq<char>, within: int)
        requires
            0 <= within <= self.names.len(),
        ensures
            match self.first_with_prefix(prefix, within) {
                Some(i) => 0 <= i < within && prefix.is_prefix_of(self.names[i]) && forall|j: int|
                    0 <= j < i ==> !prefix.is_prefix_of(#[trigger] self.names[j]),
                None => forall|j: int|
                    0 <= j < within ==> !prefix.is_prefix_of(#[trigger] self.names[j]),
            },
        decreases within,
    {
        if within > 0 {
            self.lemma_first_with_prefix(prefix, within - 1);
        }
    }
}

/// The position of the last of `files` whose path is `path`.
pub open spec fn last_with_path(files: Seq<SourceFileView>, path: Seq<char>) -> Option<int>
    decreases files.len(),
{
    if files.len() == 0 {
        None
    } else if files.last().path == path {
        Some(files.len() - 1)
    } else {
        last_with_path(files.drop_last(), path)
    }
}

/// The forward edges after `files` have been linked against `index`: each of
/// the files has as neighbours what its imports resolve to, the last file
/// deciding where a path occurs more than once; other entries stay.
pub open spec fn linked_forward(
    before: Edges,
    index: PackageIndex,
    files: Seq<SourceFileView>,
) -> Edges {
    Map::new(
        |f: Seq<char>| before.contains_key(f) || last_with_path(files, f) is Some,
        |f: Seq<char>|
            match last_with_path(files, f) {
                Some(i) => index.targets(imports_of(files[i].content)),
                None => before[f],
            },
    )
}

/// The files among `files` one of whose imports resolves to `target`.
pub open spec fn importers_of(
    index: PackageIndex,
    files: Seq<SourceFileView>,
    target: Seq<char>,
) -> Set<Seq<char>> {
    Set::new(
        |f: Seq<char>|
            exists|i: int|
                0 <= i < files.len() && (#[trigger] files[i]).path == f && index.targets(
                    imports_of(files[i].content),
                ).contains(target),
    )
}

/// Whether an import of one of `files` resolves to `target`.
pub open spec fn is_imported(
    index: PackageIndex,
    files: Seq<SourceFileView>,
    target: Seq<char>,
) -> bool {
    exists|i: int|
        0 <= i < files.len() && index.targets(imports_of((#[trigger] files[i]).content)).contains(
            target,
        )
}

/// The reverse edges after `files` have been linked against `index`: every
/// file that an import resolves to gains the importing file as a neighbour.
pub open spec fn linked_reverse(
    before: Edges,
    index: PackageIndex,
    files: Seq<SourceFileView>,
) -> Edges {
    Map::new(
        |t: Seq<char>| before.contains_key(t) || is_imported(index, files, t),
        |t: Seq<char>| neighbours(before, t) + importers_of(index, files, t),
    )
}

/// Where the last file with a given path stands.
pub proof fn lemma_last_with_path(files: Seq<SourceFileView>, path: Seq<char>)
    ensures
        match last_with_path(files, path) {
            Some(i) => 0 <= i < files.len() && files[i].path == path,
            None => forall|i: int| 0 <= i < files.len() ==> (#[trigger] files[i]).path != path,
        },
    decreases files.len(),
{
    if files.len() > 0 {
        lemma_last_with_path(files.drop_last(), path);
        if files.last().path != path {
            assert forall|i: int| 0 <= i < files.len() && last_with_path(files, path)
                is None implies (#[trigger] files[i]).path != path by {
                if i < files.len() - 1 {
                    assert(files.drop_last()[i] == files[i]);
                }
            }
        }
    }
}

/// Linking one more file puts its targets under its path and adds it to the
/// importers of each target.
pub proof fn lemma_link_one_more(
    forward: Edges,
    reverse: Edges,
    index: PackageIndex,
    files: Seq<SourceFileView>,
)
    requires
        files.len() > 0,
    ensures
        linked_forward(forward, index, files) == linked_forward(
            forward,
            index,
            files.drop_last(),
        ).insert(files.last().path, index.targets(imports_of(files.last().content))),
        linked_reverse(reverse, index, files) == with_dependent(
            linked_reverse(reverse, index, files.drop_last()),
            index.targets(imports_of(files.last().content)),
            files.last().path,
        ),
{
    let earlier = files.drop_last();
    let last = files.last();
    let targets = index.targets(imports_of(last.content));
    assert forall|f: Seq<char>| #[trigger]
        linked_forward(forward, index, files).contains_key(f) implies linked_forward(
        forward,
        index,
        files,
    )[f] == linked_forward(forward, index, earlier).insert(last.path, targets)[f] by {
        if f != last.path {
            lemma_last_with_path(earlier, f);
            match last_with_path(earlier, f) {
                Some(i) => {
                    assert(earlier[i] == files[i]);
                },
                None => {},
            }
        }
    }
    assert(linked_forward(forward, index, files) =~= linked_forward(
        forward,
        index,
        earlier,
    ).insert(last.path, targets));
    let linked = linked_reverse(reverse, index, files);
    let stepped = with_dependent(linked_reverse(reverse, index, earlier), targets, last.path);
    assert forall|t: Seq<char>| is_imported(index, files, t) <==> (is_imported(index, earlier, t)
        || targets.contains(t)) by {
        if is_imported(index, files, t) {
            let i = choose|i: int|
                0 <= i < files.len() && index.targets(
                    imports_of((#[trigger] files[i]).content),
                ).contains(t);
            if i < earlier.len() {
                assert(earlier[i] == files[i]);
            }
        }
        if is_imported(index, earlier, t) {
            let i = choose|i: int|
                0 <= i < earlier.len() && index.targets(
                    imports_of((#[trigger] earlier[i]).content),
                ).contains(t);
            assert(files[i] == earlier[i]);
        }
        if targets.contains(t) {
            assert(files[files.len() - 1] == last);
        }
    }
    assert forall|t: Seq<char>, f: Seq<char>|
        importers_of(index, files, t).contains(f) <==> (importers_of(index, earlier, t).contains(f)
            || (targets.contains(t) && f == last.path)) by {
        if importers_of(index, files, t).contains(f) {
            let i = choose|i: int|
                0 <= i < files.len() && (#[trigger] files[i]).path == f && index.targets(
                    imports_of(files[i].content),
                ).contains(t);
            if i < earlier.len() {
                assert(earlier[i] == files[i]);
            }
        }
        if importers_of(index, earlier, t).contains(f) {
            let i = choose|i: int|
                0 <= i < earlier.len() && (#[trigger] earlier[i]).path == f && index.targets(
                    imports_of(earlier[i].content),
                ).contains(t);
            assert(files[i] == earlier[i]);
        }
        if targets.contains(t) && f == last.path {
            assert(files[files.len() - 1] == last);
        }
    }
    assert(linked.dom() =~= stepped.dom());
    assert forall|t: Seq<char>| #[trigger] linked.contains_key(t) implies linked[t] =~= stepped[t] by {
        assert forall|f: Seq<char>| linked[t].contains(f) <==> stepped[t].contains(f) by {
            assert(importers_of(index, files, t).contains(f) <==> (importers_of(
                index,
                earlier,
                t,
            ).contains(f) || (targets.contains(t) && f == last.path)));
        }
    }
    assert(linked =~= stepped);
}

/// Adds `member` to the set under `key`, which is made where there is none.
pub fn add_edge(map: &mut StringMap<FileSet>, key: &str, member: String)
    ensures
        final(map).inv(),
        edges_of(*final(map)) == edges_of(*old(map)).insert(
            key@,
            neighbours(edges_of(*old(map)), key@).insert(member@),
        ),
{
    let ghost before = edges_of(*map);
    let at = match map.position(key) {
        Some(at) => at,
        None => {
            map.insert(key.to_owned(), FileSet::new());
            proof {
                old(map).keys().index_of_first_ensures(key@);
            }
            map.len() - 1
        },
    };
    proof {
        map.lemma_entry(at as int);
    }
    let ghost mid = *map;
    assert(mid.values()[at as int]@ == neighbours(before, key@));
    let mut set = map.replace_at(at, FileSet::new());
    set.insert(member);
    map.replace_at(at, set);
    proof {
        assert(edges_of(*map) =~= before.insert(key@, neighbours(before, key@).insert(member@)));
    }
}

/// The files of a project and what they import. `forward` maps a file to the
/// files it imports, `reverse` a file to the files that import it, and the
/// package index maps qualified type names to the files that declare them.
/// Every forward edge has its mirror in `reverse`.
pub struct DependencyGraph {
    dependencies: StringMap<FileSet>,
    reverse_dependencies: StringMap<FileSet>,
    package_map: StringMap<String>,
}

impl DependencyGraph {
    /// The maps are well formed and every forward edge is mirrored.
    #[verifier::type_invariant]
    pub closed spec fn inv(&self) -> bool {
        &&& self.dependencies.inv()
        &&& self.reverse_dependencies.inv()
        &&& self.package_map.inv()
        &&& forall|f: Seq<char>, t: Seq<char>|
            neighbours(self.forward(), f).contains(t) ==> #[trigger] neighbours(
                self.reverse(),
                t,
            ).contains(f)
    }

    /// For each linked file, what it imports.
    pub closed spec fn forward(&self) -> Edges {
        edges_of(self.dependencies)
    }

    /// For each imported file, what imports it.
    pub closed spec fn reverse(&self) -> Edges {
        edges_of(self.reverse_dependencies)
    }

    /// The linked files, in the order in which they were first linked.
    pub closed spec fn files(&self) -> Seq<Seq<char>> {
        self.dependencies.keys()
    }

    /// The imported files, in the order in which they were first imported.
    pub closed spec fn imported(&self) -> Seq<Seq<char>> {
        self.reverse_dependencies.keys()
    }

    /// The package index.
    pub closed spec fn index(&self) -> PackageIndex {
        PackageIndex { names: self.package_map.keys(), files: texts(self.package_map.values()) }
    }

    /// Nothing is indexed and nothing linked.
    pub open spec fn is_empty(&self) -> bool {
        &&& self.forward() == Edges::empty()
        &&& self.reverse() == Edges::empty()
        &&& self.index().names.len() == 0
        &&& self.index().files.len() == 0
    }

    /// In a valid graph every forward edge has its mirror, and the ordered
    /// lists of files spell the domains of the two maps.
    pub proof fn lemma_valid(&self)
        requires
            self.inv(),
        ensures
            forall|f: Seq<char>, t: Seq<char>|
                neighbours(self.forward(), f).contains(t) ==> #[trigger] neighbours(
                    self.reverse(),
                    t,
                ).contains(f),
            self.files().no_duplicates(),
            self.imported().no_duplicates(),
            self.forward().dom() == self.files().to_set(),
            self.reverse().dom() == self.imported().to_set(),
            self.index().names.no_duplicates(),
            self.index().names.len() == self.index().files.len(),
    {
        assert(self.forward().dom() =~= self.files().to_set());
        assert(self.reverse().dom() =~= self.imported().to_set());
    }

    /// The empty graph.
    pub fn new() -> (graph: Self)
        ensures
            graph.is_empty(),
            graph.inv(),
    {
        let graph = DependencyGraph {
            dependencies: StringMap::new(),
            reverse_dependencies: StringMap::new(),
            package_map: StringMap::new(),
        };
        assert(graph.forward() =~= Edges::empty());
        assert(graph.reverse() =~= Edges::empty());
        graph
    }

    /// The package that `content` declares, empty where it declares none.
    pub fn extract_package_name(&self, content: &str) -> (package: String)
        ensures
            package@ == declared_package(content@),
    {
        match first_capture_in(PACKAGE_PATTERN, content) {
            Some(package) => package,
            None => String::new(),
        }
    }

    /// The name of the first type that `content` declares.
    pub fn extract_primary_class_name(&self, content: &str) -> (name: Option<String>)
        ensures
            match name {
                Some(n) => primary_type(content@) == Some(n@),
                None => primary_type(content@) is None,
            },
    {
        first_capture_in(PRIMARY_TYPE_PATTERN, content)
    }

    /// What `content` imports, in the order of the text.
    pub fn extract_imports(&self, content: &str) -> (imports: Vec<String>)
        ensures
            texts(imports@) == imports_of(content@),
    {
        capture_names(IMPORT_PATTERN, content)
    }

    /// Indexes `file` under `name`.
    pub fn register_declaration(&mut self, name: String, file: String)
        ensures
            final(self).inv(),
            final(self).index() == old(self).index().with(name@, file@),
            final(self).forward() == old(self).forward(),
            final(self).reverse() == old(self).reverse(),
            final(self).files() == old(self).files(),
            final(self).imported() == old(self).imported(),
    {
        proof {
            use_type_invariant(&*self);
        }
        let mut graph = DependencyGraph::new();
        core::mem::swap(self, &mut graph);
        let DependencyGraph { dependencies, reverse_dependencies, mut package_map } = graph;
        let ghost before = package_map;
        package_map.insert(name, file);
        proof {
            before.keys().index_of_first_ensures(name@);
            match before.keys().index_of_first(name@) {
                Some(i) => {
                    assert(texts(package_map.values()) =~= texts(before.values()).update(i, file@));
                },
                None => {
                    lemma_texts_push(before.values(), file);
                },
            }
            let built = DependencyGraph { dependencies, reverse_dependencies, package_map };
            assert(built.forward() == old(self).forward());
            assert(built.reverse() == old(self).reverse());
        }
        *self = DependencyGraph { dependencies, reverse_dependencies, package_map };
    }

    /// The file that `import` resolves to: see `PackageIndex::resolved`.
    pub fn resolve_import(&self, import: &str) -> (file: Option<String>)
        ensures
            match file {
                Some(f) => self.index().resolved(import@) == Some(f@),
                None => self.index().resolved(import@) is None,
            },
    {
        proof {
            use_type_invariant(self);
            self.index().names.index_of_first_ensures(import@);
        }
        let ghost index = self.index();
        match self.package_map.position(import) {
            Some(i) => {
                let file = self.package_map.value_at(i).clone();
                assert(index.names.index_of_first(import@) == Some(i as int));
                return Some(file);
            },
            None => {},
        }
        let mut i: usize = 0;
        while i < self.package_map.len()
            invariant
                i <= index.names.len(),
                index == self.index(),
                self.inv(),
                index.names.index_of_first(import@) is None,
                index.first_with_prefix(import@, i as int) is None,
            decreases index.names.len() - i,
        {
            if starts_with(self.package_map.key_at(i).as_str(), import) {
                let file = self.package_map.value_at(i).clone();
                proof {
                    index.lemma_first_with_prefix(import@, index.names.len() as int);
                    index.lemma_first_with_prefix(import@, i as int);
                }
                return Some(file);
            }
            i = i + 1;
        }
        None
    }

    /// Records what `file` imports: its forward neighbours become the files
    /// that the imports resolve to, and each of those gains `file` as a
    /// reverse neighbour.
    pub fn link_imports(&mut self, file: &str, imports: &Vec<String>)
        ensures
            final(self).inv(),
            final(self).index() == old(self).index(),
            final(self).forward() == old(self).forward().insert(
                file@,
                old(self).index().targets(texts(imports@)),
            ),
            final(self).reverse() == with_dependent(
                old(self).reverse(),
                old(self).index().targets(texts(imports@)),
                file@,
            ),
            final(self).files() == if old(self).files().contains(file@) {
                old(self).files()
            } else {
                old(self).files().push(file@)
            },
    {
        proof {
            use_type_invariant(&*self);
        }
        let ghost files_before = self.files();
        let ghost index = self.index();
        let ghost all = texts(imports@);
        let ghost forward_before = self.forward();
        let ghost reverse_before = self.reverse();
        let mut resolved: Vec<String> = Vec::new();
        let mut k: usize = 0;
        while k < imports.len()
            invariant
                k <= imports.len(),
                self.inv(),
                index == self.index(),
                all == texts(imports@),
                forall|t: Seq<char>|
                    texts(resolved@).contains(t) <==> index.targets(all.take(k as int)).contains(t),
            decreases imports.len() - k,
        {
            let ghost seen = all.take(k as int);
            let ghost now = all.take(k + 1);
            let ghost listed = texts(resolved@);
            let target = self.resolve_import(imports[k].as_str());
            proof {
                assert(all[k as int] == imports@[k as int]@);
                assert(now[k as int] == all[k as int]);
                assert forall|t: Seq<char>| index.targets(now).contains(t) <==> (index.targets(
                    seen,
                ).contains(t) || index.resolved(all[k as int]) == Some(t)) by {
                    if index.targets(now).contains(t) {
                        let j = choose|j: int|
                            0 <= j < now.len() && index.resolved(#[trigger] now[j]) == Some(t);
                        if j < k {
                            assert(seen[j] == now[j]);
                        }
                    }
                    if index.targets(seen).contains(t) {
                        let j = choose|j: int|
                            0 <= j < seen.len() && index.resolved(#[trigger] seen[j]) == Some(t);
                        assert(now[j] == seen[j]);
                    }
                }
            }
            match target {
                Some(t) => {
                    proof {
                        lemma_texts_push(resolved@, t);
                    }
                    resolved.push(t);
                    proof {
                        assert forall|u: Seq<char>| texts(resolved@).contains(u) <==> (listed.contains(
                            u,
                        ) || u == t@) by {
                            if listed.contains(u) {
                                let j = choose|j: int| 0 <= j < listed.len() && listed[j] == u;
                                assert(texts(resolved@)[j] == u);
                            }
                            if u == t@ {
                                assert(texts(resolved@)[listed.len() as int] == u);
                            }
                        }
                    }
                },
                None => {},
            }
            proof {
                assert forall|u: Seq<char>| texts(resolved@).contains(u) <==> index.targets(
                    now,
                ).contains(u) by {
                    assert(listed.contains(u) <==> index.targets(seen).contains(u));
                    assert(index.targets(now).contains(u) <==> (index.targets(seen).contains(u)
                        || index.resolved(all[k as int]) == Some(u)));
                }
            }
            k = k + 1;
        }
        assert(all.take(k as int) =~= all);
        let ghost targets = index.targets(all);
        let mut graph = DependencyGraph::new();
        core::mem::swap(self, &mut graph);
        let DependencyGraph { mut dependencies, mut reverse_dependencies, package_map } = graph;
        let mut deps = FileSet::new();
        let mut j: usize = 0;
        while j < resolved.len()
            invariant
                j <= resolved.len(),
                reverse_dependencies.inv(),
                forall|t: Seq<char>| deps@.contains(t) <==> texts(resolved@).take(j as int).contains(t),
                edges_of(reverse_dependencies) == with_dependent(reverse_before, deps@, file@),
            decreases resolved.len() - j,
        {
            let ghost listed = texts(resolved@);
            let ghost deps_before = deps@;
            let ghost edges_before = edges_of(reverse_dependencies);
            let target = &resolved[j];
            deps.insert(target.clone());
            add_edge(&mut reverse_dependencies, target.as_str(), file.to_owned());
            proof {
                let earlier = listed.take(j as int);
                let now = listed.take(j + 1);
                assert(now =~= earlier.push(target@));
                assert forall|t: Seq<char>| deps@.contains(t) <==> now.contains(t) by {
                    if earlier.contains(t) {
                        let i = choose|i: int| 0 <= i < earlier.len() && earlier[i] == t;
                        assert(now[i] == t);
                    }
                    if t == target@ {
                        assert(now[j as int] == t);
                    }
                    if now.contains(t) {
                        let i = choose|i: int| 0 <= i < now.len() && now[i] == t;
                        if i < j {
                            assert(earlier[i] == t);
                        }
                    }
                }
                assert(edges_of(reverse_dependencies) =~~= with_dependent(
                    reverse_before,
                    deps@,
                    file@,
                ));
            }
            j = j + 1;
        }
        proof {
            assert(texts(resolved@).take(j as int) =~= texts(resolved@));
            assert(deps@ =~= targets);
        }
        assert(dependencies.keys() == files_before);
        dependencies.insert(file.to_owned(), deps);
        proof {
            files_before.index_of_first_ensures(file@);
            assert(edges_of(dependencies) =~= forward_before.insert(file@, targets));
            let forward = edges_of(dependencies);
            let reverse = edges_of(reverse_dependencies);
            assert forall|f: Seq<char>, t: Seq<char>| neighbours(forward, f).contains(t) implies #[trigger] neighbours(
                reverse,
                t,
            ).contains(f) by {
                if f != file@ {
                    assert(neighbours(forward_before, f).contains(t));
                    assert(neighbours(reverse_before, t).contains(f));
                }
            }
        }
        *self = DependencyGraph { dependencies, reverse_dependencies, package_map };
    }

    /// Indexes the files, then links them: first every file with a primary
    /// type is indexed under its qualified name, then the imports of every
    /// file are resolved against the finished index and recorded.
    pub fn build(&mut self, files: &[SourceFile])
        ensures
            final(self).inv(),
            final(self).index() == old(self).index().indexed(file_views(files@)),
            final(self).forward() == linked_forward(
                old(self).forward(),
                final(self).index(),
                file_views(files@),
            ),
            final(self).reverse() == linked_reverse(
                old(self).reverse(),
                final(self).index(),
                file_views(files@),
            ),
    {
        let ghost all = file_views(files@);
        let ghost index_before = self.index();
        let ghost forward_before = self.forward();
        let ghost reverse_before = self.reverse();
        let mut i: usize = 0;
        assert(all.take(0) =~= Seq::<SourceFileView>::empty());
        while i < files.len()
            invariant
                i <= files.len(),
                all == file_views(files@),
                self.index() == index_before.indexed(all.take(i as int)),
                self.forward() == forward_before,
                self.reverse() == reverse_before,
            decreases files.len() - i,
        {
            let file = &files[i];
            proof {
                assert(all.take(i + 1).drop_last() =~= all.take(i as int));
                assert(all.take(i + 1).last() == file@);
            }
            let package = self.extract_package_name(file.content.as_str());
            match self.extract_primary_class_name(file.content.as_str()) {
                Some(name) => {
                    let mut qualified = package;
                    qualified.append(".");
                    qualified.append(name.as_str());
                    self.register_declaration(qualified, file.path.clone());
                },
                None => {},
            }
            i = i + 1;
        }
        assert(all.take(i as int) =~= all);
        let ghost index = self.index();
        let mut j: usize = 0;
        proof {
            let none = all.take(0);
            assert(none =~= Seq::<SourceFileView>::empty());
            assert(linked_forward(forward_before, index, none) =~= forward_before);
            assert forall|t: Seq<char>| importers_of(index, none, t) =~= Set::<Seq<char>>::empty() by {}
            assert(linked_reverse(reverse_before, index, none) =~~= reverse_before);
        }
        while j < files.len()
            invariant
                j <= files.len(),
                all == file_views(files@),
                self.index() == index,
                self.forward() == linked_forward(forward_before, index, all.take(j as int)),
                self.reverse() == linked_reverse(reverse_before, index, all.take(j as int)),
            decreases files.len() - j,
        {
            let file = &files[j];
            proof {
                assert(all.take(j + 1).drop_last() =~= all.take(j as int));
                assert(all.take(j + 1).last() == file@);
                lemma_link_one_more(forward_before, reverse_before, index, all.take(j + 1));
            }
            let imports = self.extract_imports(file.content.as_str());
            self.link_imports(file.path.as_str(), &imports);
            j = j + 1;
        }
        proof {
            assert(all.take(j as int) =~= all);
            use_type_invariant(&*self);
        }
    }

    /// The files that depend on one of `direct` without being one of them.
    pub open spec fn transitive_impact(&self, direct: Set<Seq<char>>) -> Set<Seq<char>> {
        reachable(self.reverse(), direct).difference(direct)
    }

    /// The files that `file` depends on, directly or through other files,
    /// `file` itself left out.
    pub open spec fn all_dependencies(&self, file: Seq<char>) -> Set<Seq<char>> {
        reachable(self.forward(), set![file]).remove(file)
    }

    /// The files that depend on one of `direct_impact_files`, directly or
    /// through other files, without being one of them. A cycle among the
    /// files changes nothing: each file is visited once.
    pub fn compute_transitive_impact(&self, direct_impact_files: &FileSet) -> (impact: FileSet)
        ensures
            impact@ == self.transitive_impact(direct_impact_files@),
            impact@.disjoint(direct_impact_files@),
    {
        let reached = reach(&self.reverse_dependencies, direct_impact_files);
        without(&reached, direct_impact_files)
    }

    /// The files that `file` depends on, directly or through other files.
    pub fn get_all_dependencies(&self, file: &str) -> (all: FileSet)
        ensures
            all@ == self.all_dependencies(file@),
    {
        let mut start = FileSet::new();
        start.insert(file.to_owned());
        assert(start@ =~= set![file@]);
        let reached = reach(&self.dependencies, &start);
        let all = without(&reached, &start);
        assert(all@ =~= self.all_dependencies(file@));
        all
    }

    /// The size of the graph: how many files are linked, how many edges they
    /// have, and the largest number of files that one file imports or is
    /// imported by. The number of edges stops at the largest `usize`.
    pub fn get_stats(&self) -> (stats: DependencyStats)
        ensures
            stats.total_files == self.files().len(),
            stats.total_files == self.forward().dom().len(),
            stats.total_edges == saturated(total(degrees(self.forward(), self.files()))),
            stats.max_dependencies == largest(degrees(self.forward(), self.files())),
            stats.max_dependents == largest(degrees(self.reverse(), self.imported())),
    {
        proof {
            use_type_invariant(self);
            self.dependencies.lemma_len();
            assert(self.forward().dom() =~= self.dependencies@.dom());
        }
        let (total_edges, max_dependencies) = degree_summary(&self.dependencies);
        let (_, max_dependents) = degree_summary(&self.reverse_dependencies);
        DependencyStats {
            total_files: self.dependencies.len(),
            total_edges,
            max_dependencies,
            max_dependents,
        }
    }

    /// No file is both given as directly affected and found as transitively
    /// affected.
    pub proof fn lemma_impact_excludes_direct(&self, direct: Set<Seq<char>>)
        ensures
            self.transitive_impact(direct).disjoint(direct),
            self.transitive_impact(direct).intersect(direct) == Set::<Seq<char>>::empty(),
    {
        assert(self.transitive_impact(direct).intersect(direct) =~= Set::<Seq<char>>::empty());
    }
}

/// The size of a dependency graph.
#[derive(Debug, Clone, Copy)]
pub struct DependencyStats {
    /// How many files are linked.
    pub total_files: usize,
    /// How many edges lead from them.
    pub total_edges: usize,
    /// The largest number of files that one file imports.
    pub max_dependencies: usize,
    /// The largest number of files that import one file.
    pub max_dependents: usize,
}

/// The number of neighbours of each of `files`.
pub open spec fn degrees(edges: Edges, files: Seq<Seq<char>>) -> Seq<nat> {
    Seq::new(files.len(), |i: int| neighbours(edges, files[i]).len())
}

/// The sum of the numbers.
pub open spec fn total(numbers: Seq<nat>) -> nat
    decreases numbers.len(),
{
    if numbers.len() == 0 {
        0
    } else {
        total(numbers.drop_last()) + numbers.last()
    }
}

/// The largest of the numbers, zero where there is none.
pub open spec fn largest(numbers: Seq<nat>) -> nat
    decreases numbers.len(),
{
    if numbers.len() == 0 {
        0
    } else if numbers.last() > largest(numbers.drop_last()) {
        numbers.last()
    } else {
        largest(numbers.drop_last())
    }
}

/// The number itself, or the largest `usize` where it is beyond that.
pub open spec fn saturated(number: nat) -> usize {
    if number > usize::MAX {
        usize::MAX
    } else {
        number as usize
    }
}

/// The sum, stopped at the largest `usize`, and the largest of the sizes of
/// the sets of `map`.
pub fn degree_summary(map: &StringMap<FileSet>) -> (summary: (usize, usize))
    ensures
        summary.0 == saturated(total(degrees(edges_of(*map), map.keys()))),
        summary.1 == largest(degrees(edges_of(*map), map.keys())),
{
    let ghost all = degrees(edges_of(*map), map.keys());
    let count = map.len();
    let mut sum: usize = 0;
    let mut most: usize = 0;
    let mut i: usize = 0;
    assert(all.take(0) =~= Seq::<nat>::empty());
    while i < count
        invariant
            i <= count,
            count == map.keys().len(),
            map.inv(),
            all == degrees(edges_of(*map), map.keys()),
            sum == saturated(total(all.take(i as int))),
            most == largest(all.take(i as int)),
        decreases count - i,
    {
        let size = map.value_at(i).len();
        proof {
            map.lemma_entry(i as int);
            assert(all[i as int] == size);
            assert(all.take(i + 1).drop_last() =~= all.take(i as int));
            assert(all.take(i + 1).last() == size);
        }
        if size > most {
            most = size;
        }
        if sum > usize::MAX - size {
            sum = usize::MAX;
        } else {
            sum = sum + size;
        }
        i = i + 1;
    }
    assert(all.take(i as int) =~= all);
    (sum, most)
}

/// The first capture of the first match of `pattern` in `content`.
fn first_capture_in(pattern: &str, content: &str) -> (capture: Option<String>)
    ensures
        match capture {
            Some(text) => first_capture(pattern@, content@) == Some(text@),
            None => first_capture(pattern@, content@) is None,
        },
{
    match first_groups(pattern, content) {
        Some(groups) => {
            if groups.len() > 0 {
                assert(option_texts(groups@)[0] == match groups@[0] {
                    Some(s) => Some(s@),
                    None => None,
                });
                match &groups[0] {
                    Some(text) => Some(text.clone()),
                    None => None,
                }
            } else {
                None
            }
        },
        None => None,
    }
}

} // verus!
