//! Finds the textual occurrences of known symbol names in a file and sums
//! them up per symbol.

use vstd::prelude::*;
use vstd::string::*;
use crate::domain::entities::{usage_views, SymbolUsage as Occurrence, SymbolUsageView as OccurrenceView};
use crate::file_set::FileSet;
use crate::pattern::{escape, is_match, regex_escaped, regex_matches};
use crate::string_map::StringMap;
use crate::text::{starts_with, texts, trim, trimmed};
use super::models::{location_views, SymbolUsage, SymbolUsageView, UsageLocation, UsageLocationView};

verus! {

/// What must follow a symbol's name for the name to count as used: the end
/// of the word, then an opening parenthesis, a dot, a colon, an opening angle
/// bracket or white space.
pub const USAGE_BOUNDARY: &'static str = "\\b(?:\\s*\\(|\\.|\\s*:|<|\\s+)";

/// The pattern that finds a use of `symbol`: the name as a whole word,
/// followed by one of the boundaries.
pub open spec fn usage_pattern(symbol: Seq<char>) -> Seq<char> {
    "\\b"@ + regex_escaped(symbol) + USAGE_BOUNDARY@
}

/// Whether `line` uses `symbol`. A symbol whose pattern does not compile is
/// used nowhere.
pub open spec fn symbol_used(line: Seq<char>, symbol: Seq<char>) -> bool {
    regex_matches(usage_pattern(symbol), line) == Some(true)
}

/// The character sequences of a sequence of string slices.
pub open spec fn str_texts(strings: Seq<&str>) -> Seq<Seq<char>> {
    Seq::new(strings.len(), |i: int| strings[i]@)
}

/// Whether a line, taken without surrounding white space, begins with one of
/// the prefixes that mark lines without code.
pub open spec fn is_skipped(line: Seq<char>, prefixes: Seq<Seq<char>>) -> bool {
    exists|i: int| 0 <= i < prefixes.len() && (#[trigger] prefixes[i]).is_prefix_of(line)
}

/// The occurrences on one line of the first `upto` symbols, in the order of
/// the symbols.
pub open spec fn line_occurrences(
    line: Seq<char>,
    number: usize,
    file: Seq<char>,
    symbols: Seq<Seq<char>>,
    upto: int,
) -> Seq<OccurrenceView>
    decreases upto,
{
    if upto <= 0 {
        Seq::empty()
    } else {
        let rest = line_occurrences(line, number, file, symbols, upto - 1);
        if symbol_used(line, symbols[upto - 1]) {
            rest.push(
                OccurrenceView {
                    symbol_name: symbols[upto - 1],
                    file_path: file,
                    line_number: number,
                    context: trimmed(line),
                },
            )
        } else {
            rest
        }
    }
}

/// The occurrences in the first `upto` lines: line after line, lines counted
/// from one, and on each line that is not skipped symbol after symbol.
pub open spec fn occurrences(
    lines: Seq<Seq<char>>,
    file: Seq<char>,
    symbols: Seq<Seq<char>>,
    prefixes: Seq<Seq<char>>,
    upto: int,
) -> Seq<OccurrenceView>
    decreases upto,
{
    if upto <= 0 {
        Seq::empty()
    } else {
        let rest = occurrences(lines, file, symbols, prefixes, upto - 1);
        let line = lines[upto - 1];
        if is_skipped(trimmed(line), prefixes) {
            rest
        } else {
            rest + line_occurrences(line, upto as usize, file, symbols, symbols.len() as int)
        }
    }
}

/// The places of the occurrences of `name`, in their order.
pub open spec fn locations_of(found: Seq<OccurrenceView>, name: Seq<char>) -> Seq<
    UsageLocationView,
>
    decreases found.len(),
{
    if found.len() == 0 {
        Seq::empty()
    } else {
        let rest = locations_of(found.drop_last(), name);
        let last = found.last();
        if last.symbol_name == name {
            rest.push(
                UsageLocationView {
                    file: last.file_path,
                    line: last.line_number,
                    context: last.context,
                },
            )
        } else {
            rest
        }
    }
}

/// The files in which `name` occurs.
pub open spec fn files_of(found: Seq<OccurrenceView>, name: Seq<char>) -> Set<Seq<char>> {
    Set::new(
        |file: Seq<char>|
            exists|i: int|
                0 <= i < found.len() && (#[trigger] found[i]).symbol_name == name && found[i].file_path
                    == file,
    )
}

/// The names that occur, each once, in the order of their first occurrence.
pub open spec fn names_in_order(found: Seq<OccurrenceView>) -> Seq<Seq<char>>
    decreases found.len(),
{
    if found.len() == 0 {
        Seq::empty()
    } else {
        let rest = names_in_order(found.drop_last());
        if rest.contains(found.last().symbol_name) {
            rest
        } else {
            rest.push(found.last().symbol_name)
        }
    }
}

/// What the occurrences say of the symbol `name`.
pub open spec fn summary_of(found: Seq<OccurrenceView>, name: Seq<char>) -> SymbolUsageView {
    SymbolUsageView {
        symbol_name: name,
        reference_count: locations_of(found, name).len() as usize,
        used_in_files: files_of(found, name),
        usage_lines: locations_of(found, name),
    }
}

/// `stats` sums up `found`: it has a key for each name that occurs, in the
/// order of first occurrence, and under it the summary of that name.
pub open spec fn summarizes(stats: StringMap<SymbolUsage>, found: Seq<OccurrenceView>) -> bool {
    &&& stats.inv()
    &&& stats.keys() == names_in_order(found)
    &&& forall|i: int|
        0 <= i < stats.keys().len() ==> (#[trigger] stats.values()[i])@ == summary_of(
            found,
            stats.keys()[i],
        )
}

/// A name is among the names in order exactly when it occurs.
pub proof fn lemma_names_in_order(found: Seq<OccurrenceView>, name: Seq<char>)
    ensures
        names_in_order(found).contains(name) <==> locations_of(found, name).len() > 0,
        names_in_order(found).contains(name) <==> exists|i: int|
            0 <= i < found.len() && (#[trigger] found[i]).symbol_name == name,
        names_in_order(found).no_duplicates(),
    decreases found.len(),
{
    if found.len() > 0 {
        let rest = found.drop_last();
        lemma_names_in_order(rest, name);
        lemma_names_in_order(rest, found.last().symbol_name);
        let names = names_in_order(rest);
        if names_in_order(found).contains(name) {
            if names.contains(name) {
                let i = choose|i: int| 0 <= i < rest.len() && (#[trigger] rest[i]).symbol_name == name;
                assert(found[i].symbol_name == name);
            } else {
                let k = choose|k: int|
                    0 <= k < names_in_order(found).len() && names_in_order(found)[k] == name;
                if k < names.len() {
                    assert(names[k] == name);
                }
                assert(found[found.len() - 1].symbol_name == name);
            }
        }
        if exists|i: int| 0 <= i < found.len() && (#[trigger] found[i]).symbol_name == name {
            let i = choose|i: int| 0 <= i < found.len() && (#[trigger] found[i]).symbol_name == name;
            if i < rest.len() {
                assert(rest[i].symbol_name == name);
                let k = choose|k: int| 0 <= k < names.len() && names[k] == name;
                assert(names_in_order(found)[k] == name);
            } else {
                if !names.contains(name) {
                    assert(names_in_order(found)[names.len() as int] == name);
                }
            }
        }
    }
}

/// A map that sums up the occurrences has a name as key exactly when the name
/// occurs, and holds under it the summary of that name.
pub proof fn lemma_summarizes(stats: StringMap<SymbolUsage>, found: Seq<OccurrenceView>)
    requires
        summarizes(stats, found),
    ensures
        forall|name: Seq<char>|
            stats@.contains_key(name) <==> locations_of(found, name).len() > 0,
        forall|name: Seq<char>| #[trigger]
            stats@.contains_key(name) ==> stats@[name]@ == summary_of(found, name),
{
    assert forall|name: Seq<char>|
        stats@.contains_key(name) <==> locations_of(found, name).len() > 0 by {
        lemma_names_in_order(found, name);
    }
    assert forall|name: Seq<char>| #[trigger] stats@.contains_key(name) implies stats@[name]@
        == summary_of(found, name) by {
        let i = stats.keys().index_of(name);
        assert(stats.keys()[i] == name);
        stats.lemma_entry(i);
    }
}

/// Whether `line` begins with one of `prefixes`.
pub fn is_skipped_line(line: &str, prefixes: &[&str]) -> (skipped: bool)
    ensures
        skipped == is_skipped(line@, str_texts(prefixes@)),
{
    let mut i: usize = 0;
    while i < prefixes.len()
        invariant
            i <= prefixes.len(),
            forall|j: int| 0 <= j < i ==> !(#[trigger] str_texts(prefixes@)[j]).is_prefix_of(line@),
        decreases prefixes.len() - i,
    {
        if starts_with(line, prefixes[i]) {
            assert(str_texts(prefixes@)[i as int].is_prefix_of(line@));
            return true;
        }
        i = i + 1;
    }
    false
}

/// The pattern that finds a use of each symbol.
pub fn usage_patterns(symbols: &[String]) -> (patterns: Vec<String>)
    ensures
        patterns.len() == symbols.len(),
        forall|i: int|
            0 <= i < symbols.len() ==> (#[trigger] patterns@[i])@ == usage_pattern(symbols@[i]@),
{
    let mut patterns: Vec<String> = Vec::new();
    let mut i: usize = 0;
    while i < symbols.len()
        invariant
            i <= symbols.len(),
            patterns.len() == i,
            forall|j: int| 0 <= j < i ==> (#[trigger] patterns@[j])@ == usage_pattern(symbols@[j]@),
        decreases symbols.len() - i,
    {
        let escaped = escape(symbols[i].as_str());
        let mut pattern = String::from_str("\\b");
        pattern.append(escaped.as_str());
        pattern.append(USAGE_BOUNDARY);
        patterns.push(pattern);
        i = i + 1;
    }
    patterns
}

/// The occurrences of `symbols` in `lines`, the lines of the file at
/// `file_path`: see `occurrences`.
pub fn find_occurrences(
    lines: &Vec<String>,
    file_path: &str,
    symbols: &[String],
    prefixes: &[&str],
) -> (found: Vec<Occurrence>)
    ensures
        usage_views(found@) == occurrences(
            texts(lines@),
            file_path@,
            texts(symbols@),
            str_texts(prefixes@),
            lines.len() as int,
        ),
{
    let patterns = usage_patterns(symbols);
    let mut found: Vec<Occurrence> = Vec::new();
    let ghost all_lines = texts(lines@);
    let ghost names = texts(symbols@);
    let ghost marks = str_texts(prefixes@);
    let mut l: usize = 0;
    assert(usage_views(found@) =~= occurrences(all_lines, file_path@, names, marks, 0));
    while l < lines.len()
        invariant
            l <= lines.len(),
            all_lines == texts(lines@),
            names == texts(symbols@),
            marks == str_texts(prefixes@),
            patterns.len() == symbols.len(),
            forall|i: int|
                0 <= i < symbols.len() ==> (#[trigger] patterns@[i])@ == usage_pattern(symbols@[i]@),
            usage_views(found@) == occurrences(all_lines, file_path@, names, marks, l as int),
        decreases lines.len() - l,
    {
        let line = lines[l].as_str();
        let context = trim(line);
        if !is_skipped_line(context.as_str(), prefixes) {
            let ghost before = usage_views(found@);
            let number: usize = l + 1;
            let mut s: usize = 0;
            assert(usage_views(found@) =~= before + line_occurrences(
                line@,
                number,
                file_path@,
                names,
                0,
            ));
            while s < symbols.len()
                invariant
                    s <= symbols.len(),
                    names == texts(symbols@),
                    patterns.len() == symbols.len(),
                    context@ == trimmed(line@),
                    forall|i: int|
                        0 <= i < symbols.len() ==> (#[trigger] patterns@[i])@ == usage_pattern(
                            symbols@[i]@,
                        ),
                    usage_views(found@) == before + line_occurrences(
                        line@,
                        number,
                        file_path@,
                        names,
                        s as int,
                    ),
                decreases symbols.len() - s,
            {
                let used = match is_match(patterns[s].as_str(), line) {
                    Some(yes) => yes,
                    None => false,
                };
                assert(used == symbol_used(line@, names[s as int]));
                if used {
                    let occurrence = Occurrence {
                        symbol_name: symbols[s].clone(),
                        file_path: file_path.to_owned(),
                        line_number: number,
                        context: context.clone(),
                    };
                    let ghost previous = usage_views(found@);
                    found.push(occurrence);
                    assert(usage_views(found@) =~= previous.push(occurrence@));
                }
                assert(usage_views(found@) =~= before + line_occurrences(
                    line@,
                    number,
                    file_path@,
                    names,
                    s + 1,
                ));
                s = s + 1;
            }
        }
        l = l + 1;
    }
    found
}

/// A summary without occurrences, to be filled.
fn empty_summary() -> (summary: SymbolUsage)
    ensures
        summary.reference_count == 0,
        summary.usage_lines@.len() == 0,
        summary.used_in_files@ == Set::<Seq<char>>::empty(),
{
    SymbolUsage {
        symbol_name: String::new(),
        reference_count: 0,
        used_in_files: FileSet::new(),
        usage_lines: Vec::new(),
    }
}

/// Sums up occurrences per symbol: how often each name occurs, in which
/// files, and where, in the order in which the occurrences are given.
pub fn usage_statistics(found: &Vec<Occurrence>) -> (stats: StringMap<SymbolUsage>)
    ensures
        summarizes(stats, usage_views(found@)),
{
    let mut stats: StringMap<SymbolUsage> = StringMap::new();
    let ghost all = usage_views(found@);
    let mut k: usize = 0;
    assert(all.take(0) =~= Seq::<OccurrenceView>::empty());
    while k < found.len()
        invariant
            k <= found.len(),
            all == usage_views(found@),
            summarizes(stats, all.take(k as int)),
        decreases found.len() - k,
    {
        let occurrence = &found[k];
        let ghost seen = all.take(k as int);
        let ghost now = all.take(k + 1);
        let ghost name = occurrence.symbol_name@;
        let ghost old_keys = stats.keys();
        let ghost old_values = stats.values();
        proof {
            assert(now.drop_last() =~= seen);
            assert(now.last() == occurrence@);
            lemma_names_in_order(seen, name);
        }
        let at = match stats.position(occurrence.symbol_name.as_str()) {
            Some(at) => at,
            None => {
                let mut fresh = empty_summary();
                fresh.symbol_name = occurrence.symbol_name.clone();
                stats.insert(occurrence.symbol_name.clone(), fresh);
                proof {
                    old_keys.index_of_first_ensures(name);
                    assert(files_of(seen, name) =~= Set::<Seq<char>>::empty());
                    assert(location_views(fresh.usage_lines@) =~= locations_of(seen, name));
                    assert(fresh@ == summary_of(seen, name));
                }
                stats.len() - 1
            },
        };
        let ghost mid_keys = stats.keys();
        let ghost mid_values = stats.values();
        assert(mid_keys == names_in_order(now));
        assert(mid_values[at as int]@ == summary_of(seen, name));
        let mut summary = stats.replace_at(at, empty_summary());
        let location = UsageLocation {
            file: occurrence.file_path.clone(),
            line: occurrence.line_number,
            context: occurrence.context.clone(),
        };
        let ghost locations_before = location_views(summary.usage_lines@);
        summary.usage_lines.push(location);
        assert(location_views(summary.usage_lines@) =~= locations_before.push(location@));
        summary.reference_count = summary.usage_lines.len();
        summary.used_in_files.insert(occurrence.file_path.clone());
        proof {
            assert(summary.used_in_files@ =~= files_of(now, name)) by {
                assert forall|f: Seq<char>| files_of(now, name).contains(f) implies files_of(
                    seen,
                    name,
                ).insert(occurrence.file_path@).contains(f) by {
                    let i = choose|i: int|
                        0 <= i < now.len() && (#[trigger] now[i]).symbol_name == name
                            && now[i].file_path == f;
                    if i < seen.len() {
                        assert(seen[i] == now[i]);
                    }
                }
                assert forall|f: Seq<char>|
                    files_of(seen, name).insert(occurrence.file_path@).contains(
                        f,
                    ) implies files_of(now, name).contains(f) by {
                    if f == occurrence.file_path@ {
                        assert(now[k as int].symbol_name == name);
                    } else {
                        let i = choose|i: int|
                            0 <= i < seen.len() && (#[trigger] seen[i]).symbol_name == name
                                && seen[i].file_path == f;
                        assert(now[i] == seen[i]);
                    }
                }
            }
            assert(summary@ == summary_of(now, name));
        }
        stats.replace_at(at, summary);
        proof {
            assert forall|i: int| 0 <= i < stats.keys().len() implies (#[trigger] stats.values()[i])@
                == summary_of(now, stats.keys()[i]) by {
                if i != at {
                    let other = stats.keys()[i];
                    assert(mid_values[i] == stats.values()[i]);
                    assert(other != name);
                    assert(files_of(now, other) =~= files_of(seen, other)) by {
                        assert forall|f: Seq<char>| files_of(now, other).contains(f) implies files_of(
                            seen,
                            other,
                        ).contains(f) by {
                            let j = choose|j: int|
                                0 <= j < now.len() && (#[trigger] now[j]).symbol_name == other
                                    && now[j].file_path == f;
                            assert(seen[j] == now[j]);
                        }
                        assert forall|f: Seq<char>|
                            files_of(seen, other).contains(f) implies files_of(now, other).contains(
                            f,
                        ) by {
                            let j = choose|j: int|
                                0 <= j < seen.len() && (#[trigger] seen[j]).symbol_name == other
                                    && seen[j].file_path == f;
                            assert(now[j] == seen[j]);
                        }
                    }
                }
            }
        }
        k = k + 1;
    }
    assert(all.take(k as int) =~= all);
    stats
}

} // verus!
