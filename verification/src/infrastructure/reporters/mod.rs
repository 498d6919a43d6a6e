//! The formats in which a result can be reported.

use vstd::prelude::*;
use vstd::string::*;
use crate::analyzer::impact_calculator::{is_descending, rank, ranked};
use crate::domain::entities::{ranking_of, Ranking};
use crate::analyzer::models::{KmpSymbol, SymbolType, SymbolUsage};
use crate::domain::entities::AnalysisError;
use crate::string_map::StringMap;
use crate::text::{lowercased, same_text, to_lowercase};

verus! {

/// The formats of a report.
#[derive(Debug, Clone, Copy, PartialEq, Eq, Structural)]
pub enum ReportFormat {
    Table,
    Json,
    Markdown,
}

impl ReportFormat {
    /// The format that a name in lower case stands for.
    pub open spec fn named(name: Seq<char>) -> Option<ReportFormat> {
        if name == "table"@ {
            Some(ReportFormat::Table)
        } else if name == "json"@ {
            Some(ReportFormat::Json)
        } else if name == "markdown"@ || name == "md"@ {
            Some(ReportFormat::Markdown)
        } else {
            None
        }
    }

    /// The format that `name`, written in lower case, stands for: `table`,
    /// `json`, and `markdown` or `md`.
    pub fn from_name(name: &str) -> (format: Option<ReportFormat>)
        ensures
            format == Self::named(name@),
    {
        if same_text(name, "table") {
            Some(ReportFormat::Table)
        } else if same_text(name, "json") {
            Some(ReportFormat::Json)
        } else if same_text(name, "markdown") || same_text(name, "md") {
            Some(ReportFormat::Markdown)
        } else {
            None
        }
    }
}

/// Reports results in one format.
#[derive(Debug)]
pub struct Reporter {
    format: ReportFormat,
}

impl Reporter {
    /// The format of the reports.
    pub closed spec fn spec_format(&self) -> ReportFormat {
        self.format
    }

    /// A reporter for the format that `format` names, in upper or lower
    /// case; an error that carries the name where it names none.
    pub fn new(format: &str) -> (reporter: Result<Self, AnalysisError>)
        ensures
            match reporter {
                Ok(r) => ReportFormat::named(lowercased(format@)) == Some(r.spec_format()),
                Err(e) => ReportFormat::named(lowercased(format@)) is None && (e
                    matches AnalysisError::UnsupportedFormat(name) && name@ == format@),
            },
    {
        let lower = to_lowercase(format);
        match ReportFormat::from_name(lower.as_str()) {
            Some(format) => Ok(Reporter { format }),
            None => Err(AnalysisError::UnsupportedFormat(format.to_owned())),
        }
    }

    /// The format of the reports.
    pub fn format(&self) -> (format: ReportFormat)
        ensures
            format == self.spec_format(),
    {
        self.format
    }
}

/// How many symbols there are of the kinds that a report tells apart.
#[derive(Debug, Clone, Copy, PartialEq, Eq, Structural)]
pub struct SymbolBreakdown {
    pub classes: usize,
    pub functions: usize,
    pub properties: usize,
    pub others: usize,
}

/// How many of the first `upto` symbols satisfy `wanted`.
pub open spec fn count_kinds(
    symbols: Seq<KmpSymbol>,
    wanted: spec_fn(SymbolType) -> bool,
    upto: int,
) -> nat
    decreases upto,
{
    if upto <= 0 {
        0
    } else {
        count_kinds(symbols, wanted, upto - 1) + if wanted(symbols[upto - 1].symbol_type) {
            1nat
        } else {
            0nat
        }
    }
}

/// Neither class nor function nor property.
pub open spec fn is_other(kind: SymbolType) -> bool {
    kind != SymbolType::Class && kind != SymbolType::Function && kind != SymbolType::Property
}

/// The symbols by kind: classes, functions, properties, and all others.
pub fn symbol_breakdown(symbols: &[KmpSymbol]) -> (breakdown: SymbolBreakdown)
    ensures
        breakdown.classes == count_kinds(
            symbols@,
            |k: SymbolType| k == SymbolType::Class,
            symbols@.len() as int,
        ),
        breakdown.functions == count_kinds(
            symbols@,
            |k: SymbolType| k == SymbolType::Function,
            symbols@.len() as int,
        ),
        breakdown.properties == count_kinds(
            symbols@,
            |k: SymbolType| k == SymbolType::Property,
            symbols@.len() as int,
        ),
        breakdown.others == count_kinds(symbols@, |k: SymbolType| is_other(k), symbols@.len() as int),
        breakdown.classes + breakdown.functions + breakdown.properties + breakdown.others
            == symbols@.len(),
{
    let mut classes: usize = 0;
    let mut functions: usize = 0;
    let mut properties: usize = 0;
    let mut others: usize = 0;
    let mut i: usize = 0;
    while i < symbols.len()
        invariant
            i <= symbols.len(),
            classes == count_kinds(symbols@, |k: SymbolType| k == SymbolType::Class, i as int),
            functions == count_kinds(symbols@, |k: SymbolType| k == SymbolType::Function, i as int),
            properties == count_kinds(symbols@, |k: SymbolType| k == SymbolType::Property, i as int),
            others == count_kinds(symbols@, |k: SymbolType| is_other(k), i as int),
            classes + functions + properties + others == i,
        decreases symbols.len() - i,
    {
        match symbols[i].symbol_type {
            SymbolType::Class => {
                classes = classes + 1;
            },
            SymbolType::Function => {
                functions = functions + 1;
            },
            SymbolType::Property => {
                properties = properties + 1;
            },
            _ => {
                others = others + 1;
            },
        }
        i = i + 1;
    }
    SymbolBreakdown { classes, functions, properties, others }
}

/// The symbols of a map with the number of their references, in the order of
/// the map.
pub open spec fn reference_counts(symbol_usage: StringMap<SymbolUsage>, upto: int) -> Ranking
    decreases upto,
{
    if upto <= 0 {
        Seq::empty()
    } else {
        reference_counts(symbol_usage, upto - 1).push(
            (symbol_usage.keys()[upto - 1], symbol_usage.values()[upto - 1].reference_count),
        )
    }
}

/// The ten most referenced symbols: by falling number of references,
/// symbols with the same number in the order of the map.
pub fn top_used_symbols(symbol_usage: &StringMap<SymbolUsage>) -> (top: Vec<(String, usize)>)
    ensures
        ranking_of(top@) == ({
            let all = reference_counts(*symbol_usage, symbol_usage.keys().len() as int);
            let ordered = ranked(all, all.len() as int);
            if ordered.len() > 10 {
                ordered.take(10)
            } else {
                ordered
            }
        }),
        is_descending(ranking_of(top@)),
        top@.len() <= 10,
{
    let mut entries: Vec<(String, usize)> = Vec::new();
    let count = symbol_usage.len();
    let mut i: usize = 0;
    assert(ranking_of(entries@) =~= reference_counts(*symbol_usage, 0));
    while i < count
        invariant
            i <= count,
            count == symbol_usage.keys().len(),
            symbol_usage.inv(),
            ranking_of(entries@) == reference_counts(*symbol_usage, i as int),
        decreases count - i,
    {
        let ghost before = ranking_of(entries@);
        let references = symbol_usage.value_at(i).reference_count;
        entries.push((symbol_usage.key_at(i).clone(), references));
        assert(ranking_of(entries@) =~= before.push((symbol_usage.keys()[i as int], references)));
        i = i + 1;
    }
    let mut top = rank(entries);
    let ghost ordered = ranking_of(top@);
    if top.len() > 10 {
        top.truncate(10);
        assert(ranking_of(top@) =~= ordered.take(10));
    }
    top
}

} // verus!
