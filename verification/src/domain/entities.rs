use vstd::prelude::*;
use vstd::string::*;
use crate::file_set::FileSet;
use crate::string_map::StringMap;

verus! {

/// The kind of a declaration found in shared code.
#[derive(Debug, Clone, Copy, PartialEq, Eq, Hash, Structural)]
pub enum SymbolType {
    Class,
    Interface,
    Object,
    Function,
    Property,
    TypeAlias,
}

/// A public declaration of the shared module. Two symbols are the same when
/// they agree in name and defining file; names alone may repeat.
#[derive(Debug)]
pub struct Symbol {
    pub name: String,
    pub symbol_type: SymbolType,
    pub module: String,
    pub file_path: String,
    pub is_public: bool,
}

/// What a `Symbol` says, as plain values.
pub struct SymbolView {
    pub name: Seq<char>,
    pub symbol_type: SymbolType,
    pub module: Seq<char>,
    pub file_path: Seq<char>,
    pub is_public: bool,
}

impl View for Symbol {
    type V = SymbolView;

    open spec fn view(&self) -> SymbolView {
        SymbolView {
            name: self.name@,
            symbol_type: self.symbol_type,
            module: self.module@,
            file_path: self.file_path@,
            is_public: self.is_public,
        }
    }
}

impl Clone for Symbol {
    fn clone(&self) -> (copy: Self)
        ensures
            copy@ == self@,
    {
        Symbol {
            name: self.name.clone(),
            symbol_type: self.symbol_type,
            module: self.module.clone(),
            file_path: self.file_path.clone(),
            is_public: self.is_public,
        }
    }
}

/// The platforms whose application code is measured.
#[derive(Debug, Clone, Copy, PartialEq, Eq, Hash, Structural)]
pub enum Platform {
    Android,
    IOS,
}

impl Platform {
    /// The name under which the platform is reported.
    pub open spec fn spec_name(self) -> Seq<char> {
        match self {
            Platform::Android => "Android"@,
            Platform::IOS => "iOS"@,
        }
    }

    /// The name under which the platform is reported.
    pub fn name(&self) -> (name: &'static str)
        ensures
            name@ == self.spec_name(),
    {
        match self {
            Platform::Android => "Android",
            Platform::IOS => "iOS",
        }
    }
}

/// The languages in which application files are written.
#[derive(Debug, Clone, Copy, PartialEq, Eq, Hash, Structural)]
pub enum Language {
    Kotlin,
    Java,
    Swift,
    ObjectiveC,
}

/// A file of the project together with its text.
#[derive(Debug)]
pub struct SourceFile {
    pub path: String,
    pub platform: Platform,
    pub language: Language,
    pub content: String,
}

/// What a `SourceFile` says, as plain values.
pub struct SourceFileView {
    pub path: Seq<char>,
    pub platform: Platform,
    pub language: Language,
    pub content: Seq<char>,
}

impl View for SourceFile {
    type V = SourceFileView;

    open spec fn view(&self) -> SourceFileView {
        SourceFileView {
            path: self.path@,
            platform: self.platform,
            language: self.language,
            content: self.content@,
        }
    }
}

impl Clone for SourceFile {
    fn clone(&self) -> (copy: Self)
        ensures
            copy@ == self@,
    {
        SourceFile {
            path: self.path.clone(),
            platform: self.platform,
            language: self.language,
            content: self.content.clone(),
        }
    }
}

/// One textual occurrence of a symbol in an application file.
#[derive(Debug)]
pub struct SymbolUsage {
    pub symbol_name: String,
    pub file_path: String,
    pub line_number: usize,
    pub context: String,
}

/// What a `SymbolUsage` says, as plain values.
pub struct SymbolUsageView {
    pub symbol_name: Seq<char>,
    pub file_path: Seq<char>,
    pub line_number: usize,
    pub context: Seq<char>,
}

impl View for SymbolUsage {
    type V = SymbolUsageView;

    open spec fn view(&self) -> SymbolUsageView {
        SymbolUsageView {
            symbol_name: self.symbol_name@,
            file_path: self.file_path@,
            line_number: self.line_number,
            context: self.context@,
        }
    }
}

impl Clone for SymbolUsage {
    fn clone(&self) -> (copy: Self)
        ensures
            copy@ == self@,
    {
        SymbolUsage {
            symbol_name: self.symbol_name.clone(),
            file_path: self.file_path.clone(),
            line_number: self.line_number,
            context: self.context.clone(),
        }
    }
}

/// The views of a sequence of usages.
pub open spec fn usage_views(usages: Seq<SymbolUsage>) -> Seq<SymbolUsageView> {
    Seq::new(usages.len(), |i: int| usages[i]@)
}

/// The views of a sequence of symbols.
pub open spec fn symbol_views(symbols: Seq<Symbol>) -> Seq<SymbolView> {
    Seq::new(symbols.len(), |i: int| symbols[i]@)
}

/// The share of affected lines among all lines, kept as the two counts. A
/// ratio over no lines at all is zero.
#[derive(Debug, Clone, Copy, PartialEq, Eq, Structural)]
pub struct ImpactRatio {
    pub affected: usize,
    pub total: usize,
}

impl ImpactRatio {
    /// The ratio is zero: nothing is affected, or there is nothing to affect.
    pub open spec fn is_zero(self) -> bool {
        self.affected == 0 || self.total == 0
    }

    /// The ratio lies between zero and one.
    pub open spec fn in_unit_interval(self) -> bool {
        self.total == 0 || self.affected <= self.total
    }

    /// The ratio of `affected` lines to `total` lines, zero where `total` is zero.
    pub open spec fn spec_of(affected: usize, total: usize) -> ImpactRatio {
        if total > 0 {
            ImpactRatio { affected, total }
        } else {
            ImpactRatio { affected: 0, total: 0 }
        }
    }

    /// The ratio zero.
    pub fn zero() -> (ratio: Self)
        ensures
            ratio == (ImpactRatio { affected: 0, total: 0 }),
            ratio.is_zero(),
    {
        ImpactRatio { affected: 0, total: 0 }
    }

    /// The ratio of `affected` lines to `total` lines, zero where `total` is zero.
    pub fn of(affected: usize, total: usize) -> (ratio: Self)
        ensures
            ratio == Self::spec_of(affected, total),
            total == 0 ==> ratio.is_zero(),
            affected <= total ==> ratio.in_unit_interval(),
    {
        if total > 0 {
            ImpactRatio { affected, total }
        } else {
            ImpactRatio { affected: 0, total: 0 }
        }
    }
}

/// What can end an analysis early.
#[derive(Debug)]
pub enum AnalysisError {
    /// A file could not be read; the text says which and why.
    Unreadable(String),
    /// The requested output format is not one of the known ones.
    UnsupportedFormat(String),
    /// A count of files or lines does not fit in a `usize`.
    CountOverflow,
}

impl AnalysisError {
    /// The error in words.
    pub open spec fn spec_message(&self) -> Seq<char> {
        match self {
            AnalysisError::Unreadable(what) => "Cannot read file: "@ + what@,
            AnalysisError::UnsupportedFormat(format) => "Unsupported output format: "@ + format@,
            AnalysisError::CountOverflow => "A count exceeds the largest number"@,
        }
    }

    /// The error in words.
    pub fn message(&self) -> (text: String)
        ensures
            text@ == self.spec_message(),
    {
        match self {
            AnalysisError::Unreadable(what) => {
                let mut text = "Cannot read file: ".to_owned();
                text.append(what.as_str());
                text
            },
            AnalysisError::UnsupportedFormat(format) => {
                let mut text = "Unsupported output format: ".to_owned();
                text.append(format.as_str());
                text
            },
            AnalysisError::CountOverflow => "A count exceeds the largest number".to_owned(),
        }
    }
}

/// The application files of a project, platform by platform. A platform is
/// either absent or has a list of files, which may be empty.
#[derive(Debug)]
pub struct PlatformFiles {
    android: Option<Vec<String>>,
    ios: Option<Vec<String>>,
}

impl View for PlatformFiles {
    type V = Map<Platform, Seq<Seq<char>>>;

    closed spec fn view(&self) -> Map<Platform, Seq<Seq<char>>> {
        Map::new(
            |p: Platform|
                match p {
                    Platform::Android => self.android is Some,
                    Platform::IOS => self.ios is Some,
                },
            |p: Platform|
                match p {
                    Platform::Android => crate::text::texts(self.android->0@),
                    Platform::IOS => crate::text::texts(self.ios->0@),
                },
        )
    }
}

/// How many application files there are on all platforms together.
pub open spec fn file_count(files: Map<Platform, Seq<Seq<char>>>) -> nat {
    (if files.contains_key(Platform::Android) {
        files[Platform::Android].len()
    } else {
        0
    }) + (if files.contains_key(Platform::IOS) {
        files[Platform::IOS].len()
    } else {
        0
    })
}

impl PlatformFiles {
    /// No platform has files.
    pub fn new() -> (files: Self)
        ensures
            files@ == Map::<Platform, Seq<Seq<char>>>::empty(),
    {
        let files = PlatformFiles { android: None, ios: None };
        assert(files@ =~= Map::<Platform, Seq<Seq<char>>>::empty());
        files
    }

    /// Gives `platform` the list `files`, in place of any it had.
    pub fn insert(&mut self, platform: Platform, files: Vec<String>)
        ensures
            final(self)@ == old(self)@.insert(platform, crate::text::texts(files@)),
    {
        match platform {
            Platform::Android => {
                self.android = Some(files);
            },
            Platform::IOS => {
                self.ios = Some(files);
            },
        }
        assert(self@ =~= old(self)@.insert(platform, crate::text::texts(files@)));
    }

    /// The files of `platform`, if it is present.
    pub fn get(&self, platform: Platform) -> (files: Option<&Vec<String>>)
        ensures
            match files {
                Some(list) => self@.contains_key(platform) && crate::text::texts(list@)
                    == self@[platform],
                None => !self@.contains_key(platform),
            },
    {
        match platform {
            Platform::Android => self.android.as_ref(),
            Platform::IOS => self.ios.as_ref(),
        }
    }

    /// Whether `platform` is present.
    pub fn contains_key(&self, platform: Platform) -> (yes: bool)
        ensures
            yes == self@.contains_key(platform),
    {
        self.get(platform).is_some()
    }

    /// The platforms that are present, Android before iOS.
    pub fn platforms(&self) -> (present: Vec<Platform>)
        ensures
            present@.no_duplicates(),
            forall|p: Platform| present@.contains(p) <==> self@.contains_key(p),
            present@ == Self::in_order(self@),
    {
        let mut present: Vec<Platform> = Vec::new();
        if self.android.is_some() {
            present.push(Platform::Android);
        }
        if self.ios.is_some() {
            present.push(Platform::IOS);
        }
        proof {
            assert(present@ =~= Self::in_order(self@));
            assert forall|p: Platform| present@.contains(p) <==> self@.contains_key(p) by {
                if self@.contains_key(p) {
                    match p {
                        Platform::Android => {
                            assert(present@[0] == p);
                        },
                        Platform::IOS => {
                            assert(present@[present@.len() - 1] == p);
                        },
                    }
                }
            }
        }
        present
    }

    /// The platforms of a map, Android before iOS.
    pub open spec fn in_order(files: Map<Platform, Seq<Seq<char>>>) -> Seq<Platform> {
        (if files.contains_key(Platform::Android) {
            seq![Platform::Android]
        } else {
            Seq::<Platform>::empty()
        }) + (if files.contains_key(Platform::IOS) {
            seq![Platform::IOS]
        } else {
            Seq::<Platform>::empty()
        })
    }

    /// The number of platforms that are present.
    pub fn len(&self) -> (n: usize)
        ensures
            n == Self::in_order(self@).len(),
    {
        self.platforms().len()
    }

    /// Whether no platform is present.
    pub fn is_empty(&self) -> (empty: bool)
        ensures
            empty == (self@ == Map::<Platform, Seq<Seq<char>>>::empty()),
    {
        let empty = self.android.is_none() && self.ios.is_none();
        proof {
            if empty {
                assert(self@ =~= Map::<Platform, Seq<Seq<char>>>::empty());
            } else if self.android is Some {
                assert(self@.contains_key(Platform::Android));
            } else {
                assert(self@.contains_key(Platform::IOS));
            }
        }
        empty
    }
}

/// What the shared module means for one platform.
#[derive(Debug)]
pub struct PlatformImpact {
    /// The platform's name.
    pub platform_name: String,
    /// How many application files the platform has.
    pub total_files: usize,
    /// How many lines of code they hold.
    pub total_lines: usize,
    /// The files that use a shared symbol directly.
    pub affected_files: FileSet,
    /// How many lines of code the affected files hold, files that depend on
    /// a directly affected file included.
    pub affected_lines: usize,
    /// The share of affected lines.
    pub impact_ratio: ImpactRatio,
    /// The most used symbols with the number of their uses, most used first.
    pub top_symbols: Vec<(String, usize)>,
}

/// Symbols with the number of their uses.
pub type Ranking = Seq<(Seq<char>, usize)>;

/// What a list of names and counts says, as plain values.
pub open spec fn ranking_of(entries: Seq<(String, usize)>) -> Ranking {
    Seq::new(entries.len(), |i: int| (entries[i].0@, entries[i].1))
}

/// What a `PlatformImpact` says, as plain values.
pub struct PlatformImpactView {
    pub platform_name: Seq<char>,
    pub total_files: usize,
    pub total_lines: usize,
    pub affected_files: Set<Seq<char>>,
    pub affected_lines: usize,
    pub impact_ratio: ImpactRatio,
    pub top_symbols: Ranking,
}

impl View for PlatformImpact {
    type V = PlatformImpactView;

    open spec fn view(&self) -> PlatformImpactView {
        PlatformImpactView {
            platform_name: self.platform_name@,
            total_files: self.total_files,
            total_lines: self.total_lines,
            affected_files: self.affected_files@,
            affected_lines: self.affected_lines,
            impact_ratio: self.impact_ratio,
            top_symbols: ranking_of(self.top_symbols@),
        }
    }
}

/// The views of a sequence of impacts.
pub open spec fn impact_views(impacts: Seq<PlatformImpact>) -> Seq<PlatformImpactView> {
    Seq::new(impacts.len(), |i: int| impacts[i]@)
}

impl PlatformImpact {
    /// No more lines are affected than there are, and the ratio is that of
    /// the two counts.
    pub open spec fn is_consistent(&self) -> bool {
        &&& self.affected_lines <= self.total_lines
        &&& self.impact_ratio == ImpactRatio::spec_of(self.affected_lines, self.total_lines)
    }

    /// An impact of nothing on a platform without files.
    pub fn new(platform_name: String) -> (impact: Self)
        ensures
            impact.platform_name@ == platform_name@,
            impact.total_files == 0,
            impact.total_lines == 0,
            impact.affected_files@ == Set::<Seq<char>>::empty(),
            impact.affected_lines == 0,
            impact.impact_ratio.is_zero(),
            impact.top_symbols@.len() == 0,
            impact.is_consistent(),
    {
        PlatformImpact {
            platform_name,
            total_files: 0,
            total_lines: 0,
            affected_files: FileSet::new(),
            affected_lines: 0,
            impact_ratio: ImpactRatio::zero(),
            top_symbols: Vec::new(),
        }
    }

    /// Sets the ratio to that of affected lines to all lines, zero where
    /// there are no lines.
    pub fn calculate_impact_ratio(&mut self)
        ensures
            final(self).impact_ratio == ImpactRatio::spec_of(
                old(self).affected_lines,
                old(self).total_lines,
            ),
            final(self).platform_name == old(self).platform_name,
            final(self).total_files == old(self).total_files,
            final(self).total_lines == old(self).total_lines,
            final(self).affected_files == old(self).affected_files,
            final(self).affected_lines == old(self).affected_lines,
            final(self).top_symbols == old(self).top_symbols,
    {
        self.impact_ratio = ImpactRatio::of(self.affected_lines, self.total_lines);
    }
}

/// The result of an analysis: what the shared module means for the whole
/// application and for each platform.
#[derive(Debug)]
pub struct ImpactAnalysis {
    /// How many symbols the shared module declares.
    pub total_symbols: usize,
    /// How many application files there are.
    pub total_app_files: usize,
    /// How many lines of code they hold.
    pub total_app_lines: usize,
    /// The files that use a shared symbol directly.
    pub affected_files: FileSet,
    /// How many lines of code are affected.
    pub affected_lines: usize,
    /// The share of affected lines.
    pub impact_ratio: ImpactRatio,
    /// The impact on each platform, under the platform's name.
    pub platform_impacts: StringMap<PlatformImpact>,
    /// Every use of a shared symbol, under the symbol's name.
    pub symbol_usages: StringMap<Vec<SymbolUsage>>,
}

/// What an `ImpactAnalysis` says, as plain values: the platforms and the
/// symbols each as a list of names with, at the same positions, what is held
/// under the name.
pub struct ImpactAnalysisView {
    pub total_symbols: usize,
    pub total_app_files: usize,
    pub total_app_lines: usize,
    pub affected_files: Set<Seq<char>>,
    pub affected_lines: usize,
    pub impact_ratio: ImpactRatio,
    pub platform_names: Seq<Seq<char>>,
    pub platform_impacts: Seq<PlatformImpactView>,
    pub symbol_names: Seq<Seq<char>>,
    pub symbol_usages: Seq<Seq<SymbolUsageView>>,
}

impl View for ImpactAnalysis {
    type V = ImpactAnalysisView;

    open spec fn view(&self) -> ImpactAnalysisView {
        ImpactAnalysisView {
            total_symbols: self.total_symbols,
            total_app_files: self.total_app_files,
            total_app_lines: self.total_app_lines,
            affected_files: self.affected_files@,
            affected_lines: self.affected_lines,
            impact_ratio: self.impact_ratio,
            platform_names: self.platform_impacts.keys(),
            platform_impacts: impact_views(self.platform_impacts.values()),
            symbol_names: self.symbol_usages.keys(),
            symbol_usages: Seq::new(
                self.symbol_usages.values().len(),
                |i: int| usage_views(self.symbol_usages.values()[i]@),
            ),
        }
    }
}

impl ImpactAnalysis {
    /// No more lines are affected than there are, overall and on each
    /// platform, and each ratio is that of its two counts.
    pub open spec fn is_consistent(&self) -> bool {
        &&& self.affected_lines <= self.total_app_lines
        &&& self.impact_ratio == ImpactRatio::spec_of(self.affected_lines, self.total_app_lines)
        &&& forall|i: int|
            0 <= i < self.platform_impacts.values().len() ==> (
            #[trigger] self.platform_impacts.values()[i]).is_consistent()
    }

    /// An analysis of nothing.
    pub fn new() -> (analysis: Self)
        ensures
            analysis.total_symbols == 0,
            analysis.total_app_files == 0,
            analysis.total_app_lines == 0,
            analysis.affected_files@ == Set::<Seq<char>>::empty(),
            analysis.affected_lines == 0,
            analysis.impact_ratio.is_zero(),
            analysis.platform_impacts.keys().len() == 0,
            analysis.symbol_usages.keys().len() == 0,
            analysis.is_consistent(),
    {
        ImpactAnalysis {
            total_symbols: 0,
            total_app_files: 0,
            total_app_lines: 0,
            affected_files: FileSet::new(),
            affected_lines: 0,
            impact_ratio: ImpactRatio::zero(),
            platform_impacts: StringMap::new(),
            symbol_usages: StringMap::new(),
        }
    }

    /// Sets the ratio to that of affected lines to all lines, zero where
    /// there are no lines.
    pub fn calculate_impact_ratio(&mut self)
        ensures
            final(self).impact_ratio == ImpactRatio::spec_of(
                old(self).affected_lines,
                old(self).total_app_lines,
            ),
            final(self).total_symbols == old(self).total_symbols,
            final(self).total_app_files == old(self).total_app_files,
            final(self).total_app_lines == old(self).total_app_lines,
            final(self).affected_files == old(self).affected_files,
            final(self).affected_lines == old(self).affected_lines,
            final(self).platform_impacts == old(self).platform_impacts,
            final(self).symbol_usages == old(self).symbol_usages,
    {
        self.impact_ratio = ImpactRatio::of(self.affected_lines, self.total_app_lines);
    }
}

/// Wherever no more lines are affected than there are, the ratio lies
/// between zero and one, and it is zero where there are no lines at all.
pub proof fn lemma_ratio_bounds(affected: usize, total: usize)
    requires
        affected <= total,
    ensures
        ImpactRatio::spec_of(affected, total).in_unit_interval(),
        ImpactRatio::spec_of(affected, total).affected <= ImpactRatio::spec_of(affected, total).total,
        total == 0 ==> ImpactRatio::spec_of(affected, total).is_zero(),
{
}

/// In a consistent analysis every ratio, overall and per platform, lies
/// between zero and one, no count of affected lines exceeds its total, and a
/// platform without lines has the ratio zero.
pub proof fn lemma_consistent_analysis(analysis: ImpactAnalysis)
    requires
        analysis.is_consistent(),
    ensures
        analysis.impact_ratio.in_unit_interval(),
        analysis.affected_lines <= analysis.total_app_lines,
        analysis.total_app_lines == 0 ==> analysis.impact_ratio.is_zero(),
        forall|i: int|
            0 <= i < analysis.platform_impacts.values().len() ==> {
                let impact = #[trigger] analysis.platform_impacts.values()[i];
                &&& impact.impact_ratio.in_unit_interval()
                &&& impact.affected_lines <= impact.total_lines
                &&& (impact.total_lines == 0 ==> impact.impact_ratio.is_zero())
            },
{
}

} // verus!
