use vstd::prelude::*;
use crate::domain::entities::ImpactRatio;
use crate::file_set::FileSet;
use crate::string_map::StringMap;

verus! {

/// The kind of a declaration found in shared code.
#[derive(Debug, Clone, Copy, PartialEq, Eq, Structural)]
pub enum SymbolType {
    Class,
    Interface,
    Object,
    Function,
    Property,
    TypeAlias,
}

/// A declaration found in a file of the shared module.
#[derive(Debug)]
pub struct KmpSymbol {
    /// The declared name.
    pub name: String,
    /// The kind of declaration.
    pub symbol_type: SymbolType,
    /// The module that owns the file.
    pub module: String,
    /// The file that holds the declaration.
    pub file_path: String,
    /// Whether the declaration is public.
    pub is_public: bool,
}

/// What a `KmpSymbol` says, as plain values.
pub struct KmpSymbolView {
    pub name: Seq<char>,
    pub symbol_type: SymbolType,
    pub module: Seq<char>,
    pub file_path: Seq<char>,
    pub is_public: bool,
}

impl View for KmpSymbol {
    type V = KmpSymbolView;

    open spec fn view(&self) -> KmpSymbolView {
        KmpSymbolView {
            name: self.name@,
            symbol_type: self.symbol_type,
            module: self.module@,
            file_path: self.file_path@,
            is_public: self.is_public,
        }
    }
}

impl Clone for KmpSymbol {
    fn clone(&self) -> (copy: Self)
        ensures
            copy@ == self@,
    {
        KmpSymbol {
            name: self.name.clone(),
            symbol_type: self.symbol_type,
            module: self.module.clone(),
            file_path: self.file_path.clone(),
            is_public: self.is_public,
        }
    }
}

/// The views of a sequence of symbols.
pub open spec fn kmp_symbol_views(symbols: Seq<KmpSymbol>) -> Seq<KmpSymbolView> {
    Seq::new(symbols.len(), |i: int| symbols[i]@)
}

/// The place of one occurrence of a symbol.
#[derive(Debug)]
pub struct UsageLocation {
    /// The file that holds the occurrence.
    pub file: String,
    /// The line of the occurrence, counted from one.
    pub line: usize,
    /// The line's text without surrounding white space.
    pub context: String,
}

/// What a `UsageLocation` says, as plain values.
pub struct UsageLocationView {
    pub file: Seq<char>,
    pub line: usize,
    pub context: Seq<char>,
}

impl View for UsageLocation {
    type V = UsageLocationView;

    open spec fn view(&self) -> UsageLocationView {
        UsageLocationView { file: self.file@, line: self.line, context: self.context@ }
    }
}

impl Clone for UsageLocation {
    fn clone(&self) -> (copy: Self)
        ensures
            copy@ == self@,
    {
        UsageLocation { file: self.file.clone(), line: self.line, context: self.context.clone() }
    }
}

/// The views of a sequence of locations.
pub open spec fn location_views(locations: Seq<UsageLocation>) -> Seq<UsageLocationView> {
    Seq::new(locations.len(), |i: int| locations[i]@)
}

/// All that is known of the use of one symbol.
#[derive(Debug)]
pub struct SymbolUsage {
    /// The symbol's name.
    pub symbol_name: String,
    /// How often the symbol is referenced.
    pub reference_count: usize,
    /// The files that reference it.
    pub used_in_files: FileSet,
    /// Each reference, in the order in which it was found.
    pub usage_lines: Vec<UsageLocation>,
}

/// What a `SymbolUsage` says, as plain values.
pub struct SymbolUsageView {
    pub symbol_name: Seq<char>,
    pub reference_count: usize,
    pub used_in_files: Set<Seq<char>>,
    pub usage_lines: Seq<UsageLocationView>,
}

impl View for SymbolUsage {
    type V = SymbolUsageView;

    open spec fn view(&self) -> SymbolUsageView {
        SymbolUsageView {
            symbol_name: self.symbol_name@,
            reference_count: self.reference_count,
            used_in_files: self.used_in_files@,
            usage_lines: location_views(self.usage_lines@),
        }
    }
}

/// What is known of one module of a project.
#[derive(Debug)]
pub struct ModuleCoverage {
    /// The module's name.
    pub name: String,
    /// Where the module lies.
    pub path: String,
    /// Whether the module is shared between platforms.
    pub is_kmp: bool,
    /// How many lines of shared code it holds.
    pub kmp_lines: usize,
    /// How many lines of code it holds in all.
    pub total_lines: usize,
    /// The modules it depends on.
    pub dependencies: Vec<String>,
    /// The modules that depend on it.
    pub dependents: Vec<String>,
    /// The share of shared lines.
    pub coverage: ImpactRatio,
}

impl ModuleCoverage {
    /// A module of which only name and path are known.
    pub fn new(name: String, path: String) -> (module: Self)
        ensures
            module.name@ == name@,
            module.path@ == path@,
            !module.is_kmp,
            module.kmp_lines == 0,
            module.total_lines == 0,
            module.dependencies@.len() == 0,
            module.dependents@.len() == 0,
            module.coverage.is_zero(),
    {
        ModuleCoverage {
            name,
            path,
            is_kmp: false,
            kmp_lines: 0,
            total_lines: 0,
            dependencies: Vec::new(),
            dependents: Vec::new(),
            coverage: ImpactRatio::zero(),
        }
    }

    /// Sets the coverage to the share of shared lines; a module without
    /// lines keeps the coverage it has.
    pub fn calculate_coverage(&mut self)
        ensures
            final(self).coverage == if old(self).total_lines > 0 {
                ImpactRatio { affected: old(self).kmp_lines, total: old(self).total_lines }
            } else {
                old(self).coverage
            },
            final(self).name == old(self).name,
            final(self).path == old(self).path,
            final(self).is_kmp == old(self).is_kmp,
            final(self).kmp_lines == old(self).kmp_lines,
            final(self).total_lines == old(self).total_lines,
            final(self).dependencies == old(self).dependencies,
            final(self).dependents == old(self).dependents,
    {
        if self.total_lines > 0 {
            self.coverage = ImpactRatio { affected: self.kmp_lines, total: self.total_lines };
        }
    }
}

/// What the shared module means for one platform.
#[derive(Debug)]
pub struct PlatformImpact {
    /// The platform's name.
    pub platform_name: String,
    /// How many application files the platform has.
    pub total_files: usize,
    /// The files that use a shared symbol directly.
    pub direct_impact_files: FileSet,
    /// How many files depend on a directly affected file.
    pub transitive_impact_files: usize,
    /// How many lines of code the platform has.
    pub total_lines: usize,
    /// How many of them are affected.
    pub affected_lines: usize,
    /// The share of affected lines.
    pub impact_ratio: ImpactRatio,
    /// The most used symbols with the number of their uses.
    pub top_symbols: Vec<(String, usize)>,
}

/// What the shared module means for the application.
#[derive(Debug)]
pub struct ImpactCoverage {
    /// The symbols of the shared module.
    pub kmp_symbols: Vec<KmpSymbol>,
    /// The files that use a shared symbol directly.
    pub direct_impact_files: FileSet,
    /// The files that depend on a directly affected file.
    pub transitive_impact_files: FileSet,
    /// How many lines of code are affected.
    pub affected_lines: usize,
    /// How many lines of code the application has.
    pub total_app_lines: usize,
    /// The share of affected lines.
    pub impact_ratio: ImpactRatio,
    /// The use of each symbol, under its name.
    pub symbol_usage: StringMap<SymbolUsage>,
    /// The impact on each platform, under its name.
    pub platform_impact: StringMap<PlatformImpact>,
}

impl Default for ImpactCoverage {
    fn default() -> (coverage: Self)
        ensures
            coverage.kmp_symbols@.len() == 0,
            coverage.direct_impact_files@ == Set::<Seq<char>>::empty(),
            coverage.transitive_impact_files@ == Set::<Seq<char>>::empty(),
            coverage.affected_lines == 0,
            coverage.total_app_lines == 0,
            coverage.impact_ratio.is_zero(),
            coverage.symbol_usage.keys().len() == 0,
            coverage.platform_impact.keys().len() == 0,
    {
        ImpactCoverage {
            kmp_symbols: Vec::new(),
            direct_impact_files: FileSet::new(),
            transitive_impact_files: FileSet::new(),
            affected_lines: 0,
            total_app_lines: 0,
            impact_ratio: ImpactRatio::zero(),
            symbol_usage: StringMap::new(),
            platform_impact: StringMap::new(),
        }
    }
}

/// The result of looking at a whole repository.
#[derive(Debug)]
pub struct AnalysisResult {
    /// How many projects there are.
    pub total_projects: usize,
    /// How many of them use shared code.
    pub kmp_projects: usize,
    /// What is known of each module.
    pub modules: Vec<ModuleCoverage>,
    /// The share of shared lines over all modules.
    pub overall_coverage: ImpactRatio,
    /// What the shared code means for the application.
    pub impact_coverage: ImpactCoverage,
}

impl Default for AnalysisResult {
    fn default() -> (result: Self)
        ensures
            result.total_projects == 0,
            result.kmp_projects == 0,
            result.modules@.len() == 0,
            result.overall_coverage.is_zero(),
    {
        AnalysisResult {
            total_projects: 0,
            kmp_projects: 0,
            modules: Vec::new(),
            overall_coverage: ImpactRatio::zero(),
            impact_coverage: ImpactCoverage::default(),
        }
    }
}

} // verus!
