//! What connects the analysis to projects as they are laid out: platforms,
//! their files, and the repositories over the analyzers.

pub mod platform_detector;
pub mod platforms;
pub mod project_detector;
pub mod repositories;

pub use repositories::{
    DependencyRepositoryImpl, SourceFileRepositoryImpl, SymbolRepositoryImpl,
    SymbolUsageRepositoryImpl,
};
pub use project_detector::{DetectedProject, ProjectDetector, ProjectType};
