//! What stands between the analysis and its user.

pub mod reporters;

pub use reporters::Reporter;
