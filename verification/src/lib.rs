//! Assigns cluster namespaces to projects.
//!
//! An ordered list of rules is tried against a namespace's name. The first
//! rule that matches decides the project, and the namespace's annotations
//! and labels are returned with the project identifier written into them.

pub mod engine;
pub mod matcher;
pub mod metadata;
pub mod settings;

pub use engine::{evaluate, first_match, mutate, InvalidPatternError, MutationResult, NamespaceView};
pub use matcher::{match_kind, regex_verdict, InvalidPattern, MatchKind};
pub use metadata::Metadata;
pub use settings::{Project, Settings};
