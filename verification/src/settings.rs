//! The configuration: a cluster's name and the ordered rules that assign
//! namespaces to projects.

use vstd::prelude::*;

verus! {

/// One rule: namespaces whose name `namespace_match` accepts, compared as
/// `match_type` says, belong to the project `project_name`.
#[derive(Debug, Default)]
pub struct Project {
    pub match_type: String,
    pub project_name: String,
    pub namespace_match: String,
}

/// The cluster's name and its rules. The rules are tried in the order in
/// which they stand.
#[derive(Debug, Default)]
pub struct Settings {
    pub cluster_name: String,
    pub projects: Vec<Project>,
}

impl Settings {
    /// Accepts every configuration: a pattern is judged when its rule is
    /// tried, not before.
    pub fn validate(&self) -> (r: Result<(), String>)
        ensures
            r.is_ok(),
    {
        Ok(())
    }
}

} // verus!
