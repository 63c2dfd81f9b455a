//! The repositories file (`.gitrepos`) as the library holds it.
use vstd::prelude::*;

verus! {

/// One repository entry of the repositories file.
#[derive(Debug)]
pub struct RepoConfig {
    /// Path of the repository, relative to the project directory.
    pub local: Option<String>,
    /// Remote url.
    pub remote: Option<String>,
    pub branch: Option<String>,
    pub tag: Option<String>,
    pub commit: Option<String>,
    pub sparse: Option<Vec<String>>,
    pub labels: Option<Vec<String>>,
}

/// The repositories file.
#[derive(Debug)]
pub struct MgitConfig {
    pub version: Option<String>,
    pub default_branch: Option<String>,
    pub default_remote: Option<String>,
    pub repos: Option<Vec<RepoConfig>>,
}

impl MgitConfig {
    /// A file with no entries.
    pub fn new() -> (r: Self)
        ensures
            r.version is None,
            r.default_branch is None,
            r.default_remote is None,
            r.repos is None,
    {
        MgitConfig { version: None, default_branch: None, default_remote: None, repos: None }
    }
}

/// The repository entries of a file; none when it lists no repositories.
pub open spec fn repos_of(c: &MgitConfig) -> Seq<RepoConfig> {
    match c.repos {
        Some(v) => v@,
        None => Seq::empty(),
    }
}

} // verus!
