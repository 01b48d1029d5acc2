//! The configuration: the repositories to analyse.

use vstd::prelude::*;
use crate::errors::{AicedError, AicedResult, opt_view};
use crate::text::str_eq;

verus! {

/// One repository to analyse.
#[derive(Clone, Debug)]
pub struct RepositoryConfig {
    /// The name the repository is known by.
    pub name: String,
    /// The directory that holds it.
    pub path: String,
    /// The branch to pull, `main` when none is named.
    pub branch: Option<String>,
    /// Pull the latest changes before each analysis.
    pub auto_pull: bool,
    /// Open a pull request with the changes.
    pub auto_pr: bool,
}

/// The whole configuration.
#[derive(Clone, Debug)]
pub struct Config {
    pub repositories: Vec<RepositoryConfig>,
}

/// Loads and checks the configuration.
pub struct ConfigManager;

/// No two repositories share a name.
pub open spec fn names_distinct(repos: Seq<RepositoryConfig>) -> bool {
    forall|i: int, j: int| 0 <= i < j < repos.len() ==> repos[i].name@ != repos[j].name@
}

/// The configuration is valid when every repository directory exists and no
/// two repositories share a name. `path_exists[i]` tells whether the directory
/// of repository `i` exists.
pub open spec fn config_valid(repos: Seq<RepositoryConfig>, path_exists: Seq<bool>) -> bool {
    &&& forall|i: int| 0 <= i < repos.len() ==> #[trigger] path_exists[i]
    &&& names_distinct(repos)
}

/// The error of an invalid configuration.
pub open spec fn is_config_failure(e: AicedError) -> bool {
    &&& e matches AicedError::ConfigurationError { message, field, suggestion }
    &&& message@ == "Config Error"@
    &&& opt_view(field) == Some(""@)
    &&& opt_view(suggestion) == Some(""@)
}

impl ConfigManager {
    /// Checks that every repository directory exists and that no two
    /// repositories share a name.
    pub fn validate_config(config: &Config, path_exists: &Vec<bool>) -> (res: AicedResult<()>)
        requires
            path_exists@.len() == config.repositories@.len(),
        ensures
            res is Ok <==> config_valid(config.repositories@, path_exists@),
            res matches Err(e) ==> is_config_failure(e),
    {
        let repos = &config.repositories;
        let n = repos.len();
        let mut all_exist = true;
        let mut i: usize = 0;
        while i < n
            invariant
                i <= n == repos@.len() == path_exists@.len(),
                all_exist <==> forall|k: int| 0 <= k < i ==> #[trigger] path_exists@[k],
            decreases n - i,
        {
            if !path_exists[i] {
                all_exist = false;
            }
            i = i + 1;
        }
        let mut distinct = true;
        let mut a: usize = 0;
        while a < n
            invariant
                a <= n == repos@.len(),
                distinct <==> forall|x: int, y: int|
                    0 <= x < y < repos@.len() && x < a ==> repos@[x].name@ != repos@[y].name@,
            decreases n - a,
        {
            let mut b: usize = a + 1;
            while b < n
                invariant
                    a < n == repos@.len(),
                    a + 1 <= b <= n,
                    distinct <==> (forall|x: int, y: int|
                        0 <= x < y < repos@.len() && x < a ==> repos@[x].name@ != repos@[y].name@)
                        && (forall|y: int| a < y < b ==> repos@[a as int].name@ != repos@[y].name@),
                decreases n - b,
            {
                if str_eq(repos[a].name.as_str(), repos[b].name.as_str()) {
                    distinct = false;
                }
                b = b + 1;
            }
            a = a + 1;
        }
        if all_exist && distinct {
            Ok(())
        } else {
            Err(AicedError::config_error("Config Error", Some(""), Some("")))
        }
    }
}

} // verus!
