//! What the user asked for.

use vstd::prelude::*;

verus! {

/// The arguments of one run. By default nothing is ended: the ports are only
/// inspected.
#[derive(Debug, Clone, PartialEq, Eq)]
pub struct Cli {
    /// The ports: single ones (`3000`) and ranges (`9000-9005`), as written.
    pub ports: Vec<String>,
    /// End what occupies the ports, gently first.
    pub kill: bool,
    /// End what occupies the ports at once; implies `kill`, without asking.
    pub force: bool,
    /// Say what would be done, and do nothing.
    pub dry_run: bool,
    /// Answer in JSON.
    pub json: bool,
}

} // verus!
