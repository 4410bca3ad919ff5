//! The options of a run.

use vstd::prelude::*;

verus! {

/// The options of a run.
#[derive(Clone, Copy, Debug, PartialEq, Eq, Structural)]
pub struct Args {
    /// Plan the run and stop before anything is fetched.
    pub dry_run: bool,
    /// Number of workers that scan the index; zero leaves the choice to the
    /// machine.
    pub threads: usize,
}

} // verus!
