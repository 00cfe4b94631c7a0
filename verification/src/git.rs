//! The local git repository, as the commands use it.
use vstd::prelude::*;

verus! {

/// The git repository the commands work in. Implementations ask git; nothing is
/// promised of what they answer.
pub trait GitRepo {
    /// The top-level directory of the working tree.
    fn root(&self) -> Result<String, String>;
}

} // verus!
