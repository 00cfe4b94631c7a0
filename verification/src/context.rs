//! Everything a command works with.
use crate::config::DagenticConfig;
use crate::fs::Filesystem;
use crate::gh::GitHost;
use crate::git::GitRepo;
use vstd::prelude::*;

verus! {

/// The configuration, file system, git host and repository a command works with.
pub struct Context<'a> {
    pub config: &'a DagenticConfig,
    pub fs: &'a dyn Filesystem,
    pub host: &'a dyn GitHost,
    pub repo: &'a dyn GitRepo,
}

} // verus!
