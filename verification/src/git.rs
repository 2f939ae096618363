//! The git that a job runs, and what came of running it.

use vstd::prelude::*;

verus! {

/// Which git binary to run, and in which folder.
#[derive(Debug, PartialEq, Eq)]
pub struct Git {
    binary: String,
    cwd: String,
}

impl Git {
    /// The binary's name or path.
    pub closed spec fn spec_binary(&self) -> Seq<char> {
        self.binary@
    }

    /// The folder's path.
    pub closed spec fn spec_cwd(&self) -> Seq<char> {
        self.cwd@
    }

    pub fn new(binary: String, cwd: String) -> (git: Git)
        ensures
            git.spec_binary() == binary@,
            git.spec_cwd() == cwd@,
    {
        Git { binary, cwd }
    }

    pub fn binary(&self) -> (binary: &str)
        ensures
            binary@ == self.spec_binary(),
    {
        self.binary.as_str()
    }

    pub fn cwd(&self) -> (cwd: &str)
        ensures
            cwd@ == self.spec_cwd(),
    {
        self.cwd.as_str()
    }
}

/// How one git command ended.
#[derive(Debug, PartialEq, Eq)]
pub struct StepOutput {
    /// Whether git reported success.
    pub ok: bool,
    /// What git wrote to its standard error.
    pub stderr: String,
}

} // verus!
