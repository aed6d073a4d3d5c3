//! What the command line asks for.
use vstd::prelude::*;

verus! {

/// The command line: a directory to start from, and what to do.
#[derive(Debug, Clone, PartialEq, Eq)]
pub struct Args {
    pub directory: Option<String>,
    /// List all tasks, not just local ones.
    pub all: bool,
    /// Tasks to run, in order.
    pub tasks: Vec<String>,
    /// Fetch and install the declared tools.
    pub fetch_tools: bool,
}

/// What to do.
#[derive(Debug, PartialEq, Eq)]
pub enum Action<'a> {
    List { all: bool },
    Run(&'a [String]),
    FetchTools,
}

impl Args {
    /// Fetching tools when asked; else listing, of all tasks when asked, or of the
    /// local ones when no task is named; else running the named tasks.
    pub fn action(&self) -> (r: Action<'_>)
        ensures
            self.fetch_tools ==> r == Action::FetchTools,
            !self.fetch_tools && self.all ==> r == (Action::List { all: true }),
            !self.fetch_tools && !self.all && self.tasks@.len() == 0 ==> r == (Action::List { all: false }),
            !self.fetch_tools && !self.all && self.tasks@.len() > 0 ==> (r matches Action::Run(t) && t@ == self.tasks@),
    {
        if self.fetch_tools {
            Action::FetchTools
        } else if self.all {
            Action::List { all: true }
        } else if self.tasks.len() == 0 {
            Action::List { all: false }
        } else {
            Action::Run(self.tasks.as_slice())
        }
    }
}

} // verus!
