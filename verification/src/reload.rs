//! The decisions around re-running the entry script: where the project path
//! comes from, and what a report of the file watcher leads to.

use vstd::prelude::*;

verus! {

/// A report of the file watcher, as far as the decision reads it.
#[derive(Clone, Copy, Debug, PartialEq, Eq)]
pub enum Change {
    /// The watcher reported an error in place of an event.
    Failed,
    /// The content of a file changed.
    DataModified,
    /// A file was created.
    FileCreated,
    /// Anything else.
    Other,
}

/// What the watching thread does next.
#[derive(Clone, Copy, Debug, PartialEq, Eq)]
pub enum Reaction {
    /// Wait for the next report.
    Ignore,
    /// Run the entry script again.
    Rerun,
    /// Give up watching: the watched path is gone.
    Stop,
}

/// The reaction to `change`. New or changed file content leads to a re-run
/// while the watched path exists and ends the watching once it does not;
/// every other report is passed over.
pub open spec fn reaction(change: Change, watched_path_exists: bool) -> Reaction {
    match change {
        Change::DataModified | Change::FileCreated => if watched_path_exists {
            Reaction::Rerun
        } else {
            Reaction::Stop
        },
        Change::Failed | Change::Other => Reaction::Ignore,
    }
}

/// Decides what a report of the file watcher leads to.
pub fn react(change: Change, watched_path_exists: bool) -> (r: Reaction)
    ensures
        r == reaction(change, watched_path_exists),
{
    match change {
        Change::DataModified | Change::FileCreated => {
            if watched_path_exists {
                Reaction::Rerun
            } else {
                Reaction::Stop
            }
        },
        Change::Failed | Change::Other => Reaction::Ignore,
    }
}

/// The project path among the arguments of the process: the one after the
/// program's own name. Without it the program cannot start.
pub fn project_argument(args: &Vec<String>) -> (path: Option<&String>)
    ensures
        path == (if args@.len() >= 2 {
            Some(&args@[1])
        } else {
            None
        }),
{
    if args.len() >= 2 {
        Some(&args[1])
    } else {
        None
    }
}

} // verus!
