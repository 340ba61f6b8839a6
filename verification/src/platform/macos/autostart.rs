//! Launch at login on macOS: which file to write or to delete.

use crate::autostart::{
    escaped, launch_agent_plist, launch_agent_plist_path, reconcile_action, ReconcileAction,
    LAUNCH_AGENT_FILE, PLIST_HEAD, PLIST_TAIL,
};
use crate::text::{join_path, joined};
use vstd::prelude::*;

verus! {

/// What to do to the login item.
pub enum AgentStep {
    /// Create this directory where it is missing, then write the text to the
    /// file.
    Write { dir: String, path: String, text: String },
    /// Delete the file.
    Delete { path: String },
}

/// The directory of login items below a home directory.
pub open spec fn agents_dir(home: Seq<char>) -> Seq<char> {
    joined(joined(home, "Library"@), "LaunchAgents"@)
}

/// Bring the login item in line with the setting: write it, whatever it holds,
/// or delete it. Refused (`None`) when the home directory is unset or empty.
pub fn apply_auto_start(auto_start: bool, home: Option<&str>, exe: &str) -> (r: Option<AgentStep>)
    ensures
        match (home, r) {
            (None, None) => true,
            (Some(h), None) => h@.len() == 0,
            (Some(h), Some(step)) => h@.len() > 0 && match step {
                AgentStep::Write { dir, path, text } => {
                    &&& auto_start
                    &&& dir@ == agents_dir(h@)
                    &&& path@ == joined(agents_dir(h@), LAUNCH_AGENT_FILE@)
                    &&& text@ == PLIST_HEAD@ + escaped(exe@) + PLIST_TAIL@
                },
                AgentStep::Delete { path } => !auto_start && path@ == joined(
                    agents_dir(h@),
                    LAUNCH_AGENT_FILE@,
                ),
            },
            (None, Some(_)) => false,
        },
{
    match (launch_agent_plist_path(home), home) {
        (Some(path), Some(h)) => {
            match reconcile_action(auto_start) {
                ReconcileAction::Install => {
                    let library = join_path(h, "Library");
                    let dir = join_path(library.as_str(), "LaunchAgents");
                    Some(AgentStep::Write { dir, path, text: launch_agent_plist(exe) })
                },
                ReconcileAction::Remove => Some(AgentStep::Delete { path }),
            }
        },
        _ => None,
    }
}

/// How a deletion ended.
#[derive(Clone, Copy, PartialEq, Eq, Structural, Debug)]
pub enum DeleteOutcome {
    Deleted,
    /// There was no file.
    Absent,
    Failed,
}

/// Whether a deletion counts as done: an absent file is what was wanted.
pub fn deletion_succeeded(outcome: DeleteOutcome) -> (r: bool)
    ensures
        r == (outcome != DeleteOutcome::Failed),
{
    match outcome {
        DeleteOutcome::Deleted => true,
        DeleteOutcome::Absent => true,
        DeleteOutcome::Failed => false,
    }
}

} // verus!
