//! Opening the settings file in an editor: which program to start next.

use vstd::prelude::*;

verus! {

/// What is said when there is no program to open a file with.
pub const NO_EDITOR: &'static str = "neither xdg-open nor $EDITOR is available";

/// The next thing to do.
#[derive(Debug)]
pub enum EditStep {
    /// Start this program with the file, detached.
    Spawn(String),
    /// The file was handed over.
    Opened,
    /// The named program could not be started.
    Failed,
    /// There is nothing to start.
    Unavailable,
}

/// How far the opening has come.
#[derive(Clone, Copy, PartialEq, Eq, Structural, Debug)]
pub enum EditProgress {
    Begin,
    /// The desktop's opener was tried.
    TriedOpener { started: bool },
    /// The user's editor was tried.
    TriedEditor { started: bool },
}

/// Decide how to open a file on Linux: the desktop's opener first, the user's
/// editor when that does not start.
pub fn open_in_editor(progress: EditProgress, editor: Option<&str>) -> (r: EditStep)
    ensures
        match progress {
            EditProgress::Begin => r matches EditStep::Spawn(p) && p@ == "xdg-open"@,
            EditProgress::TriedOpener { started } => if started {
                r is Opened
            } else {
                match editor {
                    Some(e) => r matches EditStep::Spawn(p) && p@ == e@,
                    None => r is Unavailable,
                }
            },
            EditProgress::TriedEditor { started } => if started {
                r is Opened
            } else {
                r is Failed
            },
        },
{
    match progress {
        EditProgress::Begin => EditStep::Spawn("xdg-open".to_owned()),
        EditProgress::TriedOpener { started } => {
            if started {
                EditStep::Opened
            } else {
                match editor {
                    Some(e) => EditStep::Spawn(e.to_owned()),
                    None => EditStep::Unavailable,
                }
            }
        },
        EditProgress::TriedEditor { started } => {
            if started {
                EditStep::Opened
            } else {
                EditStep::Failed
            }
        },
    }
}

/// Decide how to open a file on macOS: `open`, and nothing else when that does
/// not start.
pub fn open_in_editor_macos(progress: EditProgress) -> (r: EditStep)
    ensures
        match progress {
            EditProgress::Begin => r matches EditStep::Spawn(p) && p@ == "open"@,
            EditProgress::TriedOpener { started } => if started {
                r is Opened
            } else {
                r is Failed
            },
            EditProgress::TriedEditor { started } => if started {
                r is Opened
            } else {
                r is Failed
            },
        },
{
    match progress {
        EditProgress::Begin => EditStep::Spawn("open".to_owned()),
        EditProgress::TriedOpener { started } => {
            if started {
                EditStep::Opened
            } else {
                EditStep::Failed
            }
        },
        EditProgress::TriedEditor { started } => {
            if started {
                EditStep::Opened
            } else {
                EditStep::Failed
            }
        },
    }
}

} // verus!
