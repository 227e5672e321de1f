//! The ways in which a command can end without doing what was asked.

use vstd::prelude::*;

verus! {

/// Why a command did not do what was asked.
#[derive(Clone, Copy, Debug, PartialEq, Eq, Structural)]
pub enum HitError {
    /// The variable that names the temp directory is unset or empty.
    EnvMissing,
    /// The file system refused an operation. The library touches no file:
    /// this is for the program around it to raise.
    IoError,
    /// An index is zero or larger than the number of marks.
    InvalidIndex,
    /// The directory to mark is already in the list.
    Duplicate,
    /// The directory to unmark is not in the list.
    NotMarked,
    /// There is no mark to show or to check.
    EmptyList,
    /// There is no backup to restore from.
    NoBackup,
    /// The clipboard refused the text. The library touches no clipboard:
    /// this is for the program around it to raise.
    ClipboardError,
}

impl HitError {
    /// The exit status that goes with this error: a missing backup is
    /// reported but is no failure, everything else is.
    pub open spec fn status(self) -> int {
        if self == HitError::NoBackup {
            0
        } else {
            1
        }
    }

    /// The exit status that goes with this error.
    pub fn exit_code(&self) -> (code: i32)
        ensures
            code == self.status(),
    {
        match self {
            HitError::NoBackup => 0,
            _ => 1,
        }
    }

    /// Whether the process goes on as if nothing had happened.
    pub fn is_recoverable(&self) -> (yes: bool)
        ensures
            yes == (*self == HitError::NoBackup),
            yes == (self.status() == 0),
    {
        match self {
            HitError::NoBackup => true,
            _ => false,
        }
    }

    /// The message that goes with this error, where it has one of its own.
    /// A duplicate mark and a directory that is not marked are silent, what
    /// an empty list means is for the command to say, and what the file
    /// system or the clipboard refused is for the program to say.
    pub open spec fn message_text(self) -> Option<Seq<char>> {
        match self {
            HitError::EnvMissing => Some("Failed to access the tempdir!"@),
            HitError::InvalidIndex => Some("Not valid index!"@),
            HitError::NoBackup => Some("No backup found!"@),
            _ => None,
        }
    }

    /// The message that goes with this error, without styling and without a
    /// line end.
    pub fn message(&self) -> (text: Option<&'static str>)
        ensures
            text is Some == self.message_text() is Some,
            text is Some ==> text->0@ == self.message_text()->0,
    {
        match self {
            HitError::EnvMissing => Some("Failed to access the tempdir!"),
            HitError::InvalidIndex => Some("Not valid index!"),
            HitError::NoBackup => Some("No backup found!"),
            _ => None,
        }
    }
}

} // verus!
