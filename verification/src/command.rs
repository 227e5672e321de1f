//! A command with all it needs from outside, and what running it comes to:
//! an exit status, what to print on the two output streams, and one thing
//! to do to the files or the clipboard.

use crate::app::{clip_result, list_result, mark_result, status_result, unmark_result, App};
use crate::error::HitError;
use crate::lines::texts;
use crate::show::{
    complain, complain_labelled, complaint, labelled_complaint, parts, Part, Piece,
};
use vstd::prelude::*;

verus! {

/// A command, together with what it needs to know of the world outside.
#[derive(Debug, PartialEq, Eq)]
pub enum Request {
    /// Mark `cwd`, the directory the command was run in.
    Mark { cwd: String },
    /// Take out the mark at `index`, counted from one.
    Unmark { index: usize },
    /// Take out the mark of `cwd`, the directory the command was run in.
    UnmarkHere { cwd: String },
    /// Say of each mark whether its directory is there; `present` holds the
    /// answers, in the order of the marks.
    Status { present: Vec<bool> },
    /// Move the list to the backup.
    Clear,
    /// Copy the mark at `index`, counted from one, to the clipboard.
    Clip { index: usize },
    /// Print the marks.
    List,
    /// Bring the list back from the backup.
    Restore,
}

/// A request as plain values.
pub enum Call {
    Mark { cwd: Seq<char> },
    Unmark { index: usize },
    UnmarkHere { cwd: Seq<char> },
    Status { present: Seq<bool> },
    Clear,
    Clip { index: usize },
    List,
    Restore,
}

impl View for Request {
    type V = Call;

    open spec fn view(&self) -> Call {
        match *self {
            Request::Mark { cwd } => Call::Mark { cwd: cwd@ },
            Request::Unmark { index } => Call::Unmark { index },
            Request::UnmarkHere { cwd } => Call::UnmarkHere { cwd: cwd@ },
            Request::Status { present } => Call::Status { present: present@ },
            Request::Clear => Call::Clear,
            Request::Clip { index } => Call::Clip { index },
            Request::List => Call::List,
            Request::Restore => Call::Restore,
        }
    }
}

/// What is left to do once a command has been worked out.
#[derive(Debug, PartialEq, Eq)]
pub enum Effect {
    /// Nothing.
    Nothing,
    /// Add this line to the end of the list file.
    Append(String),
    /// Replace the list file by these lines.
    Rewrite(Vec<String>),
    /// Copy the list file to the backup, then remove it.
    ClearWithBackup,
    /// Copy the backup over the list file.
    Restore,
    /// Put this text on the clipboard.
    Clip(String),
}

/// An effect as plain values.
pub enum Change {
    Nothing,
    Append(Seq<char>),
    Rewrite(Seq<Seq<char>>),
    ClearWithBackup,
    Restore,
    Clip(Seq<char>),
}

impl View for Effect {
    type V = Change;

    open spec fn view(&self) -> Change {
        match *self {
            Effect::Nothing => Change::Nothing,
            Effect::Append(line) => Change::Append(line@),
            Effect::Rewrite(lines) => Change::Rewrite(texts(lines@)),
            Effect::ClearWithBackup => Change::ClearWithBackup,
            Effect::Restore => Change::Restore,
            Effect::Clip(text) => Change::Clip(text@),
        }
    }
}

/// What running a command comes to.
#[derive(Debug, PartialEq, Eq)]
pub struct Outcome {
    /// The exit status.
    pub code: i32,
    /// What to print on standard output.
    pub out: Vec<Piece>,
    /// What to print on standard error.
    pub err: Vec<Piece>,
    /// What is left to do.
    pub effect: Effect,
}

/// The error that a command ends with, if it does.
pub open spec fn failure(marks: Seq<Seq<char>>, backed_up: bool, call: Call) -> Option<HitError> {
    match call {
        Call::Mark { cwd } => match mark_result(marks, cwd) {
            Ok(_) => None,
            Err(e) => Some(e),
        },
        Call::Unmark { index } => match unmark_result(marks, Some(index), Seq::empty()) {
            Ok(_) => None,
            Err(e) => Some(e),
        },
        Call::UnmarkHere { cwd } => match unmark_result(marks, None, cwd) {
            Ok(_) => None,
            Err(e) => Some(e),
        },
        Call::Status { present } => match status_result(marks, present) {
            Ok(_) => None,
            Err(e) => Some(e),
        },
        Call::Clear => None,
        Call::Clip { index } => match clip_result(marks, index) {
            Ok(_) => None,
            Err(e) => Some(e),
        },
        Call::List => match list_result(marks) {
            Ok(_) => None,
            Err(e) => Some(e),
        },
        Call::Restore => if backed_up {
            None
        } else {
            Some(HitError::NoBackup)
        },
    }
}

/// The exit status of a command: zero unless it fails, and zero too where
/// the failure is a missing backup.
pub open spec fn exit_status(marks: Seq<Seq<char>>, backed_up: bool, call: Call) -> int {
    match failure(marks, backed_up, call) {
        None => 0,
        Some(e) => e.status(),
    }
}

/// What a command leaves to do. A command that fails leaves nothing.
pub open spec fn change(marks: Seq<Seq<char>>, backed_up: bool, call: Call) -> Change {
    match call {
        Call::Mark { cwd } => match mark_result(marks, cwd) {
            Ok(line) => Change::Append(line),
            Err(_) => Change::Nothing,
        },
        Call::Unmark { index } => match unmark_result(marks, Some(index), Seq::empty()) {
            Ok(rest) => Change::Rewrite(rest),
            Err(_) => Change::Nothing,
        },
        Call::UnmarkHere { cwd } => match unmark_result(marks, None, cwd) {
            Ok(rest) => Change::Rewrite(rest),
            Err(_) => Change::Nothing,
        },
        Call::Status { present } => Change::Nothing,
        Call::Clear => if marks.len() > 0 {
            Change::ClearWithBackup
        } else {
            Change::Nothing
        },
        Call::Clip { index } => match clip_result(marks, index) {
            Ok(text) => Change::Clip(text),
            Err(_) => Change::Nothing,
        },
        Call::List => Change::Nothing,
        Call::Restore => if backed_up {
            Change::Restore
        } else {
            Change::Nothing
        },
    }
}

/// What a command prints on standard output: a listing, a status report,
/// or nothing.
pub open spec fn printed(marks: Seq<Seq<char>>, call: Call) -> Seq<Part> {
    match call {
        Call::List => match list_result(marks) {
            Ok(page) => page,
            Err(_) => Seq::empty(),
        },
        Call::Status { present } => match status_result(marks, present) {
            Ok(page) => page,
            Err(_) => Seq::empty(),
        },
        _ => Seq::empty(),
    }
}

/// What a command prints on standard error. A bad index and a missing
/// backup have their messages, and `status` says that there is nothing to
/// check; a duplicate mark, a directory that is not marked and an empty
/// listing are silent.
pub open spec fn complained(marks: Seq<Seq<char>>, backed_up: bool, call: Call) -> Seq<Part> {
    match failure(marks, backed_up, call) {
        None => Seq::empty(),
        Some(e) => if call is Status {
            complaint(NOTHING_TO_CHECK@)
        } else {
            e.report_parts()
        },
    }
}

/// What `status` says of an empty list.
pub const NOTHING_TO_CHECK: &'static str = "Nothing to check!";

/// The label in front of the message of a missing temp directory.
pub const ERROR_LABEL: &'static str = "Error:";

impl HitError {
    /// The line for standard error that goes with this error, where the
    /// error has a message of its own: the message in red, but for a
    /// missing temp directory, which has a label in bold red in front.
    pub open spec fn report_parts(self) -> Seq<Part> {
        match self.message_text() {
            None => Seq::empty(),
            Some(message) => if self == HitError::EnvMissing {
                labelled_complaint(ERROR_LABEL@, message)
            } else {
                complaint(message)
            },
        }
    }

    /// The line for standard error that goes with this error; nothing for
    /// an error without a message of its own.
    pub fn report(&self) -> (page: Vec<Piece>)
        ensures
            parts(page@) == self.report_parts(),
    {
        match self.message() {
            None => {
                let page: Vec<Piece> = Vec::new();
                assert(parts(page@) =~= Seq::<Part>::empty());
                page
            },
            Some(message) => match self {
                HitError::EnvMissing => complain_labelled(ERROR_LABEL, message),
                _ => complain(message),
            },
        }
    }
}

impl App {
    /// Works out a command: the exit status, what to print, and what is
    /// left to do to the files or the clipboard.
    pub fn run(&self, request: &Request) -> (outcome: Outcome)
        ensures
            outcome.code == exit_status(self@.marks, self@.backed_up, request@),
            outcome.effect@ == change(self@.marks, self@.backed_up, request@),
            parts(outcome.out@) == printed(self@.marks, request@),
            parts(outcome.err@) == complained(self@.marks, self@.backed_up, request@),
    {
        match request {
            Request::Mark { cwd } => match self.mark(cwd.as_str()) {
                Ok(line) => done(Effect::Append(line)),
                Err(e) => failed(&e, e.report()),
            },
            Request::Unmark { index } => match self.unmark(&Some(*index), "") {
                Ok(rest) => done(Effect::Rewrite(rest)),
                Err(e) => failed(&e, e.report()),
            },
            Request::UnmarkHere { cwd } => match self.unmark(&None, cwd.as_str()) {
                Ok(rest) => done(Effect::Rewrite(rest)),
                Err(e) => failed(&e, e.report()),
            },
            Request::Status { present } => match self.status(present) {
                Ok(page) => said(page),
                Err(e) => failed(&e, complain(NOTHING_TO_CHECK)),
            },
            Request::Clear => if self.clear() {
                done(Effect::ClearWithBackup)
            } else {
                done(Effect::Nothing)
            },
            Request::Clip { index } => match self.clip(*index) {
                Ok(text) => done(Effect::Clip(text)),
                Err(e) => failed(&e, e.report()),
            },
            Request::List => match self.list() {
                Ok(page) => said(page),
                Err(e) => failed(&e, e.report()),
            },
            Request::Restore => match self.restore() {
                Ok(()) => done(Effect::Restore),
                Err(e) => failed(&e, e.report()),
            },
        }
    }
}

/// Nothing to print.
fn silence() -> (page: Vec<Piece>)
    ensures
        parts(page@) == Seq::<Part>::empty(),
{
    let page: Vec<Piece> = Vec::new();
    assert(parts(page@) =~= Seq::<Part>::empty());
    page
}

/// The outcome of a command that did its work in silence.
fn done(effect: Effect) -> (outcome: Outcome)
    ensures
        outcome.code == 0,
        parts(outcome.out@) == Seq::<Part>::empty(),
        parts(outcome.err@) == Seq::<Part>::empty(),
        outcome.effect == effect,
{
    Outcome { code: 0, out: silence(), err: silence(), effect }
}

/// The outcome of a command that has something to print.
fn said(page: Vec<Piece>) -> (outcome: Outcome)
    ensures
        outcome.code == 0,
        outcome.out == page,
        parts(outcome.err@) == Seq::<Part>::empty(),
        outcome.effect == Effect::Nothing,
{
    Outcome { code: 0, out: page, err: silence(), effect: Effect::Nothing }
}

/// The outcome of a command that ended with an error.
fn failed(error: &HitError, message: Vec<Piece>) -> (outcome: Outcome)
    ensures
        outcome.code == error.status(),
        parts(outcome.out@) == Seq::<Part>::empty(),
        outcome.err == message,
        outcome.effect == Effect::Nothing,
{
    Outcome { code: error.exit_code(), out: silence(), err: message, effect: Effect::Nothing }
}

} // verus!
