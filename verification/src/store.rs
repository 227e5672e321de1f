//! The two files of a list, held in memory: the list file and the backup
//! beside it, each with its whole text or absent. This is what the effects
//! of the commands mean, and where a whole invocation can be played through
//! without touching a disk.

use crate::app::{all_entries, App};
use crate::command::{
    change, complained, exit_status, printed, Call, Change, Effect, Outcome, Request,
};
use crate::error::HitError;
use crate::lines::{join_lines, render_lines, split_lines, texts};
use crate::paths::{Locations, BACKUP_FILE_NAME, LIST_FILE_NAME};
use crate::show::parts;
use vstd::prelude::*;

verus! {

/// Whether `text` is a list file as the commands write it: every line of
/// it can be an entry, and it is those lines written out.
pub open spec fn is_list_text(text: Seq<char>) -> bool {
    &&& all_entries(split_lines(text))
    &&& text == join_lines(split_lines(text))
}

/// The two files as plain values; `None` is a file that is not there.
pub struct Disk {
    pub list: Option<Seq<char>>,
    pub backup: Option<Seq<char>>,
}

impl Disk {
    /// Whether both files, where they are there, are list files as the
    /// commands write them.
    pub open spec fn valid(self) -> bool {
        &&& self.list matches Some(text) ==> is_list_text(text)
        &&& self.backup matches Some(text) ==> is_list_text(text)
    }

    /// Whether neither file holds an entry twice.
    pub open spec fn unique(self) -> bool {
        &&& self.list matches Some(text) ==> split_lines(text).no_duplicates()
        &&& self.backup matches Some(text) ==> split_lines(text).no_duplicates()
    }

    /// The text of the list file; a file that is not there reads as empty.
    pub open spec fn text(self) -> Seq<char> {
        match self.list {
            Some(text) => text,
            None => Seq::empty(),
        }
    }

    /// The marks that a session loads.
    pub open spec fn marks(self) -> Seq<Seq<char>> {
        split_lines(self.text())
    }

    /// After the list file was opened for a session, which creates it where
    /// it is not there.
    pub open spec fn opened(self) -> Disk {
        Disk { list: Some(self.text()), backup: self.backup }
    }

    /// After `line` and a line feed were added to the list file.
    pub open spec fn appended(self, line: Seq<char>) -> Disk {
        Disk { list: Some(self.text() + line.push('\n')), backup: self.backup }
    }

    /// After the list file was replaced by `lines`.
    pub open spec fn rewritten(self, lines: Seq<Seq<char>>) -> Disk {
        Disk { list: Some(join_lines(lines)), backup: self.backup }
    }

    /// After the list file was copied to the backup and removed; nothing
    /// happens to a list file that is empty or not there.
    pub open spec fn cleared(self) -> Disk {
        if self.text().len() > 0 {
            Disk { list: None, backup: Some(self.text()) }
        } else {
            self
        }
    }

    /// After the backup was copied over the list file; nothing happens
    /// where there is no backup.
    pub open spec fn restored(self) -> Disk {
        match self.backup {
            Some(saved) => Disk { list: Some(saved), backup: self.backup },
            None => self,
        }
    }

    /// After an effect was carried out. The clipboard is no file.
    pub open spec fn after(self, effect: Change) -> Disk {
        match effect {
            Change::Nothing => self,
            Change::Append(line) => self.appended(line),
            Change::Rewrite(lines) => self.rewritten(lines),
            Change::ClearWithBackup => self.cleared(),
            Change::Restore => self.restored(),
            Change::Clip(_) => self,
        }
    }

    /// After one whole invocation: the session opens the list file, loads
    /// the marks, works out the command and carries out its effect.
    pub open spec fn step(self, call: Call) -> Disk {
        self.opened().after(change(self.marks(), self.backup is Some, call))
    }

    /// The exit status of one whole invocation.
    pub open spec fn status(self, call: Call) -> int {
        exit_status(self.marks(), self.backup is Some, call)
    }
}

/// The two files of a list, held in memory.
#[derive(Debug, PartialEq, Eq)]
pub struct Store {
    /// The text of the list file, if the file is there.
    pub list: Option<String>,
    /// The text of the backup, if the file is there.
    pub backup: Option<String>,
}

impl View for Store {
    type V = Disk;

    open spec fn view(&self) -> Disk {
        Disk {
            list: match self.list {
                Some(text) => Some(text@),
                None => None,
            },
            backup: match self.backup {
                Some(text) => Some(text@),
                None => None,
            },
        }
    }
}

impl Store {
    /// A store in which neither file is there.
    pub fn new() -> (store: Store)
        ensures
            store@ == (Disk { list: None, backup: None }),
    {
        Store { list: None, backup: None }
    }

    /// Whether the backup is there.
    pub fn has_backup(&self) -> (yes: bool)
        ensures
            yes == (self@.backup is Some),
    {
        self.backup.is_some()
    }

    /// Opens the list file, creating it where it is not there, and hands
    /// back its text.
    pub fn load(&mut self) -> (text: String)
        ensures
            final(self)@ == old(self)@.opened(),
            text@ == old(self)@.text(),
    {
        let text = match &self.list {
            Some(text) => text.clone(),
            None => String::new(),
        };
        self.list = Some(text.clone());
        text
    }

    /// Adds `line` and a line feed to the end of the list file, creating
    /// the file where it is not there.
    pub fn append(&mut self, line: &str)
        ensures
            final(self)@ == old(self)@.appended(line@),
    {
        let mut text = match &self.list {
            Some(text) => text.clone(),
            None => String::new(),
        };
        text.append(line);
        text.push('\n');
        assert(text@ =~= old(self)@.text() + line@.push('\n'));
        self.list = Some(text);
    }

    /// Replaces the list file by `lines`, each followed by a line feed.
    pub fn rewrite(&mut self, lines: &Vec<String>)
        ensures
            final(self)@ == old(self)@.rewritten(texts(lines@)),
    {
        self.list = Some(render_lines(lines));
    }

    /// Copies the list file to the backup and removes it, unless it is
    /// empty or not there.
    pub fn clear_with_backup(&mut self)
        ensures
            final(self)@ == old(self)@.cleared(),
    {
        let text = match &self.list {
            Some(text) => text.clone(),
            None => String::new(),
        };
        if !text.as_str().is_empty() {
            self.backup = Some(text);
            self.list = None;
        }
    }

    /// Copies the backup over the list file.
    pub fn restore(&mut self) -> (done: Result<(), HitError>)
        ensures
            final(self)@ == old(self)@.restored(),
            done is Ok <==> old(self)@.backup is Some,
            done is Err ==> done == Err::<(), HitError>(HitError::NoBackup),
    {
        let saved = match &self.backup {
            Some(saved) => saved.clone(),
            None => {
                return Err(HitError::NoBackup);
            },
        };
        self.list = Some(saved);
        Ok(())
    }

    /// Carries out an effect on the files.
    pub fn apply(&mut self, effect: &Effect)
        ensures
            final(self)@ == old(self)@.after(effect@),
    {
        match effect {
            Effect::Nothing => {},
            Effect::Append(line) => self.append(line.as_str()),
            Effect::Rewrite(lines) => self.rewrite(lines),
            Effect::ClearWithBackup => self.clear_with_backup(),
            Effect::Restore => {
                let _ = self.restore();
            },
            Effect::Clip(_) => {},
        }
    }

    /// Plays through one whole invocation: opens the list file, loads the
    /// marks, works out the command and carries out its effect on the files.
    pub fn invoke(&mut self, request: &Request) -> (outcome: Outcome)
        ensures
            final(self)@ == old(self)@.step(request@),
            outcome.code == old(self)@.status(request@),
            outcome.effect@ == change(old(self)@.marks(), old(self)@.backup is Some, request@),
            parts(outcome.out@) == printed(old(self)@.marks(), request@),
            parts(outcome.err@) == complained(
                old(self)@.marks(),
                old(self)@.backup is Some,
                request@,
            ),
    {
        let backed_up = self.has_backup();
        let contents = self.load();
        let locations = Locations {
            list: LIST_FILE_NAME.to_owned(),
            backup: BACKUP_FILE_NAME.to_owned(),
        };
        let app = App::new(locations, backed_up, contents.as_str());
        let outcome = app.run(request);
        self.apply(&outcome.effect);
        outcome
    }
}

} // verus!
