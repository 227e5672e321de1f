//! One session over the list: the marks as they were loaded, and what each
//! command makes of them.

use crate::error::HitError;
use crate::lines::{all_one_line, is_line, parse_lines, split_lines, texts};
use crate::paths::Locations;
use crate::show::{
    listing, parts, push_list_row, push_status_row, status_report, Part, Piece,
};
use crate::trim::{lemma_trimmed_part, trim, trimmed};
use vstd::prelude::*;

verus! {

/// What a session knows, as plain values.
pub struct Session {
    /// The marked directories, in the order in which they were marked.
    pub marks: Seq<Seq<char>>,
    /// The list file.
    pub path: Seq<char>,
    /// Whether a backup was there when the session began.
    pub backed_up: bool,
    /// The backup file.
    pub backup_path: Seq<char>,
}

/// Whether `dir` can be an entry of the list: a line of at least one
/// character that comes back as it is when it is written and read again.
pub open spec fn is_entry(dir: Seq<char>) -> bool {
    dir.len() > 0 && is_line(dir)
}

/// Whether every one of `marks` can be an entry of the list.
pub open spec fn all_entries(marks: Seq<Seq<char>>) -> bool {
    forall|i: int| 0 <= i < marks.len() ==> is_entry(#[trigger] marks[i])
}

/// Whether `marks` is a list as the commands build it: every entry can be
/// one, and none is there twice.
pub open spec fn is_mark_list(marks: Seq<Seq<char>>) -> bool {
    all_entries(marks) && marks.no_duplicates()
}

/// Whether `index`, counted from one, names an entry of `marks`.
pub open spec fn valid_index(marks: Seq<Seq<char>>, index: int) -> bool {
    1 <= index <= marks.len()
}

/// What `unmark` hands back: the marks without the one at `index`, counted
/// from one, or, where no index is given, without the first that equals
/// `cwd`.
pub open spec fn unmark_result(
    marks: Seq<Seq<char>>,
    index: Option<usize>,
    cwd: Seq<char>,
) -> Result<Seq<Seq<char>>, HitError> {
    match index {
        Some(i) => if valid_index(marks, i as int) {
            Ok(marks.remove(i - 1))
        } else {
            Err(HitError::InvalidIndex)
        },
        None => match marks.index_of_first(cwd) {
            Some(k) => Ok(marks.remove(k)),
            None => Err(HitError::NotMarked),
        },
    }
}

/// What `mark` hands back: the line to add to the list file, which is
/// `cwd`, unless it is marked already.
pub open spec fn mark_result(marks: Seq<Seq<char>>, cwd: Seq<char>) -> Result<Seq<char>, HitError> {
    if marks.contains(cwd) {
        Err(HitError::Duplicate)
    } else {
        Ok(cwd)
    }
}

/// What `clip` hands back: the entry at `index`, counted from one, without
/// the white space at either end.
pub open spec fn clip_result(marks: Seq<Seq<char>>, index: usize) -> Result<Seq<char>, HitError> {
    if valid_index(marks, index as int) {
        Ok(trimmed(marks[index - 1]))
    } else {
        Err(HitError::InvalidIndex)
    }
}

/// What `list` hands back: the listing, unless there is nothing to list.
pub open spec fn list_result(marks: Seq<Seq<char>>) -> Result<Seq<Part>, HitError> {
    if marks.len() == 0 {
        Err(HitError::EmptyList)
    } else {
        Ok(listing(marks))
    }
}

/// What `status` hands back: the status report, unless there is nothing to
/// check.
pub open spec fn status_result(marks: Seq<Seq<char>>, present: Seq<bool>) -> Result<
    Seq<Part>,
    HitError,
> {
    if marks.len() == 0 {
        Err(HitError::EmptyList)
    } else {
        Ok(status_report(marks, present))
    }
}

/// A session over the list.
pub struct App {
    dirs: Vec<String>,
    path: String,
    backed_up: bool,
    backup_path: String,
}

impl View for App {
    type V = Session;

    closed spec fn view(&self) -> Session {
        Session {
            marks: texts(self.dirs@),
            path: self.path@,
            backed_up: self.backed_up,
            backup_path: self.backup_path@,
        }
    }
}

impl App {
    /// Every mark of a session is one line.
    #[verifier::type_invariant]
    spec fn marks_are_lines(self) -> bool {
        all_one_line(texts(self.dirs@))
    }

    /// A session over the list files at `locations`, where `backed_up` says
    /// whether the backup file exists and `contents` is the text of the list
    /// file, empty if the file is new. The marks are the lines of that text.
    pub fn new(locations: Locations, backed_up: bool, contents: &str) -> (app: App)
        ensures
            app@ == (Session {
                marks: split_lines(contents@),
                path: locations.list@,
                backed_up,
                backup_path: locations.backup@,
            }),
            all_one_line(app@.marks),
    {
        App {
            dirs: parse_lines(contents),
            path: locations.list,
            backed_up,
            backup_path: locations.backup,
        }
    }

    /// The number of marks.
    pub fn len(&self) -> (count: usize)
        ensures
            count == self@.marks.len(),
    {
        self.dirs.len()
    }

    /// Whether `dir` is marked.
    pub fn contains(&self, dir: &str) -> (yes: bool)
        ensures
            yes == self@.marks.contains(dir@),
    {
        proof {
            self@.marks.index_of_first_ensures(dir@);
        }
        self.index_of(dir).is_some()
    }

    /// The mark at `index`, counted from one.
    pub fn get(&self, index: usize) -> (entry: Option<&String>)
        ensures
            entry is Some <==> valid_index(self@.marks, index as int),
            entry is Some ==> entry->0@ == self@.marks[index - 1],
    {
        if index == 0 || index > self.dirs.len() {
            None
        } else {
            Some(&self.dirs[index - 1])
        }
    }

    /// The marks, in the order in which they were marked. Each is one line.
    pub fn entries(&self) -> (marks: &Vec<String>)
        ensures
            texts(marks@) == self@.marks,
            all_one_line(self@.marks),
    {
        proof {
            use_type_invariant(self);
        }
        &self.dirs
    }

    /// The list file.
    pub fn path(&self) -> (path: &str)
        ensures
            path@ == self@.path,
    {
        self.path.as_str()
    }

    /// The backup file.
    pub fn backup_path(&self) -> (path: &str)
        ensures
            path@ == self@.backup_path,
    {
        self.backup_path.as_str()
    }

    /// Whether a backup was there when the session began.
    pub fn backed_up(&self) -> (yes: bool)
        ensures
            yes == self@.backed_up,
    {
        self.backed_up
    }

    /// The place of `dir` among the marks, counted from one, if it is
    /// marked; the first place if it is there more than once.
    pub fn index_of(&self, dir: &str) -> (found: Option<usize>)
        ensures
            found is Some == self@.marks.index_of_first(dir@) is Some,
            found is Some ==> found->0 == self@.marks.index_of_first(dir@)->0 + 1,
    {
        let wanted = dir.to_owned();
        let mut i: usize = 0;
        while i < self.dirs.len()
            invariant
                i <= self.dirs.len(),
                wanted@ == dir@,
                forall|k: int| 0 <= k < i ==> self@.marks[k] != dir@,
            decreases self.dirs.len() - i,
        {
            if self.dirs[i] == wanted {
                proof {
                    assert(self@.marks[i as int] == dir@);
                    self@.marks.index_of_first_ensures(dir@);
                }
                return Some(i + 1);
            }
            i += 1;
        }
        proof {
            self@.marks.index_of_first_ensures(dir@);
        }
        None
    }

    /// The marks that stay when one is taken out: the one at `index`,
    /// counted from one, or, where no index is given, the first that equals
    /// `cwd`, the directory the command was run in. Each of them is one
    /// line.
    pub fn unmark(&self, index: &Option<usize>, cwd: &str) -> (kept: Result<Vec<String>, HitError>)
        ensures
            match unmark_result(self@.marks, *index, cwd@) {
                Ok(rest) => kept is Ok && texts(kept->Ok_0@) == rest,
                Err(e) => kept == Err::<Vec<String>, HitError>(e),
            },
            kept is Ok ==> all_one_line(texts(kept->Ok_0@)),
    {
        let idx = match index {
            Some(i) => *i,
            None => match self.index_of(cwd) {
                Some(i) => i,
                None => {
                    return Err(HitError::NotMarked);
                },
            },
        };
        proof {
            self@.marks.index_of_first_ensures(cwd@);
        }
        if idx == 0 || idx > self.dirs.len() {
            return Err(HitError::InvalidIndex);
        }
        let gone = idx - 1;
        let mut rest: Vec<String> = Vec::new();
        let mut i: usize = 0;
        while i < self.dirs.len()
            invariant
                i <= self.dirs.len(),
                gone < self.dirs.len(),
                rest.len() == if i <= gone {
                    i
                } else {
                    (i - 1) as usize
                },
                forall|k: int|
                    0 <= k < rest.len() ==> rest[k]@ == self@.marks.remove(gone as int)[k],
            decreases self.dirs.len() - i,
        {
            if i != gone {
                rest.push(self.dirs[i].clone());
            }
            i += 1;
        }
        proof {
            use_type_invariant(self);
            let kept = self@.marks.remove(gone as int);
            assert(texts(rest@) =~= kept);
            assert forall|i: int| 0 <= i < kept.len() implies !(#[trigger] kept[i]).contains(
                '\n',
            ) by {
                if i < gone {
                    assert(kept[i] == self@.marks[i]);
                } else {
                    assert(kept[i] == self@.marks[i + 1]);
                }
            }
        }
        Ok(rest)
    }

    /// The line to add to the list file for `cwd`, the directory the command
    /// was run in. A directory that is marked already is not marked again.
    pub fn mark(&self, cwd: &str) -> (line: Result<String, HitError>)
        ensures
            match mark_result(self@.marks, cwd@) {
                Ok(text) => line is Ok && line->Ok_0@ == text,
                Err(e) => line == Err::<String, HitError>(e),
            },
    {
        proof {
            self@.marks.index_of_first_ensures(cwd@);
        }
        match self.index_of(cwd) {
            Some(_) => Err(HitError::Duplicate),
            None => Ok(cwd.to_owned()),
        }
    }

    /// The status report: for each mark a line with a sign that says
    /// whether its directory is there. `present` holds, for each mark in
    /// order, whether the directory was found; a mark without an answer
    /// counts as gone.
    pub fn status(&self, present: &Vec<bool>) -> (report: Result<Vec<Piece>, HitError>)
        ensures
            match status_result(self@.marks, present@) {
                Ok(page) => report is Ok && parts(report->Ok_0@) == page,
                Err(e) => report == Err::<Vec<Piece>, HitError>(e),
            },
    {
        if self.dirs.len() == 0 {
            return Err(HitError::EmptyList);
        }
        let mut page: Vec<Piece> = Vec::new();
        let mut i: usize = 0;
        proof {
            assert(self@.marks.take(0) =~= Seq::<Seq<char>>::empty());
            assert(parts(page@) =~= status_report(self@.marks.take(0), present@));
        }
        while i < self.dirs.len()
            invariant
                i <= self.dirs.len(),
                parts(page@) == status_report(self@.marks.take(i as int), present@),
            decreases self.dirs.len() - i,
        {
            proof {
                assert(self@.marks.take(i as int + 1).drop_last() =~= self@.marks.take(i as int));
            }
            let there = i < present.len() && present[i];
            push_status_row(&mut page, there, self.dirs[i].as_str());
            i += 1;
        }
        proof {
            assert(self@.marks.take(self.dirs.len() as int) =~= self@.marks);
        }
        Ok(page)
    }

    /// Whether there is anything to clear: the list is moved to the backup
    /// only if it holds a mark.
    pub fn clear(&self) -> (wipe: bool)
        ensures
            wipe == (self@.marks.len() > 0),
    {
        self.dirs.len() != 0
    }

    /// The entry at `index`, counted from one, for the clipboard, without
    /// the white space at either end. It is one line.
    pub fn clip(&self, index: usize) -> (text: Result<String, HitError>)
        ensures
            match clip_result(self@.marks, index) {
                Ok(entry) => text is Ok && text->Ok_0@ == entry,
                Err(e) => text == Err::<String, HitError>(e),
            },
            text is Ok ==> !text->Ok_0@.contains('\n'),
    {
        if index > self.dirs.len() || index == 0 {
            return Err(HitError::InvalidIndex);
        }
        proof {
            use_type_invariant(self);
            assert(!self@.marks[index - 1].contains('\n'));
            lemma_trimmed_part(self@.marks[index - 1], '\n');
        }
        Ok(trim(self.dirs[index - 1].as_str()))
    }

    /// The listing: a numbered line for each mark.
    pub fn list(&self) -> (report: Result<Vec<Piece>, HitError>)
        ensures
            match list_result(self@.marks) {
                Ok(page) => report is Ok && parts(report->Ok_0@) == page,
                Err(e) => report == Err::<Vec<Piece>, HitError>(e),
            },
    {
        if self.dirs.len() == 0 {
            return Err(HitError::EmptyList);
        }
        let mut page: Vec<Piece> = Vec::new();
        let mut i: usize = 0;
        proof {
            assert(self@.marks.take(0) =~= Seq::<Seq<char>>::empty());
            assert(parts(page@) =~= listing(self@.marks.take(0)));
        }
        while i < self.dirs.len()
            invariant
                i <= self.dirs.len(),
                parts(page@) == listing(self@.marks.take(i as int)),
            decreases self.dirs.len() - i,
        {
            proof {
                assert(self@.marks.take(i as int + 1).drop_last() =~= self@.marks.take(i as int));
            }
            push_list_row(&mut page, i + 1, self.dirs[i].as_str());
            i += 1;
        }
        proof {
            assert(self@.marks.take(self.dirs.len() as int) =~= self@.marks);
        }
        Ok(page)
    }

    /// Whether the list can be brought back: only if a backup was there
    /// when the session began.
    pub fn restore(&self) -> (go: Result<(), HitError>)
        ensures
            go is Ok <==> self@.backed_up,
            go is Err ==> go == Err::<(), HitError>(HitError::NoBackup),
    {
        if self.backed_up {
            Ok(())
        } else {
            Err(HitError::NoBackup)
        }
    }
}

} // verus!
